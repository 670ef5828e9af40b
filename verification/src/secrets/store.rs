//! API keys kept in the platform's credential store.
use crate::text::to_string;
use vstd::prelude::*;

verus! {

#[verifier::external_type_specification]
#[verifier::external_body]
pub struct ExKeyringEntry(keyring::Entry);

#[verifier::external_type_specification]
#[verifier::external_body]
pub struct ExKeyringError(keyring::Error);

/// A credential entry of the platform store, with the service and user it
/// was made for.
pub struct KeyringEntry {
    entry: keyring::Entry,
    service: Ghost<Seq<char>>,
    user: Ghost<Seq<char>>,
}

impl KeyringEntry {
    /// The service name the entry was made for.
    pub closed spec fn service(&self) -> Seq<char> {
        self.service@
    }

    /// The user (the key) the entry was made for.
    pub closed spec fn user(&self) -> Seq<char> {
        self.user@
    }
}

/// `keyring::Entry::new(service, user)`: the credential entry for a service
/// and user, made for exactly those two names. Whether it succeeds depends
/// on the platform store, so success is not stated.
#[verifier::external_body]
fn keyring_entry(service: &str, user: &str) -> (r: Result<KeyringEntry, keyring::Error>)
    ensures
        r matches Ok(e) ==> e.service() == service@ && e.user() == user@,
{
    match keyring::Entry::new(service, user) {
        Ok(entry) => Ok(KeyringEntry { entry, service: Ghost(service@), user: Ghost(user@) }),
        Err(e) => Err(e),
    }
}

/// `keyring::Entry::set_password` on the entry. The outcome depends on the
/// platform store; nothing is stated of it.
#[verifier::external_body]
fn entry_set_password(entry: &KeyringEntry, password: &str) -> (r: Result<(), keyring::Error>) {
    entry.entry.set_password(password)
}

/// `keyring::Entry::get_password` on the entry. What the platform store
/// holds is not known here; nothing is stated of the result.
#[verifier::external_body]
fn entry_get_password(entry: &KeyringEntry) -> (r: Result<String, keyring::Error>) {
    entry.entry.get_password()
}

/// `keyring::Entry::delete_credential` on the entry. The outcome depends on
/// the platform store; nothing is stated of it.
#[verifier::external_body]
fn entry_delete_credential(entry: &KeyringEntry) -> (r: Result<(), keyring::Error>) {
    entry.entry.delete_credential()
}

/// A failure of the credential store.
#[derive(Debug)]
pub enum SecretError {
    Keyring(keyring::Error),
}

/// Secrets of one service name in the credential store.
pub struct KeyStore {
    service: String,
}

impl KeyStore {
    /// The service name under which the secrets are kept.
    pub closed spec fn service(&self) -> Seq<char> {
        self.service@
    }

    /// The store of this application's secrets.
    pub fn new() -> (k: KeyStore)
        ensures
            k.service() == "rust-rag-cli"@,
    {
        KeyStore { service: to_string("rust-rag-cli") }
    }

    pub fn with_service(service: &str) -> (k: KeyStore)
        ensures
            k.service() == service@,
    {
        KeyStore { service: to_string(service) }
    }

    /// The credential entry of `key` under this store's service name.
    pub fn entry_for(&self, key: &str) -> (r: Result<KeyringEntry, SecretError>)
        ensures
            r matches Ok(e) ==> e.service() == self.service() && e.user() == key@,
    {
        match keyring_entry(self.service.as_str(), key) {
            Ok(entry) => Ok(entry),
            Err(e) => Err(SecretError::Keyring(e)),
        }
    }

    /// Stores `value` under `key`: the entry of `key` under this store's
    /// service name gets `value` as its password. A failure of the store is
    /// handed back as `SecretError::Keyring`.
    pub fn set(&self, key: &str, value: &str) -> (r: Result<(), SecretError>) {
        let entry = self.entry_for(key)?;
        match entry_set_password(&entry, value) {
            Ok(()) => Ok(()),
            Err(e) => Err(SecretError::Keyring(e)),
        }
    }

    /// The value stored under `key`: the password of the entry of `key`
    /// under this store's service name, as the store hands it back.
    pub fn get(&self, key: &str) -> (r: Result<String, SecretError>) {
        let entry = self.entry_for(key)?;
        match entry_get_password(&entry) {
            Ok(p) => Ok(p),
            Err(e) => Err(SecretError::Keyring(e)),
        }
    }

    /// Removes the value stored under `key`: the credential of the entry of
    /// `key` under this store's service name is deleted.
    pub fn delete(&self, key: &str) -> (r: Result<(), SecretError>) {
        let entry = self.entry_for(key)?;
        match entry_delete_credential(&entry) {
            Ok(()) => Ok(()),
            Err(e) => Err(SecretError::Keyring(e)),
        }
    }

    /// The keys stored; the store cannot enumerate them, so this is empty.
    pub fn list(&self) -> (r: Result<Vec<String>, SecretError>)
        ensures
            r matches Ok(v) && v@.len() == 0,
    {
        Ok(Vec::new())
    }
}

impl Default for KeyStore {
    fn default() -> (k: KeyStore)
        ensures
            k.service() == "rust-rag-cli"@,
    {
        KeyStore::new()
    }
}

} // verus!
