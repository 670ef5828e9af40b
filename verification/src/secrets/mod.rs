//! Access to the credential store.
pub mod store;

pub use store::KeyStore;

use vstd::prelude::*;

verus! {

/// Entry point to the stored secrets.
pub struct Secrets;

impl Secrets {
    /// The store of this application's secrets.
    pub fn new() -> (k: KeyStore)
        ensures
            k.service() == "rust-rag-cli"@,
    {
        KeyStore::new()
    }
}

} // verus!
