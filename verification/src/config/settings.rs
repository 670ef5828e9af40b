//! Default values of the settings, and the sections of the configuration
//! that hold no floating-point value.
use crate::scrapper::strings_view;
use crate::text::to_string;
use vstd::prelude::*;

verus! {

pub fn default_chat_model() -> (s: String)
    ensures
        s@ == "llama3"@,
{
    to_string("llama3")
}

pub fn default_embed_model() -> (s: String)
    ensures
        s@ == "nomic-embed-text"@,
{
    to_string("nomic-embed-text")
}

pub fn default_base_url() -> (s: String)
    ensures
        s@ == "http://localhost:11434"@,
{
    to_string("http://localhost:11434")
}

pub fn default_index_file() -> (s: String)
    ensures
        s@ == ".semantic-index.json"@,
{
    to_string(".semantic-index.json")
}

pub fn default_top_k() -> (n: usize)
    ensures
        n == 5,
{
    5
}

/// Lines per chunk: 50.
pub fn default_chunk_size() -> (n: usize)
    ensures
        n == 50,
{
    50
}

pub fn default_chunk_overlap() -> (n: usize)
    ensures
        n == 10,
{
    10
}

pub fn default_cache_size() -> (n: usize)
    ensures
        n == 100,
{
    100
}

pub fn default_max_history() -> (n: usize)
    ensures
        n == 5,
{
    5
}

pub fn default_syntax_highlight() -> (b: bool)
    ensures
        b,
{
    true
}

pub fn default_theme() -> (s: String)
    ensures
        s@ == "base16-eighties.dark"@,
{
    to_string("base16-eighties.dark")
}

pub fn default_rps() -> (n: u32)
    ensures
        n == 10,
{
    10
}

pub fn default_burst() -> (n: u32)
    ensures
        n == 20,
{
    20
}

pub fn default_debounce_ms() -> (n: u64)
    ensures
        n == 500,
{
    500
}

pub fn default_reindex_delay_ms() -> (n: u64)
    ensures
        n == 1000,
{
    1000
}

pub open spec fn default_extensions_spec() -> Seq<Seq<char>> {
    seq![
        ".rs"@, ".toml"@, ".json"@,
        ".yaml"@, ".yml"@, ".md"@,
        ".py"@, ".pyi"@,
        ".js"@, ".ts"@, ".jsx"@, ".tsx"@,
        ".go"@,
        ".java"@, ".kt"@,
        ".c"@, ".cpp"@, ".h"@, ".hpp"@,
        ".sh"@, ".bash"@,
        ".txt"@, ".sql"@,
    ]
}

pub open spec fn default_ignore_dirs_spec() -> Seq<Seq<char>> {
    seq!["models"@, "node_modules"@, "target"@, "dist"@, ".git"@]
}

fn push_lit(v: &mut Vec<String>, s: &str)
    ensures
        strings_view(final(v)@) == strings_view(old(v)@).push(s@),
{
    v.push(to_string(s));
    assert(strings_view(v@) =~= strings_view(old(v)@).push(s@));
}

pub fn default_extensions() -> (v: Vec<String>)
    ensures
        strings_view(v@) == default_extensions_spec(),
{
    let mut e: Vec<String> = Vec::new();
    assert(strings_view(e@) =~= seq![]);
    push_lit(&mut e, ".rs");
    push_lit(&mut e, ".toml");
    push_lit(&mut e, ".json");
    push_lit(&mut e, ".yaml");
    push_lit(&mut e, ".yml");
    push_lit(&mut e, ".md");
    push_lit(&mut e, ".py");
    push_lit(&mut e, ".pyi");
    push_lit(&mut e, ".js");
    push_lit(&mut e, ".ts");
    push_lit(&mut e, ".jsx");
    push_lit(&mut e, ".tsx");
    push_lit(&mut e, ".go");
    push_lit(&mut e, ".java");
    push_lit(&mut e, ".kt");
    push_lit(&mut e, ".c");
    push_lit(&mut e, ".cpp");
    push_lit(&mut e, ".h");
    push_lit(&mut e, ".hpp");
    push_lit(&mut e, ".sh");
    push_lit(&mut e, ".bash");
    push_lit(&mut e, ".txt");
    push_lit(&mut e, ".sql");
    assert(strings_view(e@) =~= default_extensions_spec());
    e
}

pub fn default_ignore_dirs() -> (v: Vec<String>)
    ensures
        strings_view(v@) == default_ignore_dirs_spec(),
{
    let mut d: Vec<String> = Vec::new();
    assert(strings_view(d@) =~= seq![]);
    push_lit(&mut d, "models");
    push_lit(&mut d, "node_modules");
    push_lit(&mut d, "target");
    push_lit(&mut d, "dist");
    push_lit(&mut d, ".git");
    assert(strings_view(d@) =~= default_ignore_dirs_spec());
    d
}

/// User-interface settings.
#[derive(Debug, Clone)]
pub struct UiConfig {
    pub syntax_highlight: bool,
    pub theme: String,
}

impl Default for UiConfig {
    fn default() -> (c: UiConfig)
        ensures
            c.syntax_highlight,
            c.theme@ == "base16-eighties.dark"@,
    {
        UiConfig { syntax_highlight: default_syntax_highlight(), theme: default_theme() }
    }
}

/// Request rate limiting.
#[derive(Debug, Clone, Copy, PartialEq, Eq, Structural)]
pub struct RateLimitConfig {
    pub enabled: bool,
    pub requests_per_second: u32,
    pub burst_size: u32,
}

impl Default for RateLimitConfig {
    fn default() -> (c: RateLimitConfig)
        ensures
            c == (RateLimitConfig { enabled: false, requests_per_second: 10, burst_size: 20 }),
    {
        RateLimitConfig {
            enabled: false,
            requests_per_second: default_rps(),
            burst_size: default_burst(),
        }
    }
}

/// File watching.
#[derive(Debug, Clone, Copy, PartialEq, Eq, Structural)]
pub struct WatcherConfig {
    pub enabled: bool,
    pub debounce_ms: u64,
    pub reindex_delay_ms: u64,
}

impl Default for WatcherConfig {
    fn default() -> (c: WatcherConfig)
        ensures
            c == (WatcherConfig { enabled: false, debounce_ms: 500, reindex_delay_ms: 1000 }),
    {
        WatcherConfig {
            enabled: false,
            debounce_ms: default_debounce_ms(),
            reindex_delay_ms: default_reindex_delay_ms(),
        }
    }
}

/// Which files are indexed.
#[derive(Debug, Clone)]
pub struct FileFilterConfig {
    pub extensions: Vec<String>,
    pub ignore_dirs: Vec<String>,
}

impl Default for FileFilterConfig {
    fn default() -> (c: FileFilterConfig)
        ensures
            strings_view(c.extensions@) == default_extensions_spec(),
            strings_view(c.ignore_dirs@) == default_ignore_dirs_spec(),
    {
        FileFilterConfig { extensions: default_extensions(), ignore_dirs: default_ignore_dirs() }
    }
}

} // verus!
