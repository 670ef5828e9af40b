//! Slash commands typed in the input line.
use crate::text::{
    eq_lit, split_whitespace_from, starts_with_char, string_of, to_string, trim, trimmed_chars,
    words,
};
use vstd::prelude::*;

verus! {

/// A slash command. Paths are held as the text the user typed.
#[derive(Debug, Clone)]
pub enum Command {
    Models,
    Switch { model: String },
    SwitchEmbed { model: String },
    Index { path: String },
    IncrementalIndex { path: String },
    Reindex,
    Save,
    Export { path: Option<String> },
    Import { path: String },
    Clear,
    ClearHistory,
    Benchmark,
    Profiles,
    Profile { name: String },
    Help,
    Quit,
    SyntaxToggle,
}

/// The mathematical value of a [`Command`].
pub enum CommandSpec {
    Models,
    Switch { model: Seq<char> },
    SwitchEmbed { model: Seq<char> },
    Index { path: Seq<char> },
    IncrementalIndex { path: Seq<char> },
    Reindex,
    Save,
    Export { path: Option<Seq<char>> },
    Import { path: Seq<char> },
    Clear,
    ClearHistory,
    Benchmark,
    Profiles,
    Profile { name: Seq<char> },
    Help,
    Quit,
    SyntaxToggle,
}

impl View for Command {
    type V = CommandSpec;

    open spec fn view(&self) -> CommandSpec {
        match self {
            Command::Models => CommandSpec::Models,
            Command::Switch { model } => CommandSpec::Switch { model: model@ },
            Command::SwitchEmbed { model } => CommandSpec::SwitchEmbed { model: model@ },
            Command::Index { path } => CommandSpec::Index { path: path@ },
            Command::IncrementalIndex { path } => CommandSpec::IncrementalIndex { path: path@ },
            Command::Reindex => CommandSpec::Reindex,
            Command::Save => CommandSpec::Save,
            Command::Export { path } => CommandSpec::Export {
                path: match path {
                    Some(p) => Some(p@),
                    None => None,
                },
            },
            Command::Import { path } => CommandSpec::Import { path: path@ },
            Command::Clear => CommandSpec::Clear,
            Command::ClearHistory => CommandSpec::ClearHistory,
            Command::Benchmark => CommandSpec::Benchmark,
            Command::Profiles => CommandSpec::Profiles,
            Command::Profile { name } => CommandSpec::Profile { name: name@ },
            Command::Help => CommandSpec::Help,
            Command::Quit => CommandSpec::Quit,
            Command::SyntaxToggle => CommandSpec::SyntaxToggle,
        }
    }
}

/// Number of leading `'/'` characters of `s`.
pub open spec fn leading_slashes(s: Seq<char>) -> nat
    decreases s.len(),
{
    if s.len() > 0 && s[0] == '/' {
        1 + leading_slashes(s.drop_first())
    } else {
        0
    }
}

/// The words of a command line: the line trimmed, stripped of its leading
/// slashes and split at whitespace.
pub open spec fn command_words(input: Seq<char>) -> Seq<Seq<char>> {
    let t = trim(input);
    words(t.skip(leading_slashes(t) as int))
}

/// A path argument, `"."` when it is missing.
pub open spec fn path_or_dot(parts: Seq<Seq<char>>) -> Seq<char> {
    if parts.len() > 1 {
        parts[1]
    } else {
        "."@
    }
}

/// The command that a line names, from its first word and its argument.
pub open spec fn command_of_words(parts: Seq<Seq<char>>) -> Option<CommandSpec> {
    let head = parts[0];
    let arg: Option<Seq<char>> = if parts.len() > 1 {
        Some(parts[1])
    } else {
        None
    };
    if head == "models"@ {
        Some(CommandSpec::Models)
    } else if head == "switch"@ {
        match arg {
            Some(m) => Some(CommandSpec::Switch { model: m }),
            None => None,
        }
    } else if head == "switch-embed"@ {
        match arg {
            Some(m) => Some(CommandSpec::SwitchEmbed { model: m }),
            None => None,
        }
    } else if head == "index"@ {
        Some(CommandSpec::Index { path: path_or_dot(parts) })
    } else if head == "incremental-index"@ || head == "smart-index"@ {
        Some(CommandSpec::IncrementalIndex { path: path_or_dot(parts) })
    } else if head == "reindex"@ {
        Some(CommandSpec::Reindex)
    } else if head == "save"@ {
        Some(CommandSpec::Save)
    } else if head == "export"@ {
        Some(CommandSpec::Export { path: arg })
    } else if head == "import"@ {
        match arg {
            Some(p) => Some(CommandSpec::Import { path: p }),
            None => None,
        }
    } else if head == "clear"@ {
        Some(CommandSpec::Clear)
    } else if head == "clear-history"@ {
        Some(CommandSpec::ClearHistory)
    } else if head == "benchmark"@ || head == "bench"@ {
        Some(CommandSpec::Benchmark)
    } else if head == "profiles"@ {
        Some(CommandSpec::Profiles)
    } else if head == "profile"@ {
        match arg {
            Some(n) => Some(CommandSpec::Profile { name: n }),
            None => None,
        }
    } else if head == "syntax"@ || head == "highlight"@ {
        Some(CommandSpec::SyntaxToggle)
    } else if head == "help"@ || head == "h"@ || head == "?"@ {
        Some(CommandSpec::Help)
    } else if head == "quit"@ || head == "q"@ || head == "exit"@ {
        Some(CommandSpec::Quit)
    } else {
        None
    }
}

/// A line that asks for a command rather than an answer: its trimmed text
/// starts with `'/'` or is a bare `?` (help).
pub open spec fn is_command_line_spec(input: Seq<char>) -> bool {
    starts_with_char(trim(input), '/') || trim(input) == seq!['?']
}

/// Whether `input` asks for a command rather than an answer.
pub fn is_command_line(input: &str) -> (b: bool)
    ensures
        b == is_command_line_spec(input@),
{
    let t = trimmed_chars(input);
    let q = t.len() == 1 && t[0] == '?';
    proof {
        if t@.len() == 1 && t@[0] == '?' {
            assert(t@ =~= seq!['?']);
        }
        if t@ == seq!['?'] {
            assert(t@[0] == '?');
        }
    }
    (t.len() > 0 && t[0] == '/') || q
}

/// What [`parse`] returns for a line: help for a bare `?`; otherwise nothing
/// unless the trimmed line starts with `'/'` and has a first word, else the
/// command its words name.
pub open spec fn parse_spec(input: Seq<char>) -> Option<CommandSpec> {
    let t = trim(input);
    if t == seq!['?'] {
        Some(CommandSpec::Help)
    } else if !starts_with_char(t, '/') {
        None
    } else if command_words(input).len() == 0 {
        None
    } else {
        command_of_words(command_words(input))
    }
}

fn skip_slashes(v: &Vec<char>) -> (n: usize)
    ensures
        n == leading_slashes(v@),
        n <= v.len(),
{
    let mut i: usize = 0;
    assert(v@.skip(0) =~= v@);
    while i < v.len() && v[i] == '/'
        invariant
            i <= v.len(),
            leading_slashes(v@) == i + leading_slashes(v@.skip(i as int)),
        decreases v.len() - i,
    {
        assert(v@.skip(i as int).drop_first() =~= v@.skip(i + 1));
        i += 1;
    }
    assert(v@.skip(i as int).len() == 0 || v@.skip(i as int)[0] != '/');
    i
}

fn arg_string(parts: &Vec<Vec<char>>) -> (r: Option<String>)
    ensures
        parts@.len() > 1 ==> (r matches Some(s) && s@ == parts@[1]@),
        parts@.len() <= 1 ==> r is None,
{
    if parts.len() > 1 {
        Some(string_of(&parts[1]))
    } else {
        None
    }
}

fn path_arg(parts: &Vec<Vec<char>>) -> (r: String)
    ensures
        parts@.len() > 1 ==> r@ == parts@[1]@,
        parts@.len() <= 1 ==> r@ == "."@,
{
    if parts.len() > 1 {
        string_of(&parts[1])
    } else {
        to_string(".")
    }
}

/// Parses a command line: a slash command, or a bare `?` for help.
pub fn parse(input: &str) -> (r: Option<Command>)
    ensures
        match r {
            Some(c) => parse_spec(input@) == Some(c@),
            None => parse_spec(input@) is None,
        },
{
    let t = trimmed_chars(input);
    if t.len() == 1 && t[0] == '?' {
        assert(t@ =~= seq!['?']);
        return Some(Command::Help);
    }
    if t.len() == 0 || t[0] != '/' {
        return None;
    }
    let n = skip_slashes(&t);
    let parts = split_whitespace_from(&t, n);
    if parts.len() == 0 {
        return None;
    }
    let ghost ps = command_words(input@);
    assert(parts@.len() == ps.len());
    let ghost head = ps[0];
    assert(parts@[0]@ == head);
    proof {
        if parts@.len() > 1 {
            assert(parts@[1]@ == ps[1]);
        }
    }
    let h = &parts[0];
    if eq_lit(h, "models") {
        Some(Command::Models)
    } else if eq_lit(h, "switch") {
        match arg_string(&parts) {
            Some(m) => Some(Command::Switch { model: m }),
            None => None,
        }
    } else if eq_lit(h, "switch-embed") {
        match arg_string(&parts) {
            Some(m) => Some(Command::SwitchEmbed { model: m }),
            None => None,
        }
    } else if eq_lit(h, "index") {
        Some(Command::Index { path: path_arg(&parts) })
    } else if eq_lit(h, "incremental-index") || eq_lit(h, "smart-index") {
        Some(Command::IncrementalIndex { path: path_arg(&parts) })
    } else if eq_lit(h, "reindex") {
        Some(Command::Reindex)
    } else if eq_lit(h, "save") {
        Some(Command::Save)
    } else if eq_lit(h, "export") {
        let p = arg_string(&parts);
        Some(Command::Export { path: p })
    } else if eq_lit(h, "import") {
        match arg_string(&parts) {
            Some(p) => Some(Command::Import { path: p }),
            None => None,
        }
    } else if eq_lit(h, "clear") {
        Some(Command::Clear)
    } else if eq_lit(h, "clear-history") {
        Some(Command::ClearHistory)
    } else if eq_lit(h, "benchmark") || eq_lit(h, "bench") {
        Some(Command::Benchmark)
    } else if eq_lit(h, "profiles") {
        Some(Command::Profiles)
    } else if eq_lit(h, "profile") {
        match arg_string(&parts) {
            Some(p) => Some(Command::Profile { name: p }),
            None => None,
        }
    } else if eq_lit(h, "syntax") || eq_lit(h, "highlight") {
        Some(Command::SyntaxToggle)
    } else if eq_lit(h, "help") || eq_lit(h, "h") || eq_lit(h, "?") {
        Some(Command::Help)
    } else if eq_lit(h, "quit") || eq_lit(h, "q") || eq_lit(h, "exit") {
        Some(Command::Quit)
    } else {
        None
    }
}

/// The help text listing the commands.
pub open spec fn help_text_spec() -> &'static str {
    "/models              - List models
    /switch <model>      - Change chat model
    /switch-embed <model> - Change embed model
    /index <path>        - Index directory (full)
    /incremental-index <path> - Smart reindex (only changed files)
    /reindex             - Reindex current project
    /save                - Save index
    /export [file]       - Export last retrieved context
    /import <file>       - Load questions from file
    /clear               - Clear chat
    /clear-history       - Clear conversation context
    /benchmark           - Show timing metrics
    /profiles            - List config profiles
    /profile <name>      - Switch profile
    /syntax              - Toggle syntax highlighting
    /help                - Show help
    /quit                - Exit

    @file or @dir/       - Include files in question
    Tab                  - Complete @path"
}

/// The help text listing the commands.
pub fn help_text() -> (r: &'static str)
    ensures
        r == help_text_spec(),
{
    "/models              - List models
    /switch <model>      - Change chat model
    /switch-embed <model> - Change embed model
    /index <path>        - Index directory (full)
    /incremental-index <path> - Smart reindex (only changed files)
    /reindex             - Reindex current project
    /save                - Save index
    /export [file]       - Export last retrieved context
    /import <file>       - Load questions from file
    /clear               - Clear chat
    /clear-history       - Clear conversation context
    /benchmark           - Show timing metrics
    /profiles            - List config profiles
    /profile <name>      - Switch profile
    /syntax              - Toggle syntax highlighting
    /help                - Show help
    /quit                - Exit

    @file or @dir/       - Include files in question
    Tab                  - Complete @path"
}

} // verus!
