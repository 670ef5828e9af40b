use rust_rag_cli::app::command::{help_text, parse, Command};

#[test]
fn parses_switch_with_model() {
    match parse("/switch llama3") {
        Some(Command::Switch { model }) => assert_eq!(model, "llama3"),
        other => panic!("unexpected {:?}", other),
    }
}

#[test]
fn plain_text_is_not_a_command() {
    assert!(parse("hello there").is_none());
    assert!(parse("").is_none());
}

#[test]
fn surrounding_whitespace_is_ignored() {
    assert!(matches!(parse("   /quit   "), Some(Command::Quit)));
    assert!(matches!(parse("\t/models\n"), Some(Command::Models)));
}

#[test]
fn index_defaults_to_current_directory() {
    match parse("/index") {
        Some(Command::Index { path }) => assert_eq!(path, "."),
        other => panic!("unexpected {:?}", other),
    }
    match parse("/index src/db") {
        Some(Command::Index { path }) => assert_eq!(path, "src/db"),
        other => panic!("unexpected {:?}", other),
    }
}

#[test]
fn commands_needing_an_argument_reject_a_bare_word() {
    assert!(parse("/switch").is_none());
    assert!(parse("/switch-embed").is_none());
    assert!(parse("/import").is_none());
    assert!(parse("/profile").is_none());
}

#[test]
fn unknown_commands_and_bare_slashes_are_rejected() {
    assert!(parse("/frobnicate").is_none());
    assert!(parse("/").is_none());
    assert!(parse("///").is_none());
}

#[test]
fn aliases_name_the_same_command() {
    assert!(matches!(parse("/q"), Some(Command::Quit)));
    assert!(matches!(parse("/exit"), Some(Command::Quit)));
    assert!(matches!(parse("/h"), Some(Command::Help)));
    assert!(matches!(parse("/?"), Some(Command::Help)));
    assert!(matches!(parse("/bench"), Some(Command::Benchmark)));
    assert!(matches!(parse("/highlight"), Some(Command::SyntaxToggle)));
    match parse("/smart-index lib") {
        Some(Command::IncrementalIndex { path }) => assert_eq!(path, "lib"),
        other => panic!("unexpected {:?}", other),
    }
}

#[test]
fn repeated_leading_slashes_are_skipped() {
    assert!(matches!(parse("//clear"), Some(Command::Clear)));
}

#[test]
fn export_path_is_optional() {
    assert!(matches!(parse("/export"), Some(Command::Export { path: None })));
    match parse("/export ctx.txt") {
        Some(Command::Export { path: Some(p) }) => assert_eq!(p, "ctx.txt"),
        other => panic!("unexpected {:?}", other),
    }
}

#[test]
fn help_lists_the_commands() {
    let h = help_text();
    assert!(h.starts_with("/models"));
    for c in ["/switch <model>", "/index <path>", "/quit", "@file or @dir/"] {
        assert!(h.contains(c), "missing {}", c);
    }
}

#[test]
fn a_bare_question_mark_asks_for_help() {
    assert!(matches!(parse("?"), Some(Command::Help)));
    assert!(matches!(parse("  ?  "), Some(Command::Help)));
    assert!(parse("??").is_none());
    assert!(parse("? x").is_none());
}

#[test]
fn every_command_of_the_help_parses_with_an_argument() {
    let h = help_text();
    for w in [
        "models", "switch", "switch-embed", "index", "incremental-index", "reindex", "save",
        "export", "import", "clear", "clear-history", "benchmark", "profiles", "profile", "syntax",
        "help", "quit",
    ] {
        assert!(h.contains(&format!("/{} ", w)), "{}", w);
        assert!(parse(&format!("/{} x", w)).is_some(), "{}", w);
    }
}
