use rust_rag_cli::app::state::{App, Message, MouseSelection};
use rust_rag_cli::ui::blocks::{text_block_layout, TextPiece};
use rust_rag_cli::ui::chat::{chat_activity, chat_lines, style_chat_line, thinking_text, ChatActivity};
use rust_rag_cli::ui::logs::log_lines;
use rust_rag_cli::ui::markdown::{highlight_message_line, parse_inline_formatting, style_message_line};
use rust_rag_cli::ui::highlight::{highlight_code, try_highlight_code_lines, CodeSpan, Highlighter, SpanColor};
use rust_rag_cli::ui::syntax::{detect_language_from_path, extract_code_blocks, language_of_lowercased};
use rust_rag_cli::ui::panels::input_spans;
use rust_rag_cli::ui::render::{find_closing_marker, wrap_line};
use rust_rag_cli::ui::style::{SpanStyle, StyledSpan};

fn pairs(v: &[StyledSpan]) -> Vec<(String, SpanStyle)> {
    v.iter().map(|s| (s.text.clone(), s.style)).collect()
}

fn p(t: &str, s: SpanStyle) -> (String, SpanStyle) {
    (t.to_string(), s)
}

#[test]
fn wrap_cuts_at_the_width() {
    assert_eq!(wrap_line("abcdef", 4), vec!["abcd", "ef"]);
    assert_eq!(wrap_line("abcd", 2), vec!["ab", "cd"]);
}

#[test]
fn wrap_keeps_empty_lines_and_zero_width() {
    assert_eq!(wrap_line("", 3), vec![""]);
    assert_eq!(wrap_line("abc", 0), vec!["abc"]);
}

#[test]
fn wrap_counts_characters_not_bytes() {
    assert_eq!(wrap_line("héllo", 2), vec!["hé", "ll", "o"]);
}

#[test]
fn wrapped_pieces_give_back_the_line() {
    let line = "the quick brown fox jumps over the lazy dog";
    for w in 1..12 {
        let pieces = wrap_line(line, w);
        assert_eq!(pieces.concat(), line);
        for (k, piece) in pieces.iter().enumerate() {
            assert!(piece.chars().count() <= w);
            if k + 1 < pieces.len() {
                assert_eq!(piece.chars().count(), w);
            }
        }
    }
}

#[test]
fn closing_marker_is_found_after_start() {
    let chars: Vec<char> = "a**b**c".chars().collect();
    assert_eq!(find_closing_marker(&chars, 3, "**"), Some(4));
    assert_eq!(find_closing_marker(&chars, 5, "**"), None);
}

#[test]
fn inline_formatting_styles_each_piece() {
    let r = parse_inline_formatting("a **b** `c` @d e");
    assert_eq!(
        pairs(&r),
        vec![
            p("a ", SpanStyle::Plain),
            p("b", SpanStyle::Bold),
            p(" ", SpanStyle::Plain),
            p("c", SpanStyle::Code),
            p(" ", SpanStyle::Plain),
            p("@d", SpanStyle::Reference),
            p(" e", SpanStyle::Plain),
        ]
    );
}

#[test]
fn unclosed_markers_stay_as_text() {
    let r = parse_inline_formatting("2 * 3");
    assert_eq!(
        pairs(&r),
        vec![p("2 ", SpanStyle::Plain), p("*", SpanStyle::Plain), p(" 3", SpanStyle::Plain)]
    );
    let r = parse_inline_formatting("*it*");
    assert_eq!(pairs(&r), vec![p("it", SpanStyle::Italic)]);
}

#[test]
fn an_empty_line_is_one_plain_span() {
    assert_eq!(pairs(&parse_inline_formatting("")), vec![p("", SpanStyle::Plain)]);
}

#[test]
fn unclosed_code_runs_to_the_end() {
    assert_eq!(
        pairs(&parse_inline_formatting("x `y z")),
        vec![p("x ", SpanStyle::Plain), p("y z", SpanStyle::Code)]
    );
}

#[test]
fn message_lines_get_headers_and_lists() {
    assert_eq!(pairs(&highlight_message_line("## Title")), vec![p("Title", SpanStyle::Header2)]);
    assert_eq!(pairs(&highlight_message_line("  # Big")), vec![p("Big", SpanStyle::Header1)]);
    assert_eq!(pairs(&highlight_message_line("### small")), vec![p("small", SpanStyle::Header3)]);
    assert_eq!(
        pairs(&highlight_message_line("- item")),
        vec![p("• ", SpanStyle::Bullet), p("item", SpanStyle::Plain)]
    );
    assert_eq!(
        pairs(&highlight_message_line("12. twelfth")),
        vec![p("12. ", SpanStyle::ListNumber), p("twelfth", SpanStyle::Plain)]
    );
}

#[test]
fn a_number_without_dot_space_is_plain_text() {
    assert_eq!(pairs(&highlight_message_line("42 is it")), vec![p("42 is it", SpanStyle::Plain)]);
}

#[test]
fn chat_lines_lay_out_messages_and_the_pending_answer() {
    let mut app = App::new();
    app.messages.push(Message::user("hello world".to_string()));
    app.messages.push(Message::assistant("line one\nline two".to_string()));
    app.is_loading = true;
    app.thinking_dots = 6;
    let lines = chat_lines(&app, 6);
    assert_eq!(
        lines,
        vec![
            "You:", "hello ", "world", "", "AI:", "line o", "ne", "line t", "wo", "", "Thinking..",
        ]
    );
}

#[test]
fn streamed_answer_is_shown_under_an_ai_line() {
    let mut app = App::new();
    app.streaming_message = Some("partial".to_string());
    assert_eq!(chat_lines(&app, 80), vec!["AI:", "partial"]);
    app.streaming_message = Some(String::new());
    app.thinking_dots = 3;
    assert_eq!(chat_lines(&app, 80), vec!["Thinking..."]);
}

#[test]
fn thinking_dots_cycle_through_four_states() {
    assert_eq!(thinking_text(0), "Thinking");
    assert_eq!(thinking_text(1), "Thinking.");
    assert_eq!(thinking_text(4), "Thinking");
    assert_eq!(thinking_text(7), "Thinking...");
}

#[test]
fn author_lines_become_labels() {
    assert_eq!(pairs(&style_chat_line("You:")), vec![p(" You: ", SpanStyle::UserLabel)]);
    assert_eq!(pairs(&style_chat_line("AI:")), vec![p(" AI: ", SpanStyle::AssistantLabel)]);
    assert_eq!(pairs(&style_chat_line("Thinking.")), vec![p("Thinking.", SpanStyle::Thinking)]);
}

#[test]
fn chat_view_follows_the_bottom() {
    let mut app = App::new();
    for k in 0..5 {
        app.messages.push(Message::user(format!("m{}", k)));
    }
    app.follow_bottom = true;
    let shown = app.chat_view(4, 20);
    // 5 messages of 3 lines each
    assert_eq!(app.max_scroll, 11);
    assert_eq!(shown.len(), 4);
    assert_eq!(pairs(&shown[2]), vec![p("m4", SpanStyle::Plain)]);
    assert_eq!(pairs(&shown[3]), vec![p("", SpanStyle::Plain)]);
}

#[test]
fn chat_view_keeps_the_scroll_position_within_range() {
    let mut app = App::new();
    app.messages.push(Message::system("a\nb\nc".to_string()));
    app.follow_bottom = false;
    app.chat_scroll = 100;
    let shown = app.chat_view(2, 20);
    assert_eq!(app.max_scroll, 3);
    assert_eq!(shown.len(), 2);
    assert_eq!(pairs(&shown[0]), vec![p("c", SpanStyle::Plain)]);
    app.chat_scroll = 0;
    let shown = app.chat_view(10, 20);
    assert_eq!(app.max_scroll, 0);
    assert_eq!(shown.len(), 5);
    assert_eq!(pairs(&shown[0]), vec![p(" System: ", SpanStyle::SystemLabel)]);
}

#[test]
fn input_line_marks_references_and_the_cursor() {
    let r = input_spans("hi @a b", 7, &None);
    assert_eq!(
        pairs(&r),
        vec![
            p("h", SpanStyle::Plain),
            p("i", SpanStyle::Plain),
            p(" ", SpanStyle::Plain),
            p("@a", SpanStyle::Reference),
            p(" ", SpanStyle::Plain),
            p("b", SpanStyle::Plain),
            p(" ", SpanStyle::Cursor),
        ]
    );
}

#[test]
fn input_line_shows_the_selection() {
    let sel = Some(MouseSelection { start_row: 1, start_col: 2, end_row: 1, end_col: 0 });
    let r = input_spans("abc", 2, &sel);
    assert_eq!(
        pairs(&r),
        vec![p("a", SpanStyle::Selected), p("b", SpanStyle::Selected), p("c", SpanStyle::Cursor)]
    );
}

#[test]
fn numbered_items_follow_the_numeric_test() {
    assert_eq!(
        pairs(&style_message_line("1. one", true)),
        vec![p("1. ", SpanStyle::ListNumber), p("one", SpanStyle::Plain)]
    );
    assert_eq!(pairs(&style_message_line("1. one", false)), vec![p("1. one", SpanStyle::Plain)]);
    // a digit of another script is numeric too
    assert_eq!(
        pairs(&highlight_message_line("٣. item")),
        vec![p("٣. ", SpanStyle::ListNumber), p("item", SpanStyle::Plain)]
    );
    assert_eq!(pairs(&highlight_message_line("x. item")), vec![p("x. item", SpanStyle::Plain)]);
}

#[test]
fn languages_come_from_the_lower_cased_suffix() {
    assert_eq!(detect_language_from_path("SRC/MAIN.RS"), "rust");
    assert_eq!(detect_language_from_path("notes.Md"), "markdown");
    assert_eq!(detect_language_from_path("Makefile"), "txt");
    assert_eq!(language_of_lowercased("a.tsx"), "tsx");
    assert_eq!(language_of_lowercased("A.RS"), "txt");
}

#[test]
fn code_blocks_are_found_with_their_language() {
    let text = "intro\n```rust\nfn main() {}\n```\nafter\n```\nplain\n```\n";
    let blocks = extract_code_blocks(text);
    let got: Vec<(String, String)> = blocks.iter().map(|b| (b.language.clone(), b.content.clone())).collect();
    assert_eq!(
        got,
        vec![("rust".to_string(), "fn main() {}".to_string()), ("txt".to_string(), "plain".to_string())]
    );
}

#[test]
fn cut_characters_are_replaced_in_log_chunks() {
    let logs = vec!["é".to_string()];
    let r = log_lines(&logs, 5, 7);
    let got: Vec<Vec<(String, SpanStyle)>> = r.iter().map(|l| pairs(l)).collect();
    assert_eq!(
        got,
        vec![
            vec![p("- ", SpanStyle::Faint), p("\u{FFFD}", SpanStyle::Muted)],
            vec![p("  ", SpanStyle::Faint), p("\u{FFFD}", SpanStyle::Muted)],
        ]
    );
}

fn layout(text: &str) -> Option<Vec<String>> {
    text_block_layout(text).map(|v| {
        v.into_iter()
            .map(|p| match p {
                TextPiece::Line(l) => format!("line:{}", l),
                TextPiece::Fence => "fence".to_string(),
                TextPiece::Code(k) => format!("code:{}", k),
            })
            .collect()
    })
}

#[test]
fn text_is_laid_out_around_its_code_blocks() {
    assert_eq!(
        layout("intro\n```rust\nfn main() {}\n```\nafter\n"),
        Some(vec![
            "line:intro".to_string(),
            "fence".to_string(),
            "code:0".to_string(),
            "fence".to_string(),
            "line:".to_string(),
            "line:after".to_string(),
        ])
    );
    assert_eq!(layout("a\nb"), Some(vec!["line:a".to_string(), "line:b".to_string()]));
}

#[test]
fn a_walk_that_lands_inside_a_character_cannot_lay_out() {
    assert_eq!(layout("```\u{a0}é\nx\n ```\n"), None);
}

#[test]
fn input_line_keeps_the_characters_in_order() {
    for (text, cursor) in [("hello @src/main.rs now", 3), ("@a @b", 5), ("x  y", 0), ("", 0)] {
        let spans = input_spans(text, cursor, &None);
        let joined: String = spans.iter().map(|s| s.text.as_str()).collect();
        let expected = if cursor == text.len() { format!("{} ", text) } else { text.to_string() };
        assert_eq!(joined, expected);
    }
}

#[test]
fn a_selection_ending_a_reference_shows_it_last() {
    let sel = Some(MouseSelection { start_row: 0, start_col: 2, end_row: 0, end_col: 3 });
    assert_eq!(
        pairs(&input_spans("@ab c", 10, &sel)),
        vec![
            p("b", SpanStyle::Selected),
            p(" ", SpanStyle::Plain),
            p("c", SpanStyle::Plain),
            p("@a", SpanStyle::Reference),
        ]
    );
}

#[test]
fn chat_border_shows_the_activity() {
    let mut app = App::new();
    assert_eq!(chat_activity(&app), ChatActivity::Idle);
    app.is_loading = true;
    assert_eq!(chat_activity(&app), ChatActivity::Loading);
    app.streaming_message = Some(String::new());
    assert_eq!(chat_activity(&app), ChatActivity::Streaming);
}

fn joined(lines: &[Vec<CodeSpan>]) -> String {
    lines.iter().flat_map(|l| l.iter().map(|s| s.text.clone())).collect()
}

#[test]
fn highlighting_keeps_the_code_line_by_line() {
    let h = Highlighter::new();
    let code = "fn main() {\n    let x = 1;\n}\n";
    let lines = highlight_code(&h, code, "rs", "base16-ocean.dark");
    assert_eq!(lines.len(), 3);
    assert_eq!(joined(&lines), code);
    let colors: std::collections::HashSet<SpanColor> =
        lines.iter().flat_map(|l| l.iter().map(|s| s.color)).collect();
    assert!(colors.len() > 1);
    assert!(colors.iter().all(|c| matches!(c, SpanColor::Rgb(..) | SpanColor::Reset)));
}

#[test]
fn highlighting_falls_back_on_unknown_theme_and_extension() {
    let h = Highlighter::new();
    let code = "let a = 2;\n";
    assert_eq!(
        highlight_code(&h, code, "rs", "no such theme"),
        highlight_code(&h, code, "rs", "base16-eighties.dark")
    );
    assert_eq!(
        highlight_code(&h, code, "no-such-ext", "base16-ocean.dark"),
        highlight_code(&h, code, "txt", "base16-ocean.dark")
    );
}

#[test]
fn highlighting_empty_code_gives_one_empty_line() {
    let h = Highlighter::new();
    assert_eq!(
        try_highlight_code_lines(&h, "", "rs", "base16-ocean.dark"),
        Some(vec![vec![CodeSpan { text: String::new(), color: SpanColor::Plain }]])
    );
    assert!(highlight_code(&h, "", "rs", "base16-ocean.dark").is_empty());
}
