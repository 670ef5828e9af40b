use rust_rag_cli::app::state::{App, FileReference, IndexingProgress};
use rust_rag_cli::db::store::CodeChunk;
use rust_rag_cli::ui::logs::log_lines;
use rust_rag_cli::ui::panels::{context_lines, status_spans, suggestion_rows, suggestions_height};
use rust_rag_cli::ui::style::{LogLevel, SpanStyle, StyledSpan};

fn pairs(v: &[StyledSpan]) -> Vec<(String, SpanStyle)> {
    v.iter().map(|s| (s.text.clone(), s.style)).collect()
}

fn p(t: &str, s: SpanStyle) -> (String, SpanStyle) {
    (t.to_string(), s)
}

#[test]
fn log_line_with_a_level_is_tagged_and_wrapped() {
    let logs = vec!["2024-01-01 INFO hello world".to_string()];
    let r = log_lines(&logs, 5, 20);
    assert_eq!(r.len(), 2);
    assert_eq!(
        pairs(&r[0]),
        vec![
            p("- ", SpanStyle::Faint),
            p("[INFO] ", SpanStyle::Level(LogLevel::Info)),
            p("hello", SpanStyle::Muted),
        ]
    );
    assert_eq!(pairs(&r[1]), vec![p("  ", SpanStyle::Faint), p(" world", SpanStyle::Muted)]);
}

#[test]
fn error_is_recognised_before_other_levels() {
    let logs = vec!["x INFO y ERROR boom".to_string()];
    let r = log_lines(&logs, 5, 60);
    assert_eq!(
        pairs(&r[0]),
        vec![
            p("- ", SpanStyle::Faint),
            p("[ERROR] ", SpanStyle::Level(LogLevel::Error)),
            p("boom", SpanStyle::Muted),
        ]
    );
}

#[test]
fn log_line_without_level_is_cut_in_byte_chunks() {
    let logs = vec!["plain log line here".to_string()];
    let r = log_lines(&logs, 5, 10);
    let got: Vec<Vec<(String, SpanStyle)>> = r.iter().map(|l| pairs(l)).collect();
    assert_eq!(
        got,
        vec![
            vec![p("- ", SpanStyle::Faint), p("plai", SpanStyle::Muted)],
            vec![p("  ", SpanStyle::Faint), p("n lo", SpanStyle::Muted)],
            vec![p("  ", SpanStyle::Faint), p("g li", SpanStyle::Muted)],
            vec![p("  ", SpanStyle::Faint), p("ne h", SpanStyle::Muted)],
            vec![p("  ", SpanStyle::Faint), p("ere", SpanStyle::Muted)],
        ]
    );
}

#[test]
fn only_the_last_logs_that_fit_are_shown() {
    let logs: Vec<String> = (0..10).map(|k| format!("line{}", k)).collect();
    let r = log_lines(&logs, 4, 40);
    assert_eq!(r.len(), 2);
    assert_eq!(pairs(&r[0])[1].0, "line8");
    assert_eq!(pairs(&r[1])[1].0, "line9");
}

#[test]
fn no_logs_reads_ready() {
    let r = log_lines(&Vec::new(), 10, 40);
    assert_eq!(r.len(), 1);
    assert_eq!(pairs(&r[0]), vec![p("- Ready", SpanStyle::Muted)]);
}

#[test]
fn context_panel_lists_references_then_chunks() {
    let mut app = App::new();
    app.file_references.push(FileReference { path: "src/main.rs".to_string(), content: None });
    app.context_chunks.push(CodeChunk {
        file_path: "a.rs".to_string(),
        content: "l1\nl2\nl3\nl4".to_string(),
    });
    let (title, lines) = context_lines(&app, 14);
    assert_eq!(title, " Files & Context ");
    let got: Vec<Vec<(String, SpanStyle)>> = lines.iter().map(|l| pairs(l)).collect();
    assert_eq!(
        got,
        vec![
            vec![p(" Referenced:", SpanStyle::Heading)],
            vec![p("  [1] src/ma", SpanStyle::FilePath)],
            vec![p("", SpanStyle::Plain)],
            vec![p("[1] a.rs", SpanStyle::ChunkTitle)],
            vec![p("  l1", SpanStyle::Muted)],
            vec![p("  l2", SpanStyle::Muted)],
            vec![p("  l3", SpanStyle::Muted)],
            vec![p("", SpanStyle::Plain)],
        ]
    );
}

#[test]
fn empty_context_panel_shows_a_hint() {
    let app = App::new();
    let (title, lines) = context_lines(&app, 40);
    assert_eq!(title, " RAG Context ");
    assert_eq!(lines.len(), 1);
    assert_eq!(pairs(&lines[0]), vec![p(" Use @files or /index <path>", SpanStyle::Faint)]);
}

#[test]
fn suggestion_box_scrolls_to_the_chosen_row() {
    let mut app = App::new();
    app.suggestions = ["a", "b", "c", "d", "e"].iter().map(|s| s.to_string()).collect();
    app.suggestion_index = 4;
    let (title, rows) = suggestion_rows(&app, 5).unwrap();
    assert_eq!(title, " Files ");
    let got: Vec<Vec<(String, SpanStyle)>> = rows.iter().map(|l| pairs(l)).collect();
    assert_eq!(
        got,
        vec![
            vec![p("  ", SpanStyle::Plain), p("c", SpanStyle::Muted)],
            vec![p("  ", SpanStyle::Plain), p("d", SpanStyle::Muted)],
            vec![p("▶ ", SpanStyle::Pointer), p("e", SpanStyle::Chosen)],
        ]
    );
}

#[test]
fn suggestion_box_is_absent_without_suggestions() {
    let mut app = App::new();
    assert!(suggestion_rows(&app, 5).is_none());
    app.input = " /sw".to_string();
    app.suggestions = vec!["/switch".to_string()];
    let (title, _) = suggestion_rows(&app, 5).unwrap();
    assert_eq!(title, " Commands ");
}

#[test]
fn suggestion_box_height_is_capped() {
    let mut app = App::new();
    assert_eq!(suggestions_height(&app), 0);
    app.show_suggestions = true;
    app.suggestions = (0..3).map(|k| k.to_string()).collect();
    assert_eq!(suggestions_height(&app), 5);
    app.suggestions = (0..30).map(|k| k.to_string()).collect();
    assert_eq!(suggestions_height(&app), 9);
}

#[test]
fn status_bar_shows_progress_hint_or_status() {
    let mut app = App::new();
    app.status = "Ready".to_string();
    assert_eq!(
        pairs(&status_spans(&app, 0)),
        vec![p(" INS ", SpanStyle::Mode), p(" Ready ", SpanStyle::Status), p(" llama3 ", SpanStyle::Model)]
    );
    app.command_hint = "/help - show help".to_string();
    assert_eq!(pairs(&status_spans(&app, 0))[1], p(" /help - show help ", SpanStyle::Hint));
    app.indexing_progress = Some(IndexingProgress {
        files_done: 1,
        files_total: 4,
        chunks_done: 7,
        current_file: "a.rs".to_string(),
    });
    assert_eq!(pairs(&status_spans(&app, 25))[1], p(" [25%] a.rs ", SpanStyle::Progress));
}
