use rust_rag_cli::app::references::{folder_text, reference_targets, reference_words, PathKind, ResolvedRef};
use rust_rag_cli::app::state::{App, FileReference};
use rust_rag_cli::db::metadata::{FileMetadata, FileStat, MetadataStore};
use rust_rag_cli::dev::benchmark::{collect_benchmark_output, Benchmark, BenchmarkResult, FormattedAverages};
use rust_rag_cli::dev::debug::LogBuffer;
use rust_rag_cli::sort::sort_strings;

fn meta(path: &str, mtime: u64, size: u64) -> FileMetadata {
    FileMetadata::from_observed(path, "fn main() {}", Some(FileStat { mtime, size }), 100)
}

#[test]
fn store_gives_back_what_was_recorded() {
    let mut s = MetadataStore::new();
    assert_eq!(s.version, 1);
    assert!(s.get("a.rs").is_none());
    s.update(meta("a.rs", 10, 5));
    s.update(meta("b.rs", 20, 6));
    s.update(meta("a.rs", 30, 7));
    assert_eq!(s.files.len(), 2);
    let a = s.get("a.rs").unwrap();
    assert_eq!((a.mtime, a.size, a.indexed_at), (30, 7, 100));
    s.remove("a.rs");
    assert!(s.get("a.rs").is_none());
    assert!(s.get("b.rs").is_some());
}

#[test]
fn unchanged_files_need_no_reindex() {
    let mut s = MetadataStore::new();
    s.update(meta("a.rs", 10, 5));
    assert!(!s.needs_reindex("a.rs", Some(FileStat { mtime: 10, size: 5 })));
    assert!(!s.needs_reindex("a.rs", Some(FileStat { mtime: 9, size: 5 })));
    assert!(s.needs_reindex("a.rs", Some(FileStat { mtime: 11, size: 5 })));
    assert!(s.needs_reindex("a.rs", Some(FileStat { mtime: 10, size: 6 })));
    assert!(s.needs_reindex("a.rs", None));
    assert!(s.needs_reindex("new.rs", Some(FileStat { mtime: 1, size: 1 })));
}

#[test]
fn same_text_gives_the_same_hash() {
    let a = FileMetadata::from_observed("x", "same text", None, 0);
    let b = FileMetadata::from_observed("y", "same text", None, 0);
    let c = FileMetadata::from_observed("y", "other text", None, 0);
    assert_eq!(a.hash, b.hash);
    assert_ne!(a.hash, c.hash);
    assert_eq!((a.mtime, a.size), (0, 0));
}

#[test]
fn cleanup_keeps_only_existing_paths() {
    let mut s = MetadataStore::new();
    s.update(meta("a.rs", 1, 1));
    s.update(meta("b.rs", 1, 1));
    s.update(meta("c.rs", 1, 1));
    s.cleanup_removed(&["c.rs".to_string(), "a.rs".to_string(), "zzz.rs".to_string()]);
    assert!(s.get("a.rs").is_some());
    assert!(s.get("b.rs").is_none());
    assert!(s.get("c.rs").is_some());
    assert_eq!(s.files.len(), 2);
}

fn result(id: usize, e: u64, r: u64, l: u64, t: u64) -> BenchmarkResult {
    BenchmarkResult {
        query_id: id,
        query_text: format!("q{}", id),
        embedding_time_ms: e,
        retrieval_time_ms: r,
        llm_time_ms: l,
        total_time_ms: t,
        chunks_retrieved: 3,
        model_name: "llama3".to_string(),
        timestamp: 0,
    }
}

#[test]
fn benchmark_report_lists_totals_and_extremes() {
    let mut b = Benchmark::new();
    b.add_result(result(1, 10, 2, 100, 120));
    b.add_result(result(2, 20, 4, 300, 330));
    let min = b.min_times().unwrap();
    let max = b.max_times().unwrap();
    assert_eq!((min.embedding_time_ms, min.total_time_ms), (10, 120));
    assert_eq!((max.llm_time_ms, max.total_time_ms), (300, 330));
    let avg = FormattedAverages {
        embedding: "15.00".to_string(),
        retrieval: "3.00".to_string(),
        llm: "200.00".to_string(),
        total: "225.00".to_string(),
    };
    let out = collect_benchmark_output(&b, &avg);
    let expected = "=== Benchmark Report ===\nTotal queries: 2\nTotal time: 450ms\n\n\
=== Average Times (ms) ===\nEmbedding:    15.00\nRetrieval:    3.00\nLLM:          200.00\nTotal:        225.00\n\n\
=== Min Times (ms) ===\nEmbedding:    10\nRetrieval:    2\nLLM:          100\nTotal:        330\n\n\
=== Max Times (ms) ===\nEmbedding:    20\nRetrieval:    4\nLLM:          300\nTotal:        330\n";
    assert_eq!(out, expected);
}

#[test]
fn empty_benchmark_reports_zeros() {
    let b = Benchmark::new();
    assert!(b.min_times().is_none());
    let avg = FormattedAverages {
        embedding: "0.00".to_string(),
        retrieval: "0.00".to_string(),
        llm: "0.00".to_string(),
        total: "0.00".to_string(),
    };
    let out = collect_benchmark_output(&b, &avg);
    assert!(out.contains("Total queries: 0\nTotal time: 0ms\n"));
    assert!(out.ends_with("=== Max Times (ms) ===\nEmbedding:    0\nRetrieval:    0\nLLM:          0\nTotal:        0\n"));
}

#[test]
fn log_buffer_keeps_the_last_hundred_trimmed_lines() {
    let mut b = LogBuffer::new();
    assert_eq!(b.write(b"  first line \n"), 14);
    assert_eq!(b.write(b"   "), 3);
    assert_eq!(b.write(&[0xff, 0xfe]), 2);
    assert_eq!(b.lines(), vec!["first line"]);
    for k in 0..150 {
        b.write(format!("line {}", k).as_bytes());
    }
    let lines = b.lines();
    assert_eq!(lines.len(), 100);
    assert_eq!(lines[0], "line 50");
    assert_eq!(lines[99], "line 149");
}

#[test]
fn references_are_the_at_words() {
    let r = reference_words("explain @src/main.rs and @@lib/ but not x@y");
    assert_eq!(r, vec!["src/main.rs", "lib/"]);
    assert!(reference_words("no refs here").is_empty());
}

#[test]
fn folder_text_joins_and_truncates() {
    let parts = vec!["one".to_string(), "two".to_string()];
    assert_eq!(folder_text(&parts), "one\n\n--- ---\n\ntwo");
    assert_eq!(folder_text(&Vec::new()), "");
    let big = vec!["x".repeat(50_001)];
    let t = folder_text(&big);
    assert_eq!(t, format!("{}\n\n... (truncated, folder too large)", "x".repeat(50_000)));
    let exact = vec!["y".repeat(50_000)];
    assert_eq!(folder_text(&exact), "y".repeat(50_000));
}

#[test]
fn resolved_references_keep_existing_paths() {
    let mut app = App::new();
    app.keep_references(vec![
        ResolvedRef { path: "/p/a.rs".to_string(), kind: PathKind::File(Some("A".to_string())) },
        ResolvedRef { path: "/p/missing".to_string(), kind: PathKind::Missing },
        ResolvedRef { path: "/p/dir".to_string(), kind: PathKind::Dir(vec!["1".to_string(), "2".to_string()]) },
        ResolvedRef { path: "/p/fifo".to_string(), kind: PathKind::Other },
    ]);
    let got: Vec<(String, Option<String>)> =
        app.file_references.iter().map(|f| (f.path.clone(), f.content.clone())).collect();
    assert_eq!(
        got,
        vec![
            ("/p/a.rs".to_string(), Some("A".to_string())),
            ("/p/dir".to_string(), Some("1\n\n--- ---\n\n2".to_string())),
            ("/p/fifo".to_string(), None),
        ]
    );
}

#[test]
fn strings_sort_by_characters() {
    let v: Vec<Vec<char>> = ["b", "a", "ab", "B", ""].iter().map(|s| s.chars().collect()).collect();
    assert_eq!(sort_strings(&v), vec!["", "B", "a", "ab", "b"]);
}

#[test]
fn a_new_benchmark_records_the_current_time() {
    let b = Benchmark::new();
    assert!(b.start_time > 1_600_000_000);
    assert_eq!(b.end_time, 0);
    let mut b = b;
    b.finalize();
    assert!(b.end_time >= b.start_time);
}

#[test]
fn references_are_the_at_words_under_the_base_path() {
    let targets = reference_targets("explain @src/a.rs and @@docs then x@y", "/p");
    assert_eq!(targets, vec!["/p/src/a.rs".to_string(), "/p/docs".to_string()]);
}

#[test]
fn references_follow_the_words_of_the_question() {
    let mut app = App::new();
    app.file_references.push(FileReference { path: "/old".to_string(), content: None });
    app.parse_references(
        "compare @b.rs with @gone and @dir",
        "/p",
        vec![
            PathKind::File(Some("B".to_string())),
            PathKind::Missing,
            PathKind::Dir(vec!["1".to_string()]),
        ],
    );
    let got: Vec<(String, Option<String>)> =
        app.file_references.iter().map(|f| (f.path.clone(), f.content.clone())).collect();
    assert_eq!(
        got,
        vec![("/p/b.rs".to_string(), Some("B".to_string())), ("/p/dir".to_string(), Some("1".to_string()))]
    );
}
