use rust_rag_cli::app::state::FileReference;
use rust_rag_cli::client::types::{ChatResponse, ChatStreamResponse};
use rust_rag_cli::clients::ollama::{answer_of, apply_stream_replies, chat_request, embed_request, endpoint, model_names, stream_lines, ModelInfo};
use rust_rag_cli::config::settings::{default_chunk_overlap, default_chunk_size, default_extensions, default_ignore_dirs, default_top_k};
use rust_rag_cli::db::store::CodeChunk;
use rust_rag_cli::service::indexing::{index_steps, IndexStep};
use rust_rag_cli::service::{ChatService, Config};
use rust_rag_cli::watcher::{changed_event, WatchEvent};

fn reply(text: &str, done: bool, error: Option<&str>) -> Option<ChatStreamResponse> {
    Some(ChatStreamResponse { response: text.to_string(), done, error: error.map(|e| e.to_string()) })
}

#[test]
fn service_starts_with_the_default_models() {
    let mut s = ChatService::new(Config::default());
    assert_eq!(s.get_chat_model(), "llama3");
    assert_eq!(s.settings().embed_model, "nomic-embed-text");
    s.set_chat_model("mistral".to_string());
    s.set_embed_model("mxbai".to_string());
    assert_eq!(s.get_chat_model(), "mistral");
    assert_eq!(s.settings().embed_model, "mxbai");
    assert_eq!(s.settings().base_url, "http://localhost:11434");
}

#[test]
fn prompt_holds_references_context_and_question() {
    let s = ChatService::new(Config::default());
    let refs = vec![FileReference { path: "a.rs".to_string(), content: Some("fn a() {}".to_string()) }];
    let chunks = vec![CodeChunk { file_path: "b.rs".to_string(), content: "fn b() {}".to_string() }];
    let p = s.build_prompt_with_refs("what is a?", &refs, &chunks);
    assert!(p.contains("a.rs"));
    assert!(p.contains("fn a() {}"));
    assert!(p.contains("b.rs"));
    assert!(p.contains("fn b() {}"));
    assert!(p.contains("what is a?"));
    let bare = s.build_prompt_with_refs("hi", &[], &[]);
    assert!(bare.contains("hi"));
    assert!(!bare.contains("a.rs"));
}

#[test]
fn requests_carry_model_and_text() {
    let e = embed_request("nomic-embed-text", "code");
    assert_eq!((e.model.as_str(), e.prompt.as_str()), ("nomic-embed-text", "code"));
    let c = chat_request("llama3", "q", true);
    assert_eq!((c.model.as_str(), c.prompt.as_str(), c.stream), ("llama3", "q", true));
    assert_eq!(endpoint("http://localhost:11434", "/api/tags"), "http://localhost:11434/api/tags");
}

#[test]
fn whole_replies_are_answers_unless_they_report_an_error() {
    let ok = answer_of(ChatResponse { response: "yes".to_string(), error: None });
    assert_eq!(ok, Ok("yes".to_string()));
    let bad = answer_of(ChatResponse { response: String::new(), error: Some("no model".to_string()) });
    assert_eq!(bad, Err("no model".to_string()));
}

#[test]
fn stream_bytes_split_into_non_blank_lines() {
    let r = stream_lines(b"{\"a\":1}\n\n  \n{\"b\":2}\r\n");
    assert_eq!(r, vec!["{\"a\":1}", "{\"b\":2}"]);
    assert!(stream_lines(&[0xff, 0x00]).is_empty());
}

#[test]
fn stream_replies_accumulate_until_done() {
    let mut full = String::new();
    let out = apply_stream_replies(
        &mut full,
        vec![reply("Hel", false, None), None, reply("", false, None), reply("lo", true, None), reply("ignored", false, None)],
    );
    assert_eq!(out.emitted, vec!["Hel", "lo"]);
    assert!(out.error.is_none());
    assert_eq!(full, "Hello");
}

#[test]
fn stream_error_stops_the_answer() {
    let mut full = String::from("x");
    let out = apply_stream_replies(&mut full, vec![reply("a", false, None), reply("", false, Some("oops"))]);
    assert_eq!(out.emitted, vec!["a"]);
    assert_eq!(out.error, Some("oops".to_string()));
    assert_eq!(full, "xa");
}

#[test]
fn model_names_drop_their_tags() {
    let models = vec![
        ModelInfo { name: "llama3:latest".to_string(), size: 1 },
        ModelInfo { name: "mistral".to_string(), size: 2 },
    ];
    assert_eq!(model_names(&models), vec!["llama3", "mistral"]);
}

#[test]
fn configuration_defaults() {
    assert_eq!(default_top_k(), 5);
    assert_eq!(default_chunk_size(), 50);
    assert_eq!(default_chunk_overlap(), 10);
    assert!(default_extensions().contains(&".rs".to_string()));
    assert!(default_ignore_dirs().contains(&"target".to_string()));
}

#[test]
fn watcher_reports_only_non_empty_batches() {
    assert!(changed_event(Vec::new()).is_none());
    match changed_event(vec!["a.rs".to_string()]) {
        Some(WatchEvent::FilesChanged(v)) => assert_eq!(v, vec!["a.rs"]),
        other => panic!("unexpected {:?}", other),
    }
}

#[test]
fn indexing_reports_progress_around_each_file() {
    let files = vec![
        ("a.rs".to_string(), "x\ny".to_string()),
        ("b.rs".to_string(), String::new()),
    ];
    let steps = index_steps(&files);
    assert_eq!(
        steps,
        vec![
            IndexStep::Progress { done: 0, total: 2, chunks: 0, file: "a.rs".to_string() },
            IndexStep::Embed { file: "a.rs".to_string(), chunk: "x\ny".to_string() },
            IndexStep::Progress { done: 1, total: 2, chunks: 1, file: "b.rs".to_string() },
            IndexStep::Progress { done: 2, total: 2, chunks: 1, file: "done".to_string() },
        ]
    );
}

#[test]
fn indexing_cuts_fifty_line_chunks_sharing_ten_lines() {
    let text: Vec<String> = (0..60).map(|i| format!("l{}", i)).collect();
    let files = vec![("big.md".to_string(), text.join("\n"))];
    let steps = index_steps(&files);
    assert_eq!(steps.len(), 4);
    assert_eq!(
        steps[1],
        IndexStep::Embed { file: "big.md".to_string(), chunk: text[0..50].join("\n") }
    );
    assert_eq!(
        steps[2],
        IndexStep::Embed { file: "big.md".to_string(), chunk: text[40..60].join("\n") }
    );
    assert_eq!(
        steps[3],
        IndexStep::Progress { done: 1, total: 1, chunks: 2, file: "done".to_string() }
    );
}

#[test]
fn indexing_nothing_reports_done() {
    let steps = index_steps(&Vec::new());
    assert_eq!(
        steps,
        vec![IndexStep::Progress { done: 0, total: 0, chunks: 0, file: "done".to_string() }]
    );
}

#[test]
fn final_progress_counts_every_embedded_chunk() {
    let files = vec![
        ("a".to_string(), (0..75).map(|i| i.to_string()).collect::<Vec<_>>().join("\n")),
        ("b".to_string(), "one".to_string()),
        ("c".to_string(), String::new()),
    ];
    let steps = index_steps(&files);
    let embeds = steps.iter().filter(|s| matches!(s, IndexStep::Embed { .. })).count();
    assert_eq!(embeds, 3);
    assert_eq!(
        steps.last(),
        Some(&IndexStep::Progress { done: 3, total: 3, chunks: embeds, file: "done".to_string() })
    );
}
