use rust_rag_cli::scrapper::{chunk_text, is_ignored_entry, has_listed_extension, ScrapperConfig};

#[test]
fn chunks_overlap_by_the_given_lines() {
    let r = chunk_text("a\nb\nc\nd\ne", 2, 1);
    assert_eq!(r, vec!["a\nb", "b\nc", "c\nd", "d\ne"]);
}

#[test]
fn empty_text_has_no_chunks() {
    assert!(chunk_text("", 3, 1).is_empty());
}

#[test]
fn short_text_is_one_chunk() {
    assert_eq!(chunk_text("one\ntwo", 50, 10), vec!["one\ntwo"]);
}

#[test]
fn chunks_without_overlap_partition_the_lines() {
    let r = chunk_text("1\n2\n3\n4\n5", 2, 0);
    assert_eq!(r, vec!["1\n2", "3\n4", "5"]);
}

#[test]
fn crlf_lines_lose_their_carriage_return() {
    assert_eq!(chunk_text("a\r\nb\r\n", 5, 0), vec!["a\nb"]);
}

#[test]
fn default_config_skips_build_and_vendor_directories() {
    let c = ScrapperConfig::default();
    assert!(is_ignored_entry(&c, Some("target"), true));
    assert!(is_ignored_entry(&c, Some("node_modules"), true));
    assert!(is_ignored_entry(&c, Some(".git"), true));
    assert!(!is_ignored_entry(&c, Some("src"), true));
    assert!(!is_ignored_entry(&c, Some("main.rs"), false));
}

#[test]
fn only_directory_names_are_skipped() {
    let c = ScrapperConfig::default();
    assert!(!is_ignored_entry(&c, Some("models.rs"), false));
    assert!(!is_ignored_entry(&c, Some("distance.md"), false));
    assert!(!is_ignored_entry(&c, Some("dist"), false));
    assert!(!is_ignored_entry(&c, Some("models_dir"), true));
    assert!(is_ignored_entry(&c, Some("models"), true));
    assert!(!is_ignored_entry(&c, None, true));
}

#[test]
fn default_config_takes_listed_extensions() {
    let c = ScrapperConfig::default();
    assert!(has_listed_extension(&c, "src/main.rs", Some("rs")));
    assert!(has_listed_extension(&c, "Cargo.toml", Some("toml")));
    assert!(!has_listed_extension(&c, "image.png", Some("png")));
}
