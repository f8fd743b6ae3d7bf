use docgen::pipeline::{
    classify, is_source_path, minify_document, minify_toc, output_name, split_address, visit_order, FileKind,
};
use std::cmp::Ordering;

#[test]
fn classify_by_extension() {
    assert_eq!(classify("json"), FileKind::Toc);
    assert_eq!(classify("png"), FileKind::Image);
    assert_eq!(classify("jpg"), FileKind::Image);
    assert_eq!(classify("md"), FileKind::Markdown);
}

#[test]
fn output_names() {
    assert_eq!(output_name("intro", "md", FileKind::Markdown), "intro.html");
    assert_eq!(output_name("toc", "json", FileKind::Toc), "toc.json");
    assert_eq!(output_name("Logo", "PNG", FileKind::Image), "Logo.png");
}

#[test]
fn split_address_takes_first_two_components() {
    assert_eq!(split_address("0.5.x/guide"), Some(("0.5.x".to_string(), "guide".to_string())));
    assert_eq!(split_address("0.5.x/guide/deep"), Some(("0.5.x".to_string(), "guide".to_string())));
    assert_eq!(split_address("0.5.x"), None);
    assert_eq!(split_address(""), None);
}

#[test]
fn source_paths_match_the_glob() {
    assert!(is_source_path("en/0.5.x/guide/intro.md"));
    assert!(is_source_path("en/0.5.x/toc.json"));
    assert!(is_source_path("en/a.jpg"));
    assert!(!is_source_path("en/notes.txt"));
}

#[test]
fn minify_keeps_closing_tags_for_documents() {
    assert_eq!(minify_document("<p>  Hello, world!  </p>"), b"<p>Hello, world!</p>".to_vec());
    assert!(!minify_toc("[ ]").is_empty());
}

#[test]
fn files_are_visited_before_directories() {
    assert_eq!(visit_order(true, false), Ordering::Less);
    assert_eq!(visit_order(false, true), Ordering::Greater);
    assert_eq!(visit_order(true, true), Ordering::Equal);
    assert_eq!(visit_order(false, false), Ordering::Equal);
}
