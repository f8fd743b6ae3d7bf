use docgen::site::{langs_contains, metadata, versions_contains, DocumentParams, Lang};

#[test]
fn metadata_per_language() {
    assert_eq!(metadata(Lang::En).docs, "Docs");
    assert_eq!(metadata(Lang::ZhCn).docs, "文档");
    assert_eq!(metadata(Lang::En).title, "Viz");
}

#[test]
fn known_languages_and_versions() {
    assert!(langs_contains("en"));
    assert!(langs_contains("zh-TW"));
    assert!(!langs_contains("fr"));
    assert!(versions_contains("0.5.x"));
    assert!(!versions_contains("0.3.x"));
}

#[test]
fn document_params_default_is_empty() {
    let p = DocumentParams::default();
    assert_eq!(p, DocumentParams { lang: None, version: None, tail: None });
}
