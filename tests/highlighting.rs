use docgen::highlight::{capture_names, class_attribute, escape, highlight_attribute, Languages};
use tree_sitter_highlight::HighlightConfiguration;

fn rust_grammar() -> HighlightConfiguration {
    let mut config = HighlightConfiguration::new(
        tree_sitter_rust::LANGUAGE.into(),
        "rust",
        tree_sitter_rust::HIGHLIGHTS_QUERY,
        tree_sitter_rust::INJECTIONS_QUERY,
        "",
    )
    .unwrap();
    config.configure(&capture_names());
    config
}

#[test]
fn escape_writes_character_references() {
    assert_eq!(escape("<a href=\"x\">&'</a>"), "&lt;a href=&quot;x&quot;&gt;&amp;&#39;&lt;/a&gt;");
    assert_eq!(escape("plain"), "plain");
}

#[test]
fn highlight_unknown_language_is_escaped_text() {
    let languages = Languages::new();
    assert_eq!(languages.highlight("unknown-lang", "if a < b && c {}"), "if a &lt; b &amp;&amp; c {}");
    assert_eq!(languages.render("unknown-lang", "x"), None);
}

#[test]
fn highlight_known_language_marks_tokens() {
    let mut languages = Languages::new();
    languages.insert("rust", rust_grammar());
    let html = languages.highlight("rust", "fn main() {}");
    assert_ne!(html, "fn main() {}");
    assert!(html.contains("<span class='keyword'>fn</span>"));
    assert_eq!(languages.highlight("zig", "a<b"), "a&lt;b");
}

#[test]
fn insert_replaces_grammar_of_same_tag() {
    let mut languages = Languages::new();
    languages.insert("rust", rust_grammar());
    languages.insert("rust", rust_grammar());
    assert!(languages.render("rust", "let x = 1;").is_some());
}

#[test]
fn class_attribute_reads_dots_as_spaces() {
    assert_eq!(class_attribute("function.builtin"), "class='function builtin'");
    assert_eq!(highlight_attribute(0), "class='attribute'");
    assert_eq!(highlight_attribute(999), "");
}

fn without_tags(s: &str) -> String {
    let mut out = String::new();
    let mut inside = false;
    for c in s.chars() {
        if inside {
            inside = c != '>';
        } else if c == '<' {
            inside = true;
        } else {
            out.push(c);
        }
    }
    out
}

#[test]
fn highlighted_code_shows_the_escaped_source() {
    let mut languages = Languages::new();
    languages.insert("rust", rust_grammar());
    let html = languages.render("rust", "let s = \"<a>\";\r\nfn f() {}\n").unwrap();
    let text = without_tags(&html);
    let expected = "let s = &quot;&lt;a&gt;&quot;;\nfn f() {}\n";
    assert!(text == expected || text == format!("{expected}\n"));
}
