use docgen::fragments::{image_src, render_code_block, render_code_span, render_heading, render_img, HeadingLevel};

#[test]
fn image_src_rewrites_parent_relative_path() {
    assert_eq!(image_src("../foo.png", "en", "0.5.x/guide"), "/docs/en/0.5.x/guide/foo.png");
    assert_eq!(image_src("foo.png", "en", "0.5.x/guide"), "foo.png");
    assert_eq!(image_src(".", "en", "v"), ".");
    assert_eq!(image_src("..", "zh-CN", "v/s"), "/docs/zh-CN/v/s");
}

#[test]
fn render_heading_with_classes() {
    let classes = vec!["a".to_string(), "b".to_string()];
    assert_eq!(
        render_heading(HeadingLevel::H2, "x", &classes, "X"),
        "<h2 id=x class=' a b'><a class=anchor href=#x>#</a>X</h2>"
    );
}

#[test]
fn render_img_and_code_block() {
    assert_eq!(render_img("a", "b.png"), "<img alt='a' src='b.png' />");
    assert!(render_code_block("H").ends_with("</button>H</div>"));
}

#[test]
fn render_code_span_renders_markdown_inside() {
    assert_eq!(render_code_span("*em*"), "<code><em>em</em></code>");
    assert_eq!(render_code_span(""), "<code></code>");
}
