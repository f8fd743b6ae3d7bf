use docgen::compiler::parse;
use docgen::document::Config;
use docgen::highlight::Languages;
use docgen::toc::{find_prev_and_next, Navs, Section};

fn config() -> Config {
    Config {
        locale: "en".to_string(),
        title: "On this page".to_string(),
        prev: "Previous".to_string(),
        next: "Next".to_string(),
    }
}

fn no_links() -> Navs {
    Navs { prev: None, next: None, context: "0.5.x/guide".to_string() }
}

#[test]
fn parse_rewrites_heading_and_lists_it() {
    let doc = parse(&config(), &Languages::new(), &no_links(), "## Quick Start\n\nSee `a`.\n");
    let expected = [
        "<article class='flex-1'>",
        "<h2 id=quick-start class=''><a class=anchor href=#quick-start>#</a>Quick Start</h2>",
        "\n<p>See <code>a</code>.</p>\n",
        "</article>",
        "<nav class='flex-col gap-5 hidden lg:flex'><div class='py-1 text-2 uppercase'>On this page</div>",
        "<ul class='text-3'><li><a class='toc-link block py-1 font-normal transition-colors op75 hover:op100' href='#quick-start'>Quick Start</a></li></ul></nav>",
    ]
    .concat();
    assert_eq!(doc.html, expected);
}

#[test]
fn parse_rewrites_images_and_escapes_unknown_code() {
    let raw = "![logo](../logo.png)\n\n```nothing\na<b\n```\n";
    let doc = parse(&config(), &Languages::new(), &no_links(), raw);
    assert!(doc.html.contains("<img alt='logo' src='/docs/en/0.5.x/guide/logo.png' />"));
    assert!(doc.html.contains("</button>a&lt;b\n</div>"));
    assert!(!doc.html.contains("<nav"));
}

#[test]
fn parse_end_to_end_with_navigation() {
    let toc = vec![
        Section {
            text: "Guide".to_string(),
            prefix: "guide".to_string(),
            items: vec![
                ("intro".to_string(), "intro".to_string()),
                ("quick-start".to_string(), "quick-start".to_string()),
            ],
        },
        Section {
            text: "Concepts".to_string(),
            prefix: "concepts".to_string(),
            items: vec![
                ("handler".to_string(), "handler".to_string()),
                ("middleware".to_string(), "middleware".to_string()),
            ],
        },
    ];
    let navs = find_prev_and_next(&toc, "en", "0.5.x", "concepts", "handler");
    assert_eq!(navs.prev, Some(("quick-start".to_string(), "en/0.5.x/guide/quick-start".to_string())));
    assert_eq!(navs.next, Some(("middleware".to_string(), "en/0.5.x/concepts/middleware".to_string())));
    let doc = parse(&config(), &Languages::new(), &navs, "Body\n");
    assert!(doc.html.starts_with("<article class='flex-1'><p>Body</p>\n<div class='page-nav'>"));
    assert!(doc.html.contains("href='/en/0.5.x/guide/quick-start'"));
    assert!(doc.html.contains("href='/en/0.5.x/concepts/middleware'"));
}

#[test]
fn parse_heading_anchor_drops_trailing_question_mark() {
    let doc = parse(&config(), &Languages::new(), &no_links(), "## Why Viz?\n");
    assert!(doc.html.contains("<h2 id=why-viz "));
    assert!(doc.html.contains("href=#why-viz>"));
    assert!(doc.html.contains("#</a>Why Viz?</h2>"));
    assert!(doc.html.contains("href='#why-viz'>Why Viz?</a>"));
}

#[test]
fn parse_unknown_language_block_is_escaped_whole() {
    let raw = "```unknown-lang\na < b\n&& 'c' \"d\"\n```\n";
    let doc = parse(&config(), &Languages::new(), &no_links(), raw);
    assert!(doc.html.contains("</button>a &lt; b\n&amp;&amp; &#39;c&#39; &quot;d&quot;\n</div>"));
}
