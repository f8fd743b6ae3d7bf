use docgen::toc::{find_item, find_prev_and_next, find_section, make_link, resolve, Section};

fn section(text: &str, prefix: &str, items: &[(&str, &str)]) -> Section {
    Section {
        text: text.to_string(),
        prefix: prefix.to_string(),
        items: items.iter().map(|(t, s)| (t.to_string(), s.to_string())).collect(),
    }
}

fn two_sections() -> Vec<Section> {
    vec![
        section("Guide", "guide", &[("Introduction", "intro"), ("Quick Start", "quick-start")]),
        section("Concepts", "concepts", &[("Handler", "handler"), ("Middleware", "middleware")]),
    ]
}

fn link(title: &str, href: &str) -> Option<(String, String)> {
    Some((title.to_string(), href.to_string()))
}

#[test]
fn resolve_crosses_back_into_previous_section() {
    let toc = two_sections();
    let (prev, next) = resolve(&toc, "concepts", "handler", "en/0.5.x");
    assert_eq!(prev, link("Quick Start", "en/0.5.x/guide/quick-start"));
    assert_eq!(next, link("Middleware", "en/0.5.x/concepts/middleware"));
}

#[test]
fn resolve_crosses_forward_into_next_section() {
    let toc = two_sections();
    let (prev, next) = resolve(&toc, "guide", "quick-start", "en/0.5.x");
    assert_eq!(prev, link("Introduction", "en/0.5.x/guide/intro"));
    assert_eq!(next, link("Handler", "en/0.5.x/concepts/handler"));
}

#[test]
fn resolve_has_no_prev_at_first_entry() {
    let toc = two_sections();
    let (prev, next) = resolve(&toc, "guide", "intro", "p");
    assert_eq!(prev, None);
    assert_eq!(next, link("Quick Start", "p/guide/quick-start"));
}

#[test]
fn resolve_has_no_next_at_last_entry() {
    let toc = two_sections();
    let (prev, next) = resolve(&toc, "concepts", "middleware", "p");
    assert_eq!(prev, link("Handler", "p/concepts/handler"));
    assert_eq!(next, None);
}

#[test]
fn resolve_every_entry_has_ends_only_at_the_edges() {
    let toc = two_sections();
    let all: Vec<(String, String)> = toc
        .iter()
        .flat_map(|s| s.items.iter().map(move |i| (s.prefix.clone(), i.1.clone())))
        .collect();
    for (k, (prefix, slug)) in all.iter().enumerate() {
        let (prev, next) = resolve(&toc, prefix, slug, "p");
        let own = format!("p/{}/{}", prefix, slug);
        assert_eq!(prev.is_none(), k == 0);
        assert_eq!(next.is_none(), k == all.len() - 1);
        assert!(prev.map_or(true, |p| p.1 != own));
        assert!(next.map_or(true, |n| n.1 != own));
    }
}

#[test]
fn resolve_unknown_document_has_no_links() {
    let toc = two_sections();
    assert_eq!(resolve(&toc, "guide", "index", "p"), (None, None));
    assert_eq!(resolve(&toc, "api", "intro", "p"), (None, None));
    assert_eq!(resolve(&Vec::new(), "guide", "intro", "p"), (None, None));
}

#[test]
fn resolve_previous_section_empty_gives_no_prev() {
    let toc = vec![section("Empty", "empty", &[]), section("Guide", "guide", &[("Intro", "intro")])];
    assert_eq!(resolve(&toc, "guide", "intro", "p"), (None, None));
}

#[test]
fn find_section_and_item_take_the_first_match() {
    let toc = vec![
        section("A", "a", &[("One", "x"), ("Two", "x")]),
        section("B", "a", &[("Three", "y")]),
    ];
    assert_eq!(find_section(&toc, "a"), Some(0));
    assert_eq!(find_section(&toc, "b"), None);
    assert_eq!(find_item(&toc[0], "x"), Some(0));
    assert_eq!(find_item(&toc[1], "x"), None);
}

#[test]
fn make_link_joins_with_slashes() {
    assert_eq!(make_link("en/0.5.x", "guide", "intro"), "en/0.5.x/guide/intro");
}

#[test]
fn find_prev_and_next_links_under_language_and_version() {
    let toc = two_sections();
    let navs = find_prev_and_next(&toc, "en", "0.5.x", "concepts", "handler");
    assert_eq!(navs.prev, link("Quick Start", "en/0.5.x/guide/quick-start"));
    assert_eq!(navs.next, link("Middleware", "en/0.5.x/concepts/middleware"));
    assert_eq!(navs.context, "0.5.x/concepts");
}
