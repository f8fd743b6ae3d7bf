use docgen::fragments::HeadingLevel;
use docgen::highlight::Languages;
use docgen::markdown::{step, transform, Action, LinkKind, MdEvent, Mode};

fn text(s: &str) -> MdEvent {
    MdEvent::Text(s.to_string())
}

fn html(s: &str) -> Action {
    Action::Html(s.to_string())
}

#[test]
fn second_level_heading_is_rewritten_and_listed() {
    let events = vec![
        MdEvent::HeadingStart { level: HeadingLevel::H2, has_id: false },
        text("Quick Start"),
        MdEvent::HeadingEnd { level: HeadingLevel::H2, has_id: false, classes: vec![] },
    ];
    let (actions, toc) = transform(&Languages::new(), "en", "0.5.x/guide", &events);
    assert_eq!(
        actions,
        vec![
            Action::Drop,
            Action::Drop,
            html("<h2 id=quick-start class=''><a class=anchor href=#quick-start>#</a>Quick Start</h2>"),
        ]
    );
    assert_eq!(toc, vec![("Quick Start".to_string(), "quick-start".to_string())]);
}

#[test]
fn first_level_heading_is_rewritten_but_not_listed() {
    let events = vec![
        MdEvent::HeadingStart { level: HeadingLevel::H1, has_id: false },
        text("Why"),
        text(" Viz?"),
        MdEvent::HeadingEnd {
            level: HeadingLevel::H1,
            has_id: false,
            classes: vec!["big".to_string(), "red".to_string()],
        },
    ];
    let (actions, toc) = transform(&Languages::new(), "en", "c", &events);
    assert_eq!(
        actions[3],
        html("<h1 id=why-viz class=' big red'><a class=anchor href=#why-viz>#</a>Why Viz?</h1>")
    );
    assert!(toc.is_empty());
}

#[test]
fn deep_or_named_headings_pass_through() {
    let events = vec![
        MdEvent::HeadingStart { level: HeadingLevel::H3, has_id: false },
        text("Deep"),
        MdEvent::HeadingEnd { level: HeadingLevel::H3, has_id: false, classes: vec![] },
        MdEvent::HeadingStart { level: HeadingLevel::H2, has_id: true },
        text("Named"),
        MdEvent::HeadingEnd { level: HeadingLevel::H2, has_id: true, classes: vec![] },
    ];
    let (actions, toc) = transform(&Languages::new(), "en", "c", &events);
    assert!(actions.iter().all(|a| *a == Action::Pass));
    assert_eq!(actions.len(), 6);
    assert!(toc.is_empty());
}

#[test]
fn code_block_without_grammar_is_escaped() {
    let events = vec![
        MdEvent::CodeStart,
        text("a < b\n"),
        text("&& c\n"),
        MdEvent::CodeEnd { lang: "unknown-lang".to_string() },
        text("after"),
    ];
    let (actions, _) = transform(&Languages::new(), "en", "c", &events);
    assert_eq!(
        actions,
        vec![
            Action::Drop,
            Action::Drop,
            Action::Drop,
            html("<div class='code'><button class='i-lucide-copy transition w-4 h-4 select-none absolute top-4 right-2 op-20 hover:op-80'></button>a &lt; b\n&amp;&amp; c\n</div>"),
            Action::Pass,
        ]
    );
}

#[test]
fn inline_code_is_rendered_inside_code_tag() {
    let events = vec![MdEvent::Code("plain".to_string())];
    let (actions, _) = transform(&Languages::new(), "en", "c", &events);
    assert_eq!(actions, vec![html("<code>plain</code>")]);
}

#[test]
fn inline_image_gets_served_path_and_captured_alt() {
    let events = vec![
        MdEvent::ImageStart,
        text("diagram"),
        MdEvent::ImageEnd { kind: LinkKind::Inline, src: "../foo.png".to_string(), title: "t".to_string() },
    ];
    let (actions, _) = transform(&Languages::new(), "en", "0.5.x/guide", &events);
    assert_eq!(
        actions,
        vec![
            Action::Drop,
            Action::Drop,
            html("<img alt='diagram' src='/docs/en/0.5.x/guide/foo.png' />"),
        ]
    );
}

#[test]
fn image_without_text_uses_title_and_keeps_other_paths() {
    let events = vec![
        MdEvent::ImageStart,
        MdEvent::ImageEnd { kind: LinkKind::Inline, src: "https://x/y.png".to_string(), title: "t".to_string() },
    ];
    let (actions, _) = transform(&Languages::new(), "en", "c", &events);
    assert_eq!(actions[1], html("<img alt='t' src='https://x/y.png' />"));
}

#[test]
fn autolink_image_is_written() {
    let events = vec![
        MdEvent::ImageStart,
        MdEvent::ImageEnd { kind: LinkKind::Autolink, src: "a.png".to_string(), title: String::new() },
    ];
    let (actions, _) = transform(&Languages::new(), "en", "c", &events);
    assert_eq!(actions[1], html("<img alt='' src='a.png' />"));
}

#[test]
fn reference_image_is_dropped() {
    let events = vec![
        MdEvent::ImageStart,
        text("alt"),
        MdEvent::ImageEnd { kind: LinkKind::Other, src: "../a.png".to_string(), title: String::new() },
        text("next"),
    ];
    let (actions, _) = transform(&Languages::new(), "en", "c", &events);
    assert_eq!(actions, vec![Action::Drop, Action::Drop, Action::Drop, Action::Pass]);
}

#[test]
fn step_appends_text_to_capture() {
    let mut mode = Mode::Code(String::from("a"));
    let mut toc = Vec::new();
    let a = step(&Languages::new(), "en", "c", &mut mode, &mut toc, &text("b"));
    assert_eq!(a, Action::Drop);
    assert_eq!(mode, Mode::Code(String::from("ab")));
    let b = step(&Languages::new(), "en", "c", &mut mode, &mut toc, &MdEvent::Other);
    assert_eq!(b, Action::Pass);
}
