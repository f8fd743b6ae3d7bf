use docgen::slug::{anchor_from_lowered, heading_anchor_of};

#[test]
fn heading_anchor_is_the_same_each_time() {
    let first = heading_anchor_of("Quick Start");
    let second = heading_anchor_of("Quick Start");
    assert_eq!(first, ("Quick Start".to_string(), "quick-start".to_string()));
    assert_eq!(first, second);
}

#[test]
fn heading_anchor_drops_trailing_punctuation() {
    assert_eq!(heading_anchor_of("What is Viz?").1, "what-is-viz");
    assert_eq!(heading_anchor_of("Hello!").1, "hello");
    assert_eq!(heading_anchor_of("你好？").1, "你好");
    assert_eq!(heading_anchor_of("Wow！").1, "wow");
    assert_eq!(heading_anchor_of("Really?!").1, "really");
    assert_eq!(heading_anchor_of("What is Viz?").0, "What is Viz?");
}

#[test]
fn heading_anchor_drops_parentheses_and_trims() {
    assert_eq!(
        heading_anchor_of("  Handler (Function)  "),
        ("Handler (Function)".to_string(), "handler-function".to_string())
    );
}

#[test]
fn anchor_from_lowered_keeps_inner_punctuation() {
    assert_eq!(anchor_from_lowered("a?b c"), "a?b-c");
    assert_eq!(anchor_from_lowered(""), "");
    assert_eq!(anchor_from_lowered("?!"), "");
}
