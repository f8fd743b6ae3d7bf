use docgen::document::{assemble, Config};
use docgen::toc::Navs;

fn config() -> Config {
    Config {
        locale: "en".to_string(),
        title: "On this page".to_string(),
        prev: "Previous".to_string(),
        next: "Next".to_string(),
    }
}

#[test]
fn assemble_without_navigation_or_toc_is_the_article() {
    let navs = Navs { prev: None, next: None, context: "0.5.x/guide".to_string() };
    assert_eq!(assemble(&config(), &navs, "<p>x</p>", &vec![]), "<article class='flex-1'><p>x</p></article>");
}

#[test]
fn assemble_with_both_links_and_toc() {
    let navs = Navs {
        prev: Some(("Intro".to_string(), "en/0.5.x/guide/intro".to_string())),
        next: None,
        context: "0.5.x/guide".to_string(),
    };
    let toc = vec![("Quick Start".to_string(), "quick-start".to_string())];
    let expected = [
        "<article class='flex-1'>B",
        "<div class='page-nav'>",
        "<a class='prev-link transition-colors hover:op100 op61.8' href='/en/0.5.x/guide/intro'>",
        "<span class='desc'><i class='block i-lucide-chevron-left w-3 h-3'></i> Previous</span>",
        "<span class='title'>Intro</span></a>",
        "<div class='next-link'></div>",
        "</div></article>",
        "<nav class='flex-col gap-5 hidden lg:flex'><div class='py-1 text-2 uppercase'>On this page</div>",
        "<ul class='text-3'><li><a class='toc-link block py-1 font-normal transition-colors op75 hover:op100' href='#quick-start'>Quick Start</a></li></ul></nav>",
    ]
    .concat();
    assert_eq!(assemble(&config(), &navs, "B", &toc), expected);
}

#[test]
fn assemble_with_next_link_only() {
    let navs = Navs {
        prev: None,
        next: Some(("Handler".to_string(), "en/0.5.x/concepts/handler".to_string())),
        context: "c".to_string(),
    };
    let expected = [
        "<article class='flex-1'><div class='page-nav'><div class='prev-link'></div>",
        "<a class='next-link transition-colors hover:op100 op61.8' href='/en/0.5.x/concepts/handler'>",
        "<span class='desc'>Next <i class='block i-lucide-chevron-right w-3 h-3'></i></span>",
        "<span class='title'>Handler</span></a></div></article>",
    ]
    .concat();
    assert_eq!(assemble(&config(), &navs, "", &vec![]), expected);
}
