//! The final HTML fragment of one document: the article with its previous
//! and next links, followed by the page's table of contents.
use vstd::prelude::*;
use crate::markdown::{toc_view, TocEntryView};
use crate::slug::{anchor_from_lowered, anchor_of, lower_of, to_lowercase};
use crate::toc::{link_view, NavLink, NavLinkView, Navs};

verus! {

/// The words of one locale, and the locale itself.
#[derive(Clone, Debug, PartialEq)]
pub struct Config {
    pub locale: String,
    /// The heading of the page's table of contents.
    pub title: String,
    /// The label of the link to the previous document.
    pub prev: String,
    /// The label of the link to the next document.
    pub next: String,
}

pub open spec fn prev_link_html(label: Seq<char>, l: Option<NavLinkView>) -> Seq<char> {
    match l {
        Some((name, link)) => "<a class='prev-link transition-colors hover:op100 op61.8' href='/"@
            + link + "'>"@ + "<span class='desc'><i class='block i-lucide-chevron-left w-3 h-3'></i>"@
            + " "@ + label + "</span>"@ + "<span class='title'>"@ + name + "</span>"@ + "</a>"@,
        None => "<div class='prev-link'></div>"@,
    }
}

pub open spec fn next_link_html(label: Seq<char>, l: Option<NavLinkView>) -> Seq<char> {
    match l {
        Some((name, link)) => "<a class='next-link transition-colors hover:op100 op61.8' href='/"@
            + link + "'>"@ + "<span class='desc'>"@ + label + " "@
            + "<i class='block i-lucide-chevron-right w-3 h-3'></i></span>"@
            + "<span class='title'>"@ + name + "</span>"@ + "</a>"@,
        None => "<div class='next-link'></div>"@,
    }
}

/// The previous/next block; empty where there is neither.
pub open spec fn page_nav_html(
    prev_label: Seq<char>,
    next_label: Seq<char>,
    prev: Option<NavLinkView>,
    next: Option<NavLinkView>,
) -> Seq<char> {
    if prev.is_none() && next.is_none() {
        Seq::empty()
    } else {
        "<div class='page-nav'>"@ + prev_link_html(prev_label, prev) + next_link_html(
            next_label,
            next,
        ) + "</div>"@
    }
}

/// One entry of the page's table of contents.
pub open spec fn toc_item_html(e: TocEntryView) -> Seq<char> {
    "<li>"@
        + "<a class='toc-link block py-1 font-normal transition-colors op75 hover:op100' href='#"@
        + anchor_of(lower_of(e.1)) + "'>"@ + e.0 + "</a></li>"@
}

pub open spec fn toc_items_html(es: Seq<TocEntryView>) -> Seq<char>
    decreases es.len(),
{
    if es.len() == 0 {
        Seq::empty()
    } else {
        toc_items_html(es.drop_last()) + toc_item_html(es.last())
    }
}

/// The page's table of contents; empty where there is no entry.
pub open spec fn toc_nav_html(title: Seq<char>, es: Seq<TocEntryView>) -> Seq<char> {
    if es.len() == 0 {
        Seq::empty()
    } else {
        "<nav class='flex-col gap-5 hidden lg:flex'>"@ + "<div class='py-1 text-2 uppercase'>"@
            + title + "</div><ul class='text-3'>"@ + toc_items_html(es) + "</ul></nav>"@
    }
}

/// The whole fragment around the rendered body `body`.
pub open spec fn document_html(
    config: Config,
    prev: Option<NavLinkView>,
    next: Option<NavLinkView>,
    body: Seq<char>,
    es: Seq<TocEntryView>,
) -> Seq<char> {
    "<article class='flex-1'>"@ + body + page_nav_html(config.prev@, config.next@, prev, next)
        + "</article>"@ + toc_nav_html(config.title@, es)
}

fn render_prev_link(label: &str, l: &Option<NavLink>) -> (r: String)
    ensures
        r@ == prev_link_html(label@, link_view(*l)),
{
    match l {
        Some((name, link)) => {
            let mut r = String::from_str(
                "<a class='prev-link transition-colors hover:op100 op61.8' href='/",
            );
            r.append(link.as_str());
            r.append("'>");
            r.append("<span class='desc'><i class='block i-lucide-chevron-left w-3 h-3'></i>");
            r.append(" ");
            r.append(label);
            r.append("</span>");
            r.append("<span class='title'>");
            r.append(name.as_str());
            r.append("</span>");
            r.append("</a>");
            r
        },
        None => String::from_str("<div class='prev-link'></div>"),
    }
}

fn render_next_link(label: &str, l: &Option<NavLink>) -> (r: String)
    ensures
        r@ == next_link_html(label@, link_view(*l)),
{
    match l {
        Some((name, link)) => {
            let mut r = String::from_str(
                "<a class='next-link transition-colors hover:op100 op61.8' href='/",
            );
            r.append(link.as_str());
            r.append("'>");
            r.append("<span class='desc'>");
            r.append(label);
            r.append(" ");
            r.append("<i class='block i-lucide-chevron-right w-3 h-3'></i></span>");
            r.append("<span class='title'>");
            r.append(name.as_str());
            r.append("</span>");
            r.append("</a>");
            r
        },
        None => String::from_str("<div class='next-link'></div>"),
    }
}

fn render_toc_item(name: &str, anchor: &str) -> (r: String)
    ensures
        r@ == toc_item_html((name@, anchor@)),
{
    let lowered = to_lowercase(anchor);
    let target = anchor_from_lowered(lowered.as_str());
    let mut r = String::from_str("<li>");
    r.append(
        "<a class='toc-link block py-1 font-normal transition-colors op75 hover:op100' href='#",
    );
    r.append(target.as_str());
    r.append("'>");
    r.append(name);
    r.append("</a></li>");
    r
}

fn render_toc_items(toc: &Vec<(String, String)>) -> (r: String)
    ensures
        r@ == toc_items_html(toc_view(toc@)),
{
    let mut r = String::new();
    let mut i: usize = 0;
    while i < toc.len()
        invariant
            i <= toc@.len(),
            r@ == toc_items_html(toc_view(toc@.take(i as int))),
        decreases toc@.len() - i,
    {
        let item = render_toc_item(toc[i].0.as_str(), toc[i].1.as_str());
        r.append(item.as_str());
        assert(toc_view(toc@.take(i + 1)).drop_last() =~= toc_view(toc@.take(i as int)));
        i = i + 1;
    }
    assert(toc@.take(toc@.len() as int) =~= toc@);
    r
}

/// The document fragment: `body` inside an `<article>` with the previous
/// and next links of `navs`, then the page's table of contents `toc`.
pub fn assemble(config: &Config, navs: &Navs, body: &str, toc: &Vec<(String, String)>) -> (r: String)
    ensures
        r@ == document_html(*config, link_view(navs.prev), link_view(navs.next), body@, toc_view(toc@)),
{
    let mut r = String::from_str("<article class='flex-1'>");
    r.append(body);
    let ghost head = r@;
    if navs.prev.is_some() || navs.next.is_some() {
        r.append("<div class='page-nav'>");
        let p = render_prev_link(config.prev.as_str(), &navs.prev);
        r.append(p.as_str());
        let n = render_next_link(config.next.as_str(), &navs.next);
        r.append(n.as_str());
        r.append("</div>");
    }
    assert(r@ =~= head + page_nav_html(
        config.prev@,
        config.next@,
        link_view(navs.prev),
        link_view(navs.next),
    ));
    r.append("</article>");
    let ghost mid = r@;
    if toc.len() > 0 {
        r.append("<nav class='flex-col gap-5 hidden lg:flex'>");
        r.append("<div class='py-1 text-2 uppercase'>");
        r.append(config.title.as_str());
        r.append("</div><ul class='text-3'>");
        let items = render_toc_items(toc);
        r.append(items.as_str());
        r.append("</ul></nav>");
    }
    assert(r@ =~= mid + toc_nav_html(config.title@, toc_view(toc@)));
    r
}

} // verus!
