//! The document compiler: one Markdown document to its HTML fragment.
use vstd::prelude::*;
use pulldown_cmark::html::push_html;
use pulldown_cmark::{
    CodeBlockKind,
    CowStr,
    Event,
    LinkType,
    Options,
    Parser as MarkdownParser,
    Tag,
};
use crate::document::{assemble, document_html, Config};
use crate::fragments::HeadingLevel;
use crate::highlight::Languages;
use crate::markdown::{is_run, toc_view, transform, Action, Capture, LinkKind, MdEvent, TocEntryView};
use crate::toc::{link_view, Navs};

verus! {

#[verifier::external_type_specification]
#[verifier::external_body]
pub struct ExEvent<'a>(Event<'a>);

/// The events that pulldown-cmark's parser, with every extension on, yields
/// for `raw`, each in the library's form.
pub uninterp spec fn md_events_of(raw: Seq<char>) -> Seq<MdEvent>;

/// Relies on pulldown_cmark's `Parser::new_ext` with every extension on: the
/// events of `raw` in order, and beside them their library forms, which
/// depend on `raw` alone.
#[verifier::external_body]
fn markdown_events<'a>(raw: &'a str) -> (r: (Vec<Event<'a>>, Vec<MdEvent>))
    ensures
        r.0@.len() == r.1@.len(),
        r.1@ == md_events_of(raw@),
{
    let events: Vec<Event<'a>> = MarkdownParser::new_ext(raw, Options::all()).collect();
    let forms: Vec<MdEvent> = events.iter().map(to_md_event).collect();
    (events, forms)
}

/// Relies on pulldown_cmark's `Tag::Heading`, whose `HeadingLevel` counts
/// from 1 to 6: whether `e` opens a heading, its level, its explicit id and
/// its classes.
#[verifier::external_body]
fn heading_parts(e: &Event) -> (r: Option<(bool, u8, Option<String>, Vec<String>)>)
    ensures
        r.is_some() ==> 1 <= r.unwrap().1 <= 6,
{
    match e {
        Event::Start(Tag::Heading(l, id, c)) => {
            Some((true, *l as u8, id.map(String::from), c.iter().map(|s| s.to_string()).collect()))
        },
        Event::End(Tag::Heading(l, id, c)) => {
            Some((false, *l as u8, id.map(String::from), c.iter().map(|s| s.to_string()).collect()))
        },
        _ => None,
    }
}

pub open spec fn is_text_event(m: MdEvent) -> bool {
    match m {
        MdEvent::CodeStart | MdEvent::CodeEnd { .. } | MdEvent::Text(_) | MdEvent::Code(_) => true,
        _ => false,
    }
}

pub open spec fn is_image_event(m: MdEvent) -> bool {
    match m {
        MdEvent::ImageStart | MdEvent::ImageEnd { .. } => true,
        _ => false,
    }
}

/// Relies on pulldown_cmark's `Event::Text`, `Event::Code` and fenced
/// `Tag::CodeBlock`: those events in the library's form.
#[verifier::external_body]
fn text_event(e: &Event) -> (r: Option<MdEvent>)
    ensures
        r.is_some() ==> is_text_event(r.unwrap()),
{
    match e {
        Event::Start(Tag::CodeBlock(CodeBlockKind::Fenced(_))) => Some(MdEvent::CodeStart),
        Event::End(Tag::CodeBlock(CodeBlockKind::Fenced(l))) => {
            Some(MdEvent::CodeEnd { lang: l.to_string() })
        },
        Event::Text(t) => Some(MdEvent::Text(t.to_string())),
        Event::Code(t) => Some(MdEvent::Code(t.to_string())),
        _ => None,
    }
}

/// Relies on pulldown_cmark's `Tag::Image` and `LinkType`: image events in
/// the library's form.
#[verifier::external_body]
fn image_event(e: &Event) -> (r: Option<MdEvent>)
    ensures
        r.is_some() ==> is_image_event(r.unwrap()),
{
    match e {
        Event::Start(Tag::Image(..)) => Some(MdEvent::ImageStart),
        Event::End(Tag::Image(LinkType::Inline, s, t)) => {
            Some(MdEvent::ImageEnd { kind: LinkKind::Inline, src: s.to_string(), title: t.to_string() })
        },
        Event::End(Tag::Image(LinkType::Autolink, s, t)) => {
            Some(MdEvent::ImageEnd { kind: LinkKind::Autolink, src: s.to_string(), title: t.to_string() })
        },
        Event::End(Tag::Image(_, s, t)) => {
            Some(MdEvent::ImageEnd { kind: LinkKind::Other, src: s.to_string(), title: t.to_string() })
        },
        _ => None,
    }
}

fn level_of(n: u8) -> (r: HeadingLevel)
    requires
        1 <= n <= 6,
{
    if n == 1 {
        HeadingLevel::H1
    } else if n == 2 {
        HeadingLevel::H2
    } else if n == 3 {
        HeadingLevel::H3
    } else if n == 4 {
        HeadingLevel::H4
    } else if n == 5 {
        HeadingLevel::H5
    } else {
        HeadingLevel::H6
    }
}

/// The library's form of `e`.
fn to_md_event(e: &Event) -> MdEvent {
    match heading_parts(e) {
        Some((start, n, id, classes)) => {
            let level = level_of(n);
            if start {
                MdEvent::HeadingStart { level, has_id: id.is_some() }
            } else {
                MdEvent::HeadingEnd { level, has_id: id.is_some(), classes }
            }
        },
        None => match text_event(e) {
            Some(m) => m,
            None => match image_event(e) {
                Some(m) => m,
                None => MdEvent::Other,
            },
        },
    }
}

/// A parsed event that does not open an image. Only `keep` makes one.
pub struct Kept<'a>(Event<'a>);

/// Relies on pulldown_cmark's `Tag::Image`: `e` as a `Kept`, unless it opens
/// an image.
#[verifier::external_body]
fn keep<'a>(e: Event<'a>) -> Option<Kept<'a>> {
    match e {
        Event::Start(Tag::Image(..)) => None,
        e => Some(Kept(e)),
    }
}

/// What the body is rendered from: parsed events kept as they are, and HTML.
pub enum Piece<'a> {
    Source(Kept<'a>),
    Html(String),
}

/// `p` is how the action `a` leaves its event: nothing where it is
/// dropped, its HTML where it is replaced.
pub open spec fn piece_matches<'a>(p: Piece<'a>, a: Action) -> bool {
    match a {
        Action::Drop => match p {
            Piece::Html(h) => h@.len() == 0,
            _ => false,
        },
        Action::Html(h) => match p {
            Piece::Html(g) => g@ == h@,
            _ => false,
        },
        Action::Pass => true,
    }
}

/// `parts` written one after the other.
pub open spec fn joined(parts: Seq<Seq<char>>) -> Seq<char>
    decreases parts.len(),
{
    if parts.len() == 0 {
        Seq::empty()
    } else {
        joined(parts.drop_last()) + parts.last()
    }
}

/// `part` is what was written for `p`: an HTML piece as it stands.
pub open spec fn piece_written<'a>(p: Piece<'a>, part: Seq<char>) -> bool {
    match p {
        Piece::Html(h) => part == h@,
        _ => true,
    }
}

/// Relies on pulldown_cmark's `html::push_html`: its writer writes each
/// `Event::Html` as it stands and reads ahead of an event only after an
/// image start, which no `Kept` is; the output is what each event wrote,
/// in order.
#[verifier::external_body]
fn render_pieces(pieces: Vec<Piece>) -> (r: String)
    ensures
        exists|parts: Seq<Seq<char>>|
            #[trigger] joined(parts) == r@ && parts.len() == pieces@.len() && forall|k: int|
                0 <= k < parts.len() ==> piece_written(pieces@[k], parts[k]),
{
    let mut html = String::new();
    push_html(&mut html, pieces.into_iter().map(|p| match p {
        Piece::Source(Kept(e)) => e,
        Piece::Html(h) => Event::Html(CowStr::from(h)),
    }));
    html
}

fn piece_of<'a>(event: Event<'a>, action: Action) -> (r: Piece<'a>)
    ensures
        piece_matches(r, action),
{
    match action {
        Action::Drop => Piece::Html(String::new()),
        Action::Html(h) => Piece::Html(h),
        Action::Pass => match keep(event) {
            Some(k) => Piece::Source(k),
            None => Piece::Html(String::new()),
        },
    }
}

/// `events` as `actions` leaves them, one piece per event.
fn to_pieces<'a>(events: Vec<Event<'a>>, actions: Vec<Action>) -> (r: Vec<Piece<'a>>)
    requires
        events@.len() == actions@.len(),
    ensures
        r@.len() == actions@.len(),
        forall|k: int| 0 <= k < r@.len() ==> piece_matches(r@[k], actions@[k]),
{
    let mut events = events;
    let mut actions = actions;
    let ghost all = actions@;
    let ghost n = all.len();
    let mut reversed: Vec<Piece<'a>> = Vec::new();
    while actions.len() > 0
        invariant
            events@.len() == actions@.len(),
            actions@ == all.take(actions@.len() as int),
            n == all.len(),
            reversed@.len() + actions@.len() == n,
            forall|j: int| 0 <= j < reversed@.len() ==> piece_matches(reversed@[j], all[n - 1 - j]),
        decreases actions@.len(),
    {
        let ghost before = actions@;
        let event = events.pop().unwrap();
        let action = actions.pop().unwrap();
        assert(action == all[actions@.len() as int]);
        assert(actions@ =~= all.take(actions@.len() as int));
        reversed.push(piece_of(event, action));
    }
    let ghost rev = reversed@;
    let mut r: Vec<Piece<'a>> = Vec::new();
    while reversed.len() > 0
        invariant
            rev.len() == n,
            reversed@ == rev.take(reversed@.len() as int),
            r@.len() + reversed@.len() == n,
            forall|i: int| 0 <= i < r@.len() ==> r@[i] == rev[n - 1 - i],
        decreases reversed@.len(),
    {
        let piece = reversed.pop().unwrap();
        assert(reversed@ =~= rev.take(reversed@.len() as int));
        r.push(piece);
    }
    assert forall|k: int| 0 <= k < r@.len() implies piece_matches(r@[k], all[k]) by {
        assert(r@[k] == rev[n - 1 - k]);
    }
    r
}

/// A compiled document.
pub struct Document {
    pub html: String,
}

/// `part` is what the action `a` leaves in the body: nothing where it drops
/// its event, its HTML where it replaces it.
pub open spec fn action_written(a: Action, part: Seq<char>) -> bool {
    match a {
        Action::Drop => part.len() == 0,
        Action::Html(h) => part == h@,
        Action::Pass => true,
    }
}

/// Compiles the Markdown document `raw`: its events pass through the
/// rewriting pass, the body of the article is what each event leaves,
/// with the pass's HTML as it stands, and the article is assembled with the
/// links of `navs` and the page's table of contents.
pub fn parse(config: &Config, languages: &Languages, navs: &Navs, raw: &str) -> (r: Document)
    requires
        languages.wf(),
    ensures
        exists|actions: Seq<Action>, trace: Seq<(Capture, Seq<TocEntryView>)>|
            #[trigger] is_run(
                *languages,
                config.locale@,
                navs.context@,
                md_events_of(raw@),
                actions,
                trace,
            ) && exists|parts: Seq<Seq<char>>|
                parts.len() == actions.len() && (forall|k: int|
                    0 <= k < parts.len() ==> action_written(actions[k], parts[k]))
                    && r.html@ == #[trigger] document_html(
                    *config,
                    link_view(navs.prev),
                    link_view(navs.next),
                    joined(parts),
                    trace.last().1,
                ),
{
    let (events, plain) = markdown_events(raw);
    let (actions, toc) = transform(languages, config.locale.as_str(), navs.context.as_str(), &plain);
    let ghost trace = choose|trace: Seq<(Capture, Seq<TocEntryView>)>|
        #[trigger] is_run(*languages, config.locale@, navs.context@, plain@, actions@, trace)
            && trace.last().1 == toc_view(toc@);
    let ghost acts = actions@;
    let pieces = to_pieces(events, actions);
    let ghost ps = pieces@;
    let body = render_pieces(pieces);
    let ghost parts = choose|parts: Seq<Seq<char>>|
        #[trigger] joined(parts) == body@ && parts.len() == ps.len() && forall|k: int|
            0 <= k < parts.len() ==> piece_written(ps[k], parts[k]);
    assert forall|k: int| 0 <= k < parts.len() implies action_written(acts[k], parts[k]) by {
        assert(piece_matches(ps[k], acts[k]));
        assert(piece_written(ps[k], parts[k]));
    }
    let html = assemble(config, navs, body.as_str(), &toc);
    assert(is_run(*languages, config.locale@, navs.context@, plain@, acts, trace));
    assert(html@ == document_html(
        *config,
        link_view(navs.prev),
        link_view(navs.next),
        joined(parts),
        trace.last().1,
    ));
    Document { html }
}

} // verus!
