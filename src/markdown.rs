//! The rewriting pass over a Markdown event stream: headings get anchors,
//! fenced code is highlighted, inline code is re-rendered, and images are
//! written as tags with served paths, while the second-level headings are
//! collected as the page's table of contents.
use vstd::prelude::*;
use crate::fragments::{
    code_block_html,
    code_span_html,
    heading_html,
    image_src,
    image_src_of,
    img_html,
    render_code_block,
    render_code_span,
    render_heading,
    render_img,
    strings_view,
    HeadingLevel,
};
use crate::highlight::{highlights, Languages};
use crate::slug::{heading_anchor, heading_anchor_of, trim_of};
use crate::text::chars_of;

verus! {

/// One event of a parsed Markdown document, as far as the pass reads it.
#[derive(Debug, PartialEq)]
pub enum MdEvent {
    /// A heading opens; `has_id` when it carries an explicit id.
    HeadingStart { level: HeadingLevel, has_id: bool },
    /// A heading closes, with its classes.
    HeadingEnd { level: HeadingLevel, has_id: bool, classes: Vec<String> },
    /// A fenced code block opens.
    CodeStart,
    /// A fenced code block closes; `lang` is its info string.
    CodeEnd { lang: String },
    Text(String),
    /// An inline code span.
    Code(String),
    ImageStart,
    /// An image closes.
    ImageEnd { kind: LinkKind, src: String, title: String },
    /// Any other event.
    Other,
}

/// How an image's source is given.
#[derive(Clone, Copy, Debug, PartialEq, Eq, Structural)]
pub enum LinkKind {
    /// `![alt](src)`.
    Inline,
    /// `<src>`.
    Autolink,
    /// By reference, or any other way.
    Other,
}

/// Images given inline or as autolinks are written; others are dropped.
pub open spec fn is_rendered_kind(kind: LinkKind) -> bool {
    kind == LinkKind::Inline || kind == LinkKind::Autolink
}

/// What becomes of one input event.
#[derive(Debug, PartialEq)]
pub enum Action {
    /// It is left out.
    Drop,
    /// It is passed on unchanged.
    Pass,
    /// It is replaced by this HTML.
    Html(String),
}

/// The text being captured.
#[derive(Debug, PartialEq)]
pub enum Mode {
    Idle,
    Heading(String),
    Code(String),
    Image(String),
}

/// The mathematical form of a [`Mode`].
pub enum Capture {
    Idle,
    Heading(Seq<char>),
    Code(Seq<char>),
    Image(Seq<char>),
}

impl View for Mode {
    type V = Capture;

    open spec fn view(&self) -> Capture {
        match self {
            Mode::Idle => Capture::Idle,
            Mode::Heading(s) => Capture::Heading(s@),
            Mode::Code(s) => Capture::Code(s@),
            Mode::Image(s) => Capture::Image(s@),
        }
    }
}

/// An entry of a page's table of contents: a heading's text and its anchor.
pub type TocEntryView = (Seq<char>, Seq<char>);

pub open spec fn toc_view(v: Seq<(String, String)>) -> Seq<TocEntryView> {
    v.map_values(|e: (String, String)| (e.0@, e.1@))
}

/// `a` replaces its event with the HTML `h`.
pub open spec fn emits(a: Action, h: Seq<char>) -> bool {
    match a {
        Action::Html(s) => s@ == h,
        _ => false,
    }
}

pub open spec fn is_drop(a: Action) -> bool {
    match a {
        Action::Drop => true,
        _ => false,
    }
}

pub open spec fn is_pass(a: Action) -> bool {
    match a {
        Action::Pass => true,
        _ => false,
    }
}

/// Headings of the first two levels are rewritten.
pub open spec fn is_rewritten_level(level: HeadingLevel) -> bool {
    level == HeadingLevel::H1 || level == HeadingLevel::H2
}

/// The code that `m` has captured; empty when it captures no code.
pub open spec fn code_text(m: Capture) -> Seq<char> {
    match m {
        Capture::Code(s) => s,
        _ => Seq::empty(),
    }
}

/// The alt text that `m` has captured; empty when it captures no image.
pub open spec fn image_text(m: Capture) -> Seq<char> {
    match m {
        Capture::Image(s) => s,
        _ => Seq::empty(),
    }
}

/// Text appended to what is being captured.
pub open spec fn append_text(m: Capture, t: Seq<char>) -> Capture {
    match m {
        Capture::Idle => Capture::Idle,
        Capture::Heading(s) => Capture::Heading(s + t),
        Capture::Code(s) => Capture::Code(s + t),
        Capture::Image(s) => Capture::Image(s + t),
    }
}

/// One step of the pass: in capture state `m` with the page table of
/// contents `toc`, the event `e` leads to `m2` and `toc2` and is handled by
/// `a`. The highlighted form of a code block is left to the grammar of its
/// language; without a grammar it is the escaped code.
pub open spec fn step_ok(
    langs: Languages,
    locale: Seq<char>,
    context: Seq<char>,
    m: Capture,
    toc: Seq<TocEntryView>,
    e: MdEvent,
    m2: Capture,
    toc2: Seq<TocEntryView>,
    a: Action,
) -> bool {
    match e {
        MdEvent::HeadingStart { level, has_id } => if !has_id && is_rewritten_level(level) {
            m2 == Capture::Heading(Seq::empty()) && toc2 == toc && is_drop(a)
        } else {
            m2 == m && toc2 == toc && is_pass(a)
        },
        MdEvent::HeadingEnd { level, has_id, classes } => match m {
            Capture::Heading(text) if !has_id && is_rewritten_level(level) => {
                let name = trim_of(text);
                let id = heading_anchor(text);
                &&& m2 == Capture::Idle
                &&& emits(a, heading_html(level, id, strings_view(classes@), name))
                &&& toc2 == if level == HeadingLevel::H2 {
                    toc.push((name, id))
                } else {
                    toc
                }
            },
            _ => m2 == m && toc2 == toc && is_pass(a),
        },
        MdEvent::CodeStart => m2 == Capture::Code(Seq::empty()) && toc2 == toc && is_drop(a),
        MdEvent::CodeEnd { lang } => {
            &&& m2 == Capture::Idle
            &&& toc2 == toc
            &&& exists|h: Seq<char>|
                emits(a, code_block_html(h)) && highlights(langs.has(lang@), h, code_text(m))
        },
        MdEvent::Text(t) => match m {
            Capture::Idle => m2 == m && toc2 == toc && is_pass(a),
            _ => m2 == append_text(m, t@) && toc2 == toc && is_drop(a),
        },
        MdEvent::Code(t) => m2 == m && toc2 == toc && emits(a, code_span_html(t@)),
        MdEvent::ImageStart => m2 == Capture::Image(Seq::empty()) && toc2 == toc && is_drop(a),
        MdEvent::ImageEnd { kind, src, title } => {
            let alt = if image_text(m).len() > 0 {
                image_text(m)
            } else {
                title@
            };
            &&& m2 == Capture::Idle
            &&& toc2 == toc
            &&& if is_rendered_kind(kind) {
                emits(a, img_html(alt, image_src_of(src@, locale, context)))
            } else {
                is_drop(a)
            }
        },
        MdEvent::Other => m2 == m && toc2 == toc && is_pass(a),
    }
}

fn is_top_level(level: HeadingLevel) -> (r: bool)
    ensures
        r == is_rewritten_level(level),
{
    match level {
        HeadingLevel::H1 => true,
        HeadingLevel::H2 => true,
        _ => false,
    }
}

fn heading_text(m: &Mode) -> (r: Option<String>)
    ensures
        match m@ {
            Capture::Heading(s) => r.is_some() && r.unwrap()@ == s,
            _ => r.is_none(),
        },
{
    match m {
        Mode::Heading(b) => Some(b.clone()),
        _ => None,
    }
}

fn code_text_of(m: &Mode) -> (r: String)
    ensures
        r@ == code_text(m@),
{
    match m {
        Mode::Code(b) => b.clone(),
        _ => String::new(),
    }
}

fn image_text_of(m: &Mode) -> (r: String)
    ensures
        r@ == image_text(m@),
{
    match m {
        Mode::Image(b) => b.clone(),
        _ => String::new(),
    }
}

fn append_to(m: &Mode, t: &str) -> (r: Mode)
    ensures
        r@ == append_text(m@, t@),
{
    match m {
        Mode::Idle => Mode::Idle,
        Mode::Heading(b) => {
            let mut nb = b.clone();
            nb.append(t);
            Mode::Heading(nb)
        },
        Mode::Code(b) => {
            let mut nb = b.clone();
            nb.append(t);
            Mode::Code(nb)
        },
        Mode::Image(b) => {
            let mut nb = b.clone();
            nb.append(t);
            Mode::Image(nb)
        },
    }
}

fn is_idle(m: &Mode) -> (r: bool)
    ensures
        r == (m@ == Capture::Idle),
{
    match m {
        Mode::Idle => true,
        _ => false,
    }
}

/// Handles one event.
pub fn step(
    langs: &Languages,
    locale: &str,
    context: &str,
    mode: &mut Mode,
    toc: &mut Vec<(String, String)>,
    e: &MdEvent,
) -> (a: Action)
    requires
        langs.wf(),
    ensures
        step_ok(
            *langs,
            locale@,
            context@,
            old(mode)@,
            toc_view(old(toc)@),
            *e,
            final(mode)@,
            toc_view(final(toc)@),
            a,
        ),
{
    match e {
        MdEvent::HeadingStart { level, has_id } => {
            if !*has_id && is_top_level(*level) {
                *mode = Mode::Heading(String::new());
                Action::Drop
            } else {
                Action::Pass
            }
        },
        MdEvent::HeadingEnd { level, has_id, classes } => {
            let captured = heading_text(&*mode);
            if captured.is_some() && !*has_id && is_top_level(*level) {
                let text = captured.unwrap();
                let (name, id) = heading_anchor_of(text.as_str());
                let html = render_heading(*level, id.as_str(), classes, name.as_str());
                *mode = Mode::Idle;
                if *level == HeadingLevel::H2 {
                    let ghost before = toc_view(toc@);
                    toc.push((name, id));
                    assert(toc_view(toc@) =~= before.push((trim_of(text@), heading_anchor(text@))));
                }
                Action::Html(html)
            } else {
                Action::Pass
            }
        },
        MdEvent::CodeStart => {
            *mode = Mode::Code(String::new());
            Action::Drop
        },
        MdEvent::CodeEnd { lang } => {
            let code = code_text_of(&*mode);
            let h = langs.highlight(lang.as_str(), code.as_str());
            let html = render_code_block(h.as_str());
            *mode = Mode::Idle;
            assert(emits(Action::Html(html), code_block_html(h@)));
            Action::Html(html)
        },
        MdEvent::Text(t) => {
            if is_idle(&*mode) {
                Action::Pass
            } else {
                *mode = append_to(&*mode, t.as_str());
                Action::Drop
            }
        },
        MdEvent::Code(t) => Action::Html(render_code_span(t.as_str())),
        MdEvent::ImageStart => {
            *mode = Mode::Image(String::new());
            Action::Drop
        },
        MdEvent::ImageEnd { kind, src, title } => {
            let captured = image_text_of(&*mode);
            *mode = Mode::Idle;
            if *kind == LinkKind::Inline || *kind == LinkKind::Autolink {
                let alt = if chars_of(captured.as_str()).len() > 0 {
                    captured
                } else {
                    title.clone()
                };
                let served = image_src(src.as_str(), locale, context);
                Action::Html(render_img(alt.as_str(), served.as_str()))
            } else {
                Action::Drop
            }
        },
        MdEvent::Other => Action::Pass,
    }
}

/// `trace` is a run of the pass over `events` that handles them by
/// `actions`: it starts idle with an empty page table of contents, and each
/// event is one step.
pub open spec fn is_run(
    langs: Languages,
    locale: Seq<char>,
    context: Seq<char>,
    events: Seq<MdEvent>,
    actions: Seq<Action>,
    trace: Seq<(Capture, Seq<TocEntryView>)>,
) -> bool {
    &&& trace.len() == events.len() + 1
    &&& actions.len() == events.len()
    &&& trace[0] == (Capture::Idle, Seq::<TocEntryView>::empty())
    &&& forall|k: int|
        0 <= k < events.len() ==> step_ok(
            langs,
            locale,
            context,
            trace[k].0,
            trace[k].1,
            #[trigger] events[k],
            trace[k + 1].0,
            trace[k + 1].1,
            actions[k],
        )
}

/// Runs the pass over `events`: what becomes of each event, and the page
/// table of contents that the second-level headings make.
pub fn transform(langs: &Languages, locale: &str, context: &str, events: &Vec<MdEvent>) -> (r: (
    Vec<Action>,
    Vec<(String, String)>,
))
    requires
        langs.wf(),
    ensures
        exists|trace: Seq<(Capture, Seq<TocEntryView>)>|
            #[trigger] is_run(*langs, locale@, context@, events@, r.0@, trace) && trace.last().1
                == toc_view(r.1@),
{
    let mut mode = Mode::Idle;
    let mut toc: Vec<(String, String)> = Vec::new();
    let mut actions: Vec<Action> = Vec::new();
    let ghost mut trace: Seq<(Capture, Seq<TocEntryView>)> = seq![
        (Capture::Idle, Seq::<TocEntryView>::empty()),
    ];
    assert(toc_view(toc@) =~= Seq::<TocEntryView>::empty());
    let mut i: usize = 0;
    while i < events.len()
        invariant
            i <= events@.len(),
            langs.wf(),
            trace.len() == i + 1,
            actions@.len() == i,
            trace[0] == (Capture::Idle, Seq::<TocEntryView>::empty()),
            trace[i as int] == (mode@, toc_view(toc@)),
            forall|k: int|
                0 <= k < i ==> step_ok(
                    *langs,
                    locale@,
                    context@,
                    trace[k].0,
                    trace[k].1,
                    #[trigger] events@[k],
                    trace[k + 1].0,
                    trace[k + 1].1,
                    actions@[k],
                ),
        decreases events@.len() - i,
    {
        let a = step(langs, locale, context, &mut mode, &mut toc, &events[i]);
        actions.push(a);
        proof {
            trace = trace.push((mode@, toc_view(toc@)));
        }
        i = i + 1;
    }
    assert(trace.last() == trace[i as int]);
    let r = (actions, toc);
    assert(is_run(*langs, locale@, context@, events@, r.0@, trace));
    assert(trace.last().1 == toc_view(r.1@));
    r
}

} // verus!
