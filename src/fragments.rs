//! The HTML fragments that the Markdown pass writes in place of headings,
//! code blocks, inline code and images.
use vstd::prelude::*;
use pulldown_cmark::html::push_html;
use pulldown_cmark::Parser as MarkdownParser;
use crate::text::{chars_of, push_char};
use crate::slug::{trim, trim_of};

verus! {

/// The level of a heading.
#[derive(Clone, Copy, Debug, PartialEq, Eq, Structural)]
pub enum HeadingLevel {
    H1,
    H2,
    H3,
    H4,
    H5,
    H6,
}

/// The tag name of a heading of level `level`.
pub open spec fn level_tag_of(level: HeadingLevel) -> Seq<char> {
    match level {
        HeadingLevel::H1 => "h1"@,
        HeadingLevel::H2 => "h2"@,
        HeadingLevel::H3 => "h3"@,
        HeadingLevel::H4 => "h4"@,
        HeadingLevel::H5 => "h5"@,
        HeadingLevel::H6 => "h6"@,
    }
}

pub fn level_tag(level: HeadingLevel) -> (r: &'static str)
    ensures
        r@ == level_tag_of(level),
{
    match level {
        HeadingLevel::H1 => "h1",
        HeadingLevel::H2 => "h2",
        HeadingLevel::H3 => "h3",
        HeadingLevel::H4 => "h4",
        HeadingLevel::H5 => "h5",
        HeadingLevel::H6 => "h6",
    }
}

/// The classes `cs` separated by single spaces.
pub open spec fn join_classes(cs: Seq<Seq<char>>) -> Seq<char>
    decreases cs.len(),
{
    if cs.len() == 0 {
        Seq::empty()
    } else if cs.len() == 1 {
        cs[0]
    } else {
        join_classes(cs.drop_last()) + seq![' '] + cs.last()
    }
}

pub open spec fn strings_view(v: Seq<String>) -> Seq<Seq<char>> {
    v.map_values(|s: String| s@)
}

/// The value of a rewritten heading's `class` attribute.
pub open spec fn class_value(classes: Seq<Seq<char>>) -> Seq<char> {
    if classes.len() == 0 {
        Seq::empty()
    } else {
        seq![' '] + join_classes(classes)
    }
}

/// A rewritten heading: its anchor as `id`, its classes, a self-link, and
/// its text.
pub open spec fn heading_html(
    level: HeadingLevel,
    id: Seq<char>,
    classes: Seq<Seq<char>>,
    name: Seq<char>,
) -> Seq<char> {
    "<"@ + level_tag_of(level) + " id="@ + id + " class='"@ + class_value(classes) + "'>"@
        + "<a class=anchor href=#"@ + id + ">"@ + "#</a>"@ + name + "</"@ + level_tag_of(level)
        + ">"@
}

fn join_class_list(classes: &Vec<String>) -> (r: String)
    ensures
        r@ == join_classes(strings_view(classes@)),
{
    let mut r = String::new();
    let mut i: usize = 0;
    while i < classes.len()
        invariant
            i <= classes@.len(),
            r@ == join_classes(strings_view(classes@.take(i as int))),
        decreases classes@.len() - i,
    {
        let ghost before = strings_view(classes@.take(i as int));
        let ghost after = strings_view(classes@.take(i + 1));
        assert(after.drop_last() =~= before);
        if i > 0 {
            push_char(&mut r, ' ');
        }
        r.append(classes[i].as_str());
        proof {
            if i == 0 {
                assert(r@ =~= after[0]);
            } else {
                assert(r@ =~= join_classes(before) + seq![' '] + after.last());
            }
        }
        i = i + 1;
    }
    assert(classes@.take(classes@.len() as int) =~= classes@);
    r
}

/// The HTML of a rewritten heading.
pub fn render_heading(level: HeadingLevel, id: &str, classes: &Vec<String>, name: &str) -> (r:
    String)
    ensures
        r@ == heading_html(level, id@, strings_view(classes@), name@),
{
    let tag = level_tag(level);
    let mut r = String::from_str("<");
    r.append(tag);
    r.append(" id=");
    r.append(id);
    r.append(" class='");
    if classes.len() > 0 {
        push_char(&mut r, ' ');
        let joined = join_class_list(classes);
        r.append(joined.as_str());
    }
    let ghost cv = class_value(strings_view(classes@));
    assert(r@ =~= "<"@ + level_tag_of(level) + " id="@ + id@ + " class='"@ + cv);
    r.append("'>");
    r.append("<a class=anchor href=#");
    r.append(id);
    r.append(">");
    r.append("#</a>");
    r.append(name);
    r.append("</");
    r.append(tag);
    r.append(">");
    r
}

/// The block that holds highlighted code `h`.
pub open spec fn code_block_html(h: Seq<char>) -> Seq<char> {
    "<div class='code'>"@
        + "<button class='i-lucide-copy transition w-4 h-4 select-none absolute top-4 right-2 op-20 hover:op-80'></button>"@
        + h + "</div>"@
}

pub fn render_code_block(h: &str) -> (r: String)
    ensures
        r@ == code_block_html(h@),
{
    let mut r = String::from_str("<div class='code'>");
    r.append(
        "<button class='i-lucide-copy transition w-4 h-4 select-none absolute top-4 right-2 op-20 hover:op-80'></button>",
    );
    r.append(h);
    r.append("</div>");
    r
}

/// The source of an image as served: a source starting with `..` has those
/// two characters replaced by the documentation root of `locale` and
/// `context`.
pub open spec fn image_src_of(src: Seq<char>, locale: Seq<char>, context: Seq<char>) -> Seq<char> {
    if src.len() >= 2 && src[0] == '.' && src[1] == '.' {
        "/docs/"@ + locale + "/"@ + context + src.skip(2)
    } else {
        src
    }
}

pub fn image_src(src: &str, locale: &str, context: &str) -> (r: String)
    ensures
        r@ == image_src_of(src@, locale@, context@),
{
    let cs = chars_of(src);
    if cs.len() >= 2 && cs[0] == '.' && cs[1] == '.' {
        let mut r = String::from_str("/docs/");
        r.append(locale);
        r.append("/");
        r.append(context);
        let ghost start = r@;
        let mut i: usize = 2;
        while i < cs.len()
            invariant
                2 <= i <= cs@.len(),
                cs@ == src@,
                r@ == start + cs@.subrange(2, i as int),
            decreases cs@.len() - i,
        {
            push_char(&mut r, cs[i]);
            assert(cs@.subrange(2, i + 1) =~= cs@.subrange(2, i as int).push(cs@[i as int]));
            i = i + 1;
        }
        assert(cs@.subrange(2, cs@.len() as int) =~= src@.skip(2));
        r
    } else {
        String::from_str(src)
    }
}

/// An image tag.
pub open spec fn img_html(alt: Seq<char>, src: Seq<char>) -> Seq<char> {
    "<img alt='"@ + alt + "' src='"@ + src + "' />"@
}

pub fn render_img(alt: &str, src: &str) -> (r: String)
    ensures
        r@ == img_html(alt@, src@),
{
    let mut r = String::from_str("<img alt='");
    r.append(alt);
    r.append("' src='");
    r.append(src);
    r.append("' />");
    r
}

/// What pulldown-cmark's `push_html` writes for the Markdown text `s`.
pub uninterp spec fn inline_html_of(s: Seq<char>) -> Seq<char>;

/// Relies on pulldown_cmark's `Parser::new` and `html::push_html`: the
/// Markdown text `s` rendered as HTML.
#[verifier::external_body]
fn markdown_to_html(s: &str) -> (r: String)
    ensures
        r@ == inline_html_of(s@),
{
    let mut r = String::new();
    push_html(&mut r, MarkdownParser::new(s));
    r
}

/// `s` without the copies of `p` that it starts with.
pub open spec fn strip_leading(s: Seq<char>, p: Seq<char>) -> Seq<char>
    decreases s.len(),
{
    if p.len() > 0 && s.len() >= p.len() && s.take(p.len() as int) == p {
        strip_leading(s.skip(p.len() as int), p)
    } else {
        s
    }
}

/// `s` without the copies of `p` that it ends with.
pub open spec fn strip_trailing(s: Seq<char>, p: Seq<char>) -> Seq<char>
    decreases s.len(),
{
    if p.len() > 0 && s.len() >= p.len() && s.skip(s.len() - p.len()) == p {
        strip_trailing(s.take(s.len() - p.len()), p)
    } else {
        s
    }
}

/// `s[at..at + p.len()] == p`.
fn matches_at(s: &Vec<char>, at: usize, p: &Vec<char>) -> (r: bool)
    requires
        at <= s@.len(),
    ensures
        r == (at + p@.len() <= s@.len() && s@.subrange(at as int, at + p@.len()) == p@),
{
    if p.len() > s.len() - at {
        return false;
    }
    let mut k: usize = 0;
    while k < p.len()
        invariant
            at + p@.len() <= s@.len(),
            s@.len() <= usize::MAX,
            k <= p@.len(),
            forall|j: int| 0 <= j < k ==> s@[at + j] == p@[j],
        decreases p@.len() - k,
    {
        assert(at + k < s@.len());
        if s[at + k] != p[k] {
            assert(s@.subrange(at as int, at + p@.len())[k as int] != p@[k as int]);
            return false;
        }
        k = k + 1;
    }
    assert(s@.subrange(at as int, at + p@.len()) =~= p@);
    true
}

/// The HTML of an inline code span whose text is `t`: the text rendered as
/// Markdown, without the paragraph around it, inside `<code>`.
pub open spec fn code_span_html(t: Seq<char>) -> Seq<char> {
    "<code>"@ + strip_trailing(trim_of(strip_leading(inline_html_of(t), "<p>"@)), "</p>"@)
        + "</code>"@
}

fn chars_to_string(cs: &Vec<char>, lo: usize, hi: usize) -> (r: String)
    requires
        lo <= hi <= cs@.len(),
    ensures
        r@ == cs@.subrange(lo as int, hi as int),
{
    let mut r = String::new();
    let mut i: usize = lo;
    while i < hi
        invariant
            lo <= i <= hi,
            hi <= cs@.len(),
            r@ == cs@.subrange(lo as int, i as int),
        decreases hi - i,
    {
        push_char(&mut r, cs[i]);
        assert(cs@.subrange(lo as int, i + 1) =~= cs@.subrange(lo as int, i as int).push(
            cs@[i as int],
        ));
        i = i + 1;
    }
    r
}

pub fn render_code_span(t: &str) -> (r: String)
    ensures
        r@ == code_span_html(t@),
{
    let html = markdown_to_html(t);
    let cs = chars_of(html.as_str());
    let open_p = chars_of("<p>");
    let close_p = chars_of("</p>");
    let total: usize = cs.len();
    let mut lo: usize = 0;
    assert(cs@.subrange(0, cs@.len() as int) =~= cs@);
    while open_p.len() > 0 && matches_at(&cs, lo, &open_p)
        invariant
            lo <= cs@.len(),
            cs@.len() <= usize::MAX,
            open_p@ == "<p>"@,
            strip_leading(cs@.subrange(lo as int, cs@.len() as int), open_p@) == strip_leading(
                cs@,
                open_p@,
            ),
        decreases cs@.len() - lo,
    {
        let ghost t = cs@.subrange(lo as int, cs@.len() as int);
        assert(t.take(open_p@.len() as int) =~= cs@.subrange(lo as int, lo + open_p@.len()));
        assert(t.skip(open_p@.len() as int) =~= cs@.subrange(lo + open_p@.len(), cs@.len() as int));
        assert(lo + open_p@.len() <= cs@.len());
        lo = lo + open_p.len();
    }
    proof {
        let t = cs@.subrange(lo as int, cs@.len() as int);
        if open_p@.len() > 0 && t.len() >= open_p@.len() && t.take(open_p@.len() as int) == open_p@ {
            assert(t.take(open_p@.len() as int) =~= cs@.subrange(lo as int, lo + open_p@.len()));
        }
    }
    let rest = chars_to_string(&cs, lo, total);
    let trimmed = trim(rest.as_str());
    let ts = chars_of(trimmed.as_str());
    let mut hi: usize = ts.len();
    assert(ts@.subrange(0, hi as int) =~= ts@);
    while close_p.len() > 0 && hi >= close_p.len() && matches_at(&ts, hi - close_p.len(), &close_p)
        invariant
            hi <= ts@.len(),
            close_p@ == "</p>"@,
            strip_trailing(ts@.subrange(0, hi as int), close_p@) == strip_trailing(
                trim_of(strip_leading(inline_html_of(t@), "<p>"@)),
                close_p@,
            ),
        decreases hi,
    {
        let ghost u = ts@.subrange(0, hi as int);
        assert(u.skip(u.len() - close_p@.len()) =~= ts@.subrange(hi - close_p@.len(), hi as int));
        assert(u.take(u.len() - close_p@.len()) =~= ts@.subrange(0, hi - close_p@.len()));
        hi = hi - close_p.len();
    }
    proof {
        let u = ts@.subrange(0, hi as int);
        if close_p@.len() > 0 && u.len() >= close_p@.len() && u.skip(u.len() - close_p@.len())
            == close_p@ {
            assert(u.skip(u.len() - close_p@.len()) =~= ts@.subrange(
                hi - close_p@.len(),
                hi as int,
            ));
        }
    }
    let inner = chars_to_string(&ts, 0, hi);
    let mut r = String::from_str("<code>");
    r.append(inner.as_str());
    r.append("</code>");
    r
}

} // verus!
