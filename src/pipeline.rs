//! The decisions of the tree walk: which files are read, what becomes of
//! each, where it is written, and the minified bytes that are written.
use vstd::prelude::*;
use std::cmp::Ordering;
use globset::GlobBuilder;
use crate::slug::{lower_of, to_lowercase};
use crate::text::chars_of;
use crate::toc::is_segment;
use vstd::string::StringSliceAdditionalSpecFns;

verus! {

/// What a source file is.
#[derive(Clone, Copy, Debug, PartialEq, Eq, Structural)]
pub enum FileKind {
    /// A table of contents, read and written minified.
    Toc,
    /// An image, copied byte for byte.
    Image,
    /// A Markdown document, compiled to HTML.
    Markdown,
}

/// The kind of a file with the extension `ext`: `json` is a table of
/// contents, `png` and `jpg` are images, anything else is Markdown.
pub open spec fn kind_of(ext: Seq<char>) -> FileKind {
    if ext == "json"@ {
        FileKind::Toc
    } else if ext == "png"@ || ext == "jpg"@ {
        FileKind::Image
    } else {
        FileKind::Markdown
    }
}

pub fn classify(ext: &str) -> (r: FileKind)
    ensures
        r == kind_of(ext@),
{
    let e = String::from_str(ext);
    if e == String::from_str("json") {
        FileKind::Toc
    } else if e == String::from_str("png") || e == String::from_str("jpg") {
        FileKind::Image
    } else {
        FileKind::Markdown
    }
}

/// The name that a source file of stem `stem`, extension `ext` and kind
/// `kind` is written under: Markdown becomes `.html`, other extensions are
/// lowercased.
pub open spec fn output_name_of(stem: Seq<char>, ext: Seq<char>, kind: FileKind) -> Seq<char> {
    match kind {
        FileKind::Markdown => stem + ".html"@,
        _ => stem + "."@ + lower_of(ext),
    }
}

pub fn output_name(stem: &str, ext: &str, kind: FileKind) -> (r: String)
    ensures
        r@ == output_name_of(stem@, ext@, kind),
{
    let mut r = String::from_str(stem);
    match kind {
        FileKind::Markdown => {
            r.append(".html");
        },
        _ => {
            r.append(".");
            let lowered = to_lowercase(ext);
            r.append(lowered.as_str());
        },
    }
    r
}

/// The first two `/`-separated components of `parent` are `version` and
/// `section`.
pub open spec fn address_of(parent: Seq<char>, version: Seq<char>, section: Seq<char>) -> bool {
    &&& is_segment(version)
    &&& is_segment(section)
    &&& (parent == version + seq!['/'] + section || exists|rest: Seq<char>|
        parent == version + seq!['/'] + section + seq!['/'] + rest)
}

/// The end of the component of `s` that starts at `from`.
fn segment_end(s: &Vec<char>, from: usize) -> (r: usize)
    requires
        from <= s@.len(),
    ensures
        from <= r <= s@.len(),
        forall|k: int| from <= k < r ==> s@[k] != '/',
        r < s@.len() ==> s@[r as int] == '/',
{
    let mut k: usize = from;
    while k < s.len() && s[k] != '/'
        invariant
            from <= k <= s@.len(),
            forall|j: int| from <= j < k ==> s@[j] != '/',
        decreases s@.len() - k,
    {
        k = k + 1;
    }
    k
}

fn chars_between(s: &Vec<char>, lo: usize, hi: usize) -> (r: String)
    requires
        lo <= hi <= s@.len(),
    ensures
        r@ == s@.subrange(lo as int, hi as int),
{
    let mut r = String::new();
    let mut i: usize = lo;
    while i < hi
        invariant
            lo <= i <= hi,
            hi <= s@.len(),
            r@ == s@.subrange(lo as int, i as int),
        decreases hi - i,
    {
        crate::text::push_char(&mut r, s[i]);
        assert(s@.subrange(lo as int, i + 1) =~= s@.subrange(lo as int, i as int).push(
            s@[i as int],
        ));
        i = i + 1;
    }
    r
}

/// The version and section of a document whose directory, relative to the
/// source root, is `parent`; `None` where `parent` has fewer than two
/// components.
pub fn split_address(parent: &str) -> (r: Option<(String, String)>)
    ensures
        match r {
            Some((version, section)) => address_of(parent@, version@, section@),
            None => forall|k: int| 0 <= k < parent@.len() ==> parent@[k] != '/',
        },
{
    let cs = chars_of(parent);
    let first = segment_end(&cs, 0);
    if first == cs.len() {
        return None;
    }
    let second = segment_end(&cs, first + 1);
    let version = chars_between(&cs, 0, first);
    let section = chars_between(&cs, first + 1, second);
    proof {
        if second == cs@.len() {
            assert(parent@ =~= version@ + seq!['/'] + section@);
        } else {
            let rest = cs@.subrange(second + 1, cs@.len() as int);
            assert(parent@ =~= version@ + seq!['/'] + section@ + seq!['/'] + rest);
        }
    }
    Some((version, section))
}

/// What globset's matcher for `pattern`, with `/` matched literally, says
/// of `path`, for a pattern and a path without a backslash; `None` where `pattern`
/// is not a glob.
pub uninterp spec fn glob_result_of(pattern: Seq<char>, path: Seq<char>) -> Option<bool>;

/// No backslash in `s`. globset reads a backslash in a path as a separator
/// on some platforms, and in a pattern as an escape on others.
pub open spec fn no_backslash(s: Seq<char>) -> bool {
    forall|k: int| 0 <= k < s.len() ==> s[k] != '\\'
}

/// Relies on globset's `GlobBuilder` with `literal_separator(true)` and
/// `GlobMatcher::is_match`, whose answer is the same on every platform where
/// neither the pattern nor the path holds a backslash.
#[verifier::external_body]
fn glob_matches(pattern: &str, path: &str) -> (r: Option<bool>)
    ensures
        no_backslash(pattern@) && no_backslash(path@) ==> r == glob_result_of(pattern@, path@),
{
    let glob = GlobBuilder::new(pattern).literal_separator(true).build().ok()?;
    Some(glob.compile_matcher().is_match(path))
}

/// The files that the tree walk reads.
pub open spec fn source_pattern() -> Seq<char> {
    "**/*.{json,md,png,jpg}"@
}

/// `path` is a table of contents, a Markdown document or an image.
pub fn is_source_path(path: &str) -> (r: bool)
    ensures
        no_backslash(path@) ==> r == (glob_result_of(source_pattern(), path@) == Some(true)),
{
    proof {
        reveal_strlit("**/*.{json,md,png,jpg}");
    }
    assert(no_backslash(source_pattern()));
    match glob_matches("**/*.{json,md,png,jpg}", path) {
        Some(b) => b,
        None => false,
    }
}

/// What minify-html writes for `src` with `keep_closing_tags` set as given
/// and its other options off.
pub uninterp spec fn minified_of(src: Seq<u8>, keep_closing_tags: bool) -> Seq<u8>;

/// Relies on `minify_html::minify` with a `Cfg` that sets only
/// `keep_closing_tags`; scripts are not minified, so minify-js is never
/// reached.
#[verifier::external_body]
fn minify(src: &[u8], keep_closing_tags: bool) -> (r: Vec<u8>)
    ensures
        r@ == minified_of(src@, keep_closing_tags),
{
    let mut cfg = minify_html::Cfg::new();
    cfg.keep_closing_tags = keep_closing_tags;
    minify_html::minify(src, &cfg)
}

/// The bytes written for a compiled document: minified, closing tags kept.
pub fn minify_document(html: &str) -> (r: Vec<u8>)
    ensures
        r@ == minified_of(html.spec_bytes(), true),
{
    minify(html.as_bytes(), true)
}

/// The bytes written for a table of contents: minified.
pub fn minify_toc(raw: &str) -> (r: Vec<u8>)
    ensures
        r@ == minified_of(raw.spec_bytes(), false),
{
    minify(raw.as_bytes(), false)
}

/// The order in which the walk visits two entries of one directory: files
/// before directories, and otherwise as they stand.
pub open spec fn visit_order_of(a_is_file: bool, b_is_file: bool) -> Ordering {
    if a_is_file && !b_is_file {
        Ordering::Less
    } else if !a_is_file && b_is_file {
        Ordering::Greater
    } else {
        Ordering::Equal
    }
}

pub fn visit_order(a_is_file: bool, b_is_file: bool) -> (r: Ordering)
    ensures
        r == visit_order_of(a_is_file, b_is_file),
{
    if a_is_file && !b_is_file {
        Ordering::Less
    } else if !a_is_file && b_is_file {
        Ordering::Greater
    } else {
        Ordering::Equal
    }
}

/// Visiting files first is an order: it is antisymmetric and transitive,
/// so a sort by it is well defined.
pub proof fn lemma_visit_order_is_an_order(a: bool, b: bool, c: bool)
    ensures
        visit_order_of(a, b) == Ordering::Less <==> visit_order_of(b, a) == Ordering::Greater,
        visit_order_of(a, b) == Ordering::Equal <==> visit_order_of(b, a) == Ordering::Equal,
        visit_order_of(a, b) == Ordering::Less && visit_order_of(b, c) == Ordering::Less
            ==> visit_order_of(a, c) == Ordering::Less,
        visit_order_of(a, b) != Ordering::Greater && visit_order_of(b, c) != Ordering::Greater
            ==> visit_order_of(a, c) != Ordering::Greater,
{
}

} // verus!
