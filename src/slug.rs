//! Heading anchors: the id derived from a heading's text.
use vstd::prelude::*;
use crate::text::{chars_of, push_char};

verus! {

/// What `str::trim` returns for `s`.
pub uninterp spec fn trim_of(s: Seq<char>) -> Seq<char>;

/// What `str::to_lowercase` returns for `s`.
pub uninterp spec fn lower_of(s: Seq<char>) -> Seq<char>;

/// Relies on `str::trim`: the text without leading and trailing whitespace.
#[verifier::external_body]
pub(crate) fn trim(s: &str) -> (r: String)
    ensures
        r@ == trim_of(s@),
{
    s.trim().to_string()
}

/// Relies on `str::to_lowercase`: the lowercase form of the text. `?`,
/// `!`, `？` and `！` have no lowercase mapping and are neither cased nor
/// case-ignorable, so one of them at the end stays there and leaves the
/// rest, final sigma included, as it would be without it.
#[verifier::external_body]
pub(crate) fn to_lowercase(s: &str) -> (r: String)
    ensures
        r@ == lower_of(s@),
        s@.len() > 0 && is_trailing_symbol(s@.last()) ==> r@ == lower_of(s@.drop_last()) + seq![
            s@.last(),
        ],
{
    s.to_lowercase()
}

/// The characters dropped from the end of an anchor.
pub open spec fn is_trailing_symbol(c: char) -> bool {
    c == '?' || c == '!' || c == '？' || c == '！'
}

/// Spaces become hyphens and parentheses are dropped.
pub open spec fn hyphenate(s: Seq<char>) -> Seq<char>
    decreases s.len(),
{
    if s.len() == 0 {
        Seq::empty()
    } else {
        let rest = hyphenate(s.drop_last());
        let c = s.last();
        if c == ' ' {
            rest.push('-')
        } else if c == '(' || c == ')' {
            rest
        } else {
            rest.push(c)
        }
    }
}

/// `s` without its trailing symbols.
pub open spec fn trim_trailing_symbols(s: Seq<char>) -> Seq<char>
    decreases s.len(),
{
    if s.len() > 0 && is_trailing_symbol(s.last()) {
        trim_trailing_symbols(s.drop_last())
    } else {
        s
    }
}

/// The anchor of a heading whose lowercased, trimmed text is `lowered`.
pub open spec fn anchor_of(lowered: Seq<char>) -> Seq<char> {
    trim_trailing_symbols(hyphenate(lowered))
}

/// The anchor of a heading with the text `text`.
pub open spec fn heading_anchor(text: Seq<char>) -> Seq<char> {
    anchor_of(lower_of(trim_of(text)))
}

proof fn lemma_hyphenate_push(s: Seq<char>, c: char)
    ensures
        hyphenate(s.push(c)) == if c == ' ' {
            hyphenate(s).push('-')
        } else if c == '(' || c == ')' {
            hyphenate(s)
        } else {
            hyphenate(s).push(c)
        },
{
    assert(s.push(c).drop_last() =~= s);
}

/// The anchor of already lowercased text: spaces become hyphens,
/// parentheses are dropped, and trailing `?`, `!`, `？`, `！` are removed.
pub fn anchor_from_lowered(lowered: &str) -> (r: String)
    ensures
        r@ == anchor_of(lowered@),
{
    let cs = chars_of(lowered);
    let mut h: Vec<char> = Vec::new();
    let mut i: usize = 0;
    while i < cs.len()
        invariant
            i <= cs@.len(),
            cs@ == lowered@,
            h@ == hyphenate(cs@.take(i as int)),
        decreases cs@.len() - i,
    {
        let c = cs[i];
        proof {
            lemma_hyphenate_push(cs@.take(i as int), c);
            assert(cs@.take(i as int).push(c) =~= cs@.take(i + 1));
        }
        if c == ' ' {
            h.push('-');
        } else if c == '(' || c == ')' {
        } else {
            h.push(c);
        }
        i = i + 1;
    }
    assert(cs@.take(cs@.len() as int) =~= cs@);
    let mut n: usize = h.len();
    assert(h@.take(n as int) =~= h@);
    while n > 0 && (h[n - 1] == '?' || h[n - 1] == '!' || h[n - 1] == '？' || h[n - 1] == '！')
        invariant
            n <= h@.len(),
            trim_trailing_symbols(h@.take(n as int)) == anchor_of(lowered@),
        decreases n,
    {
        assert(h@.take(n as int).drop_last() =~= h@.take(n - 1));
        n = n - 1;
    }
    let mut r = String::new();
    let mut k: usize = 0;
    while k < n
        invariant
            n <= h@.len(),
            k <= n,
            r@ == h@.take(k as int),
            trim_trailing_symbols(h@.take(n as int)) == h@.take(n as int),
            h@.take(n as int) == anchor_of(lowered@),
        decreases n - k,
    {
        push_char(&mut r, h[k]);
        assert(h@.take(k as int).push(h@[k as int]) =~= h@.take(k + 1));
        k = k + 1;
    }
    r
}

/// The anchor of a heading with the text `text`, together with the trimmed
/// text that the heading displays.
pub fn heading_anchor_of(text: &str) -> (r: (String, String))
    ensures
        r.0@ == trim_of(text@),
        r.1@ == heading_anchor(text@),
        trim_of(text@).len() > 0 && is_trailing_symbol(trim_of(text@).last()) ==> r.1@ == anchor_of(
            lower_of(trim_of(text@).drop_last()),
        ),
        !(r.1@.len() > 0 && is_trailing_symbol(r.1@.last())),
{
    let name = trim(text);
    let lowered = to_lowercase(name.as_str());
    let id = anchor_from_lowered(lowered.as_str());
    proof {
        lemma_trailing_symbol_dropped(lowered@);
        if name@.len() > 0 && is_trailing_symbol(name@.last()) {
            assert(lowered@.drop_last() =~= lower_of(name@.drop_last()));
        }
    }
    (name, id)
}

/// A heading whose lowercased text ends in `?`, `!`, `？` or `！` gets the
/// anchor of the text without that character, and no anchor ends in one of
/// them.
pub proof fn lemma_trailing_symbol_dropped(lowered: Seq<char>)
    ensures
        lowered.len() > 0 && is_trailing_symbol(lowered.last()) ==> anchor_of(lowered) == anchor_of(
            lowered.drop_last(),
        ),
        !(anchor_of(lowered).len() > 0 && is_trailing_symbol(anchor_of(lowered).last())),
{
    lemma_trim_trailing_ends(hyphenate(lowered));
    if lowered.len() > 0 && is_trailing_symbol(lowered.last()) {
        assert(lowered == lowered.drop_last().push(lowered.last()));
        lemma_hyphenate_push(lowered.drop_last(), lowered.last());
        assert(hyphenate(lowered).drop_last() =~= hyphenate(lowered.drop_last()));
    }
}

proof fn lemma_trim_trailing_ends(s: Seq<char>)
    ensures
        !(trim_trailing_symbols(s).len() > 0 && is_trailing_symbol(
            trim_trailing_symbols(s).last(),
        )),
    decreases s.len(),
{
    if s.len() > 0 && is_trailing_symbol(s.last()) {
        lemma_trim_trailing_ends(s.drop_last());
    }
}

} // verus!
