//! The grammar registry: one highlighting grammar per language tag, and the
//! rendering of a code block as HTML.
use vstd::prelude::*;
use tree_sitter_highlight::{HighlightConfiguration, Highlighter, HtmlRenderer};
use crate::text::chars_of;

verus! {

#[verifier::external_type_specification]
#[verifier::external_body]
pub struct ExHighlightConfiguration(HighlightConfiguration);

/// The escaped form of one character.
pub open spec fn escape_char(c: char) -> Seq<char> {
    if c == '&' {
        seq!['&', 'a', 'm', 'p', ';']
    } else if c == '<' {
        seq!['&', 'l', 't', ';']
    } else if c == '>' {
        seq!['&', 'g', 't', ';']
    } else if c == '"' {
        seq!['&', 'q', 'u', 'o', 't', ';']
    } else if c == '\'' {
        seq!['&', '#', '3', '9', ';']
    } else {
        seq![c]
    }
}

/// `s` with `&`, `<`, `>`, `"` and `'` written as HTML character references.
pub open spec fn escape_html(s: Seq<char>) -> Seq<char>
    decreases s.len(),
{
    if s.len() == 0 {
        Seq::empty()
    } else {
        escape_html(s.drop_last()) + escape_char(s.last())
    }
}

/// The HTML-escaped form of `s`.
pub fn escape(s: &str) -> (r: String)
    ensures
        r@ == escape_html(s@),
{
    let cs = chars_of(s);
    let mut r = String::new();
    let mut i: usize = 0;
    while i < cs.len()
        invariant
            i <= cs@.len(),
            cs@ == s@,
            r@ == escape_html(cs@.take(i as int)),
        decreases cs@.len() - i,
    {
        let c = cs[i];
        proof {
            reveal_strlit("&amp;");
            reveal_strlit("&lt;");
            reveal_strlit("&gt;");
            reveal_strlit("&quot;");
            reveal_strlit("&#39;");
            assert(cs@.take(i + 1).drop_last() =~= cs@.take(i as int));
        }
        if c == '&' {
            r.append("&amp;");
        } else if c == '<' {
            r.append("&lt;");
        } else if c == '>' {
            r.append("&gt;");
        } else if c == '"' {
            r.append("&quot;");
        } else if c == '\'' {
            r.append("&#39;");
        } else {
            crate::text::push_char(&mut r, c);
        }
        assert(r@ =~= escape_html(cs@.take(i + 1)));
        i = i + 1;
    }
    assert(cs@.take(cs@.len() as int) =~= cs@);
    r
}

/// The highlight names that grammars are configured with, in order.
pub open spec fn highlight_names() -> Seq<Seq<char>> {
    seq![
        "attribute"@,
        "comment"@,
        "constant"@,
        "constant.builtin"@,
        "constructor"@,
        "embedded"@,
        "escape"@,
        "function"@,
        "function.builtin"@,
        "function.method"@,
        "keyword"@,
        "label"@,
        "number"@,
        "operator"@,
        "property"@,
        "punctuation"@,
        "punctuation.bracket"@,
        "punctuation.delimiter"@,
        "punctuation.special"@,
        "string"@,
        "string.special"@,
        "tag"@,
        "type"@,
        "type.builtin"@,
        "variable"@,
        "variable.builtin"@,
    ]
}

/// The highlight names that grammars are configured with; a highlighted span
/// of name `n` gets the CSS classes of `n` with its dots read as spaces.
pub fn capture_names() -> (r: Vec<&'static str>)
    ensures
        r@.map_values(|s: &'static str| s@) == highlight_names(),
{
    let r = vec![
        "attribute",
        "comment",
        "constant",
        "constant.builtin",
        "constructor",
        "embedded",
        "escape",
        "function",
        "function.builtin",
        "function.method",
        "keyword",
        "label",
        "number",
        "operator",
        "property",
        "punctuation",
        "punctuation.bracket",
        "punctuation.delimiter",
        "punctuation.special",
        "string",
        "string.special",
        "tag",
        "type",
        "type.builtin",
        "variable",
        "variable.builtin",
    ];
    assert(r@.map_values(|s: &'static str| s@) =~= highlight_names());
    r
}

/// `name` with each `.` replaced by a space.
pub open spec fn class_list(name: Seq<char>) -> Seq<char>
    decreases name.len(),
{
    if name.len() == 0 {
        Seq::empty()
    } else {
        class_list(name.drop_last()).push(
            if name.last() == '.' {
                ' '
            } else {
                name.last()
            },
        )
    }
}

/// `class='…'` for a highlight name.
pub open spec fn class_attribute_of(name: Seq<char>) -> Seq<char> {
    seq!['c', 'l', 'a', 's', 's', '=', '\''] + class_list(name) + seq!['\'']
}

/// The attribute of a span of the highlight name `name`.
pub fn class_attribute(name: &str) -> (r: String)
    ensures
        r@ == class_attribute_of(name@),
{
    let cs = chars_of(name);
    let mut r = String::new();
    r.append("class='");
    proof {
        reveal_strlit("class='");
        reveal_strlit("'");
    }
    let ghost start = r@;
    let mut i: usize = 0;
    while i < cs.len()
        invariant
            i <= cs@.len(),
            cs@ == name@,
            start == seq!['c', 'l', 'a', 's', 's', '=', '\''],
            r@ == start + class_list(cs@.take(i as int)),
        decreases cs@.len() - i,
    {
        let c = cs[i];
        assert(cs@.take(i + 1).drop_last() =~= cs@.take(i as int));
        if c == '.' {
            crate::text::push_char(&mut r, ' ');
        } else {
            crate::text::push_char(&mut r, c);
        }
        assert(r@ =~= start + class_list(cs@.take(i + 1)));
        i = i + 1;
    }
    assert(cs@.take(cs@.len() as int) =~= cs@);
    r.append("'");
    r
}

/// The attribute of a span of the `index`-th highlight name, empty where
/// there is none.
pub fn highlight_attribute(index: usize) -> (r: String)
    ensures
        r@ == if index < highlight_names().len() {
            class_attribute_of(highlight_names()[index as int])
        } else {
            Seq::empty()
        },
{
    let names = capture_names();
    if index < names.len() {
        assert(names@.map_values(|s: &'static str| s@)[index as int] == names@[index as int]@);
        class_attribute(names[index])
    } else {
        String::new()
    }
}

/// `s` read with every tag `<…>` left out.
pub open spec fn strip_tags_from(s: Seq<char>, inside: bool) -> Seq<char>
    decreases s.len(),
{
    if s.len() == 0 {
        Seq::empty()
    } else if inside {
        strip_tags_from(s.skip(1), s[0] != '>')
    } else if s[0] == '<' {
        strip_tags_from(s.skip(1), true)
    } else {
        seq![s[0]] + strip_tags_from(s.skip(1), false)
    }
}

pub open spec fn strip_tags(s: Seq<char>) -> Seq<char> {
    strip_tags_from(s, false)
}

/// `s` without carriage returns.
pub open spec fn drop_cr(s: Seq<char>) -> Seq<char> {
    s.filter(|c: char| c != '\r')
}

/// `h` shows the code `source`: without its span tags it is the escaped
/// code, carriage returns left out, with a line feed added where the output
/// would not end in one.
pub open spec fn shows_code(h: Seq<char>, source: Seq<char>) -> bool {
    strip_tags(h) == escape_html(drop_cr(source)) || strip_tags(h) == escape_html(drop_cr(source))
        + seq!['\n']
}

/// Relies on tree_sitter_highlight's `Highlighter::highlight` and
/// `HtmlRenderer::render`, with no injections and no carriage-return
/// highlight: the source as HTML, each character escaped as `escape_char`
/// does, carriage returns dropped, spans (whose attributes hold no `>`)
/// closed and reopened at line feeds, and a line feed added where the output
/// does not end in one; `None` where highlighting fails.
#[verifier::external_body]
fn render_with(grammar: &HighlightConfiguration, source: &str) -> (r: Option<String>)
    ensures
        r.is_some() ==> shows_code(r.unwrap()@, source@),
{
    let source = source.as_bytes();
    let mut highlighter = Highlighter::new();
    let events = highlighter.highlight(grammar, source, None, None, |_| None).ok()?;
    let mut renderer = HtmlRenderer::new();
    let attribute = |h: tree_sitter_highlight::Highlight, out: &mut Vec<u8>| {
        out.extend_from_slice(highlight_attribute(h.0).as_bytes())
    };
    renderer.render(events, source, &attribute).ok()?;
    String::from_utf8(renderer.html).ok()
}

/// What highlighting `source` may give: with a grammar, the highlighted
/// code or, where highlighting fails, the escaped code; without one, the
/// escaped code.
pub open spec fn highlights(has_grammar: bool, h: Seq<char>, source: Seq<char>) -> bool {
    if has_grammar {
        shows_code(h, source) || h == escape_html(source)
    } else {
        h == escape_html(source)
    }
}

/// The registered language tags and their grammars, at most one grammar per
/// tag.
pub struct Languages {
    tags: Vec<String>,
    grammars: Vec<HighlightConfiguration>,
}

impl Languages {
    /// The registered tags, in order of registration.
    pub closed spec fn tags(&self) -> Seq<Seq<char>> {
        self.tags@.map_values(|t: String| t@)
    }

    pub closed spec fn wf(&self) -> bool {
        &&& self.tags@.len() == self.grammars@.len()
        &&& forall|i: int, j: int|
            0 <= i < j < self.tags@.len() ==> self.tags@[i]@ != self.tags@[j]@
    }

    /// `tag` has a grammar.
    pub open spec fn has(&self, tag: Seq<char>) -> bool {
        self.tags().contains(tag)
    }

    /// An empty registry.
    pub fn new() -> (r: Languages)
        ensures
            r.wf(),
            r.tags() == Seq::<Seq<char>>::empty(),
    {
        let r = Languages { tags: Vec::new(), grammars: Vec::new() };
        assert(r.tags() =~= Seq::<Seq<char>>::empty());
        r
    }

    fn position(&self, tag: &str) -> (r: Option<usize>)
        requires
            self.wf(),
        ensures
            match r {
                Some(i) => i < self.tags@.len() && self.tags@[i as int]@ == tag@ && self.has(tag@),
                None => !self.has(tag@),
            },
    {
        let key = String::from_str(tag);
        let mut i: usize = 0;
        while i < self.tags.len()
            invariant
                i <= self.tags@.len(),
                key@ == tag@,
                forall|j: int| 0 <= j < i ==> self.tags@[j]@ != tag@,
            decreases self.tags@.len() - i,
        {
            if self.tags[i] == key {
                assert(self.tags()[i as int] == tag@);
                return Some(i);
            }
            i = i + 1;
        }
        assert forall|k: int| 0 <= k < self.tags().len() implies self.tags()[k] != tag@ by {}
        None
    }

    /// Registers `grammar` for `tag`, in place of the grammar that `tag` had.
    pub fn insert(&mut self, tag: &str, grammar: HighlightConfiguration)
        requires
            old(self).wf(),
        ensures
            final(self).wf(),
            final(self).tags() == if old(self).has(tag@) {
                old(self).tags()
            } else {
                old(self).tags().push(tag@)
            },
    {
        match self.position(tag) {
            Some(i) => {
                self.grammars.set(i, grammar);
            },
            None => {
                self.tags.push(String::from_str(tag));
                self.grammars.push(grammar);
                assert(self.tags() =~= old(self).tags().push(tag@));
                assert forall|i: int, j: int|
                    0 <= i < j < self.tags@.len() implies self.tags@[i]@ != self.tags@[j]@ by {
                    if j == self.tags@.len() - 1 {
                        assert(old(self).tags()[i] == self.tags@[i]@);
                    }
                }
            },
        }
    }

    /// The highlighted HTML of `source` under the grammar of `tag`; `None`
    /// where `tag` has no grammar or highlighting fails.
    pub fn render(&self, tag: &str, source: &str) -> (r: Option<String>)
        requires
            self.wf(),
        ensures
            !self.has(tag@) ==> r.is_none(),
            r.is_some() ==> shows_code(r.unwrap()@, source@),
    {
        match self.position(tag) {
            Some(i) => render_with(&self.grammars[i], source),
            None => None,
        }
    }

    /// The highlighted HTML of `source` under the grammar of `tag`, or its
    /// escaped text where `tag` has no grammar or highlighting fails.
    pub fn highlight(&self, tag: &str, source: &str) -> (r: String)
        requires
            self.wf(),
        ensures
            highlights(self.has(tag@), r@, source@),
    {
        match self.render(tag, source) {
            Some(h) => h,
            None => escape(source),
        }
    }
}

} // verus!
