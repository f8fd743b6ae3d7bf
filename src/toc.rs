//! The table of contents of one documentation tree, and the previous/next
//! navigation between its entries.
use vstd::prelude::*;

verus! {

/// One section of the table of contents: a title, the path segment shared by
/// its entries, and its entries as `(title, slug)` pairs in reading order.
#[derive(Clone, Debug, PartialEq)]
pub struct Section {
    pub text: String,
    pub prefix: String,
    pub items: Vec<(String, String)>,
}

/// A navigation target: the title of an entry and the link to it.
pub type NavLink = (String, String);

/// The mathematical form of a navigation target.
pub type NavLinkView = (Seq<char>, Seq<char>);

pub open spec fn link_view(l: Option<NavLink>) -> Option<NavLinkView> {
    match l {
        Some(p) => Some((p.0@, p.1@)),
        None => None,
    }
}

/// `path/prefix/slug`.
pub open spec fn join_link(path: Seq<char>, prefix: Seq<char>, slug: Seq<char>) -> Seq<char> {
    path + seq!['/'] + prefix + seq!['/'] + slug
}

/// The navigation target of entry `i` of section `p`.
pub open spec fn entry_link(toc: Seq<Section>, path: Seq<char>, p: int, i: int) -> NavLinkView {
    (toc[p].items@[i].0@, join_link(path, toc[p].prefix@, toc[p].items@[i].1@))
}

/// `p` is the first section whose prefix is `prefix`.
pub open spec fn is_first_section(toc: Seq<Section>, prefix: Seq<char>, p: int) -> bool {
    &&& 0 <= p < toc.len()
    &&& toc[p].prefix@ == prefix
    &&& forall|q: int| 0 <= q < p ==> toc[q].prefix@ != prefix
}

/// `i` is the first entry of `items` whose slug is `slug`.
pub open spec fn is_first_item(items: Seq<(String, String)>, slug: Seq<char>, i: int) -> bool {
    &&& 0 <= i < items.len()
    &&& items[i].1@ == slug
    &&& forall|j: int| 0 <= j < i ==> items[j].1@ != slug
}

/// The lookup of `(prefix, slug)` lands on entry `i` of section `p`.
pub open spec fn locates(
    toc: Seq<Section>,
    prefix: Seq<char>,
    slug: Seq<char>,
    p: int,
    i: int,
) -> bool {
    is_first_section(toc, prefix, p) && is_first_item(toc[p].items@, slug, i)
}

/// The entry before entry `i` of section `p`: the previous one in the same
/// section, else the last one of the previous section, else none.
pub open spec fn prev_of(toc: Seq<Section>, path: Seq<char>, p: int, i: int) -> Option<NavLinkView> {
    if i > 0 {
        Some(entry_link(toc, path, p, i - 1))
    } else if p > 0 && toc[p - 1].items@.len() > 0 {
        Some(entry_link(toc, path, p - 1, toc[p - 1].items@.len() - 1))
    } else {
        None
    }
}

/// The entry after entry `i` of section `p`: the next one in the same
/// section, else the first one of the next section, else none.
pub open spec fn next_of(toc: Seq<Section>, path: Seq<char>, p: int, i: int) -> Option<NavLinkView> {
    if i + 1 < toc[p].items@.len() {
        Some(entry_link(toc, path, p, i + 1))
    } else if p + 1 < toc.len() && toc[p + 1].items@.len() > 0 {
        Some(entry_link(toc, path, p + 1, 0))
    } else {
        None
    }
}

/// The position of the first section whose prefix is `prefix`.
pub fn find_section(toc: &Vec<Section>, prefix: &str) -> (r: Option<usize>)
    ensures
        match r {
            Some(p) => is_first_section(toc@, prefix@, p as int),
            None => forall|q: int| 0 <= q < toc@.len() ==> toc@[q].prefix@ != prefix@,
        },
{
    let key = String::from_str(prefix);
    let mut p: usize = 0;
    while p < toc.len()
        invariant
            p <= toc@.len(),
            key@ == prefix@,
            forall|q: int| 0 <= q < p ==> toc@[q].prefix@ != prefix@,
        decreases toc@.len() - p,
    {
        if toc[p].prefix == key {
            return Some(p);
        }
        p = p + 1;
    }
    None
}

/// The position of the first entry of `section` whose slug is `slug`.
pub fn find_item(section: &Section, slug: &str) -> (r: Option<usize>)
    ensures
        match r {
            Some(i) => is_first_item(section.items@, slug@, i as int),
            None => forall|j: int| 0 <= j < section.items@.len() ==> section.items@[j].1@ != slug@,
        },
{
    let key = String::from_str(slug);
    let mut i: usize = 0;
    while i < section.items.len()
        invariant
            i <= section.items@.len(),
            key@ == slug@,
            forall|j: int| 0 <= j < i ==> section.items@[j].1@ != slug@,
        decreases section.items@.len() - i,
    {
        if section.items[i].1 == key {
            return Some(i);
        }
        i = i + 1;
    }
    None
}

/// `path/prefix/slug` as a string.
pub fn make_link(path: &str, prefix: &str, slug: &str) -> (r: String)
    ensures
        r@ == join_link(path@, prefix@, slug@),
{
    let mut r = String::from_str(path);
    r.append("/");
    r.append(prefix);
    r.append("/");
    r.append(slug);
    proof {
        reveal_strlit("/");
    }
    r
}

fn entry_at(toc: &Vec<Section>, path: &str, p: usize, i: usize) -> (r: NavLink)
    requires
        p < toc@.len(),
        i < toc@[p as int].items@.len(),
    ensures
        (r.0@, r.1@) == entry_link(toc@, path@, p as int, i as int),
{
    let section = &toc[p];
    let item = &section.items[i];
    (item.0.clone(), make_link(path, section.prefix.as_str(), item.1.as_str()))
}

/// The previous and next entries around the entry `item_slug` of the section
/// `section_prefix`, linked under `path`. Both are absent when the entry is
/// not in the table of contents.
pub fn resolve(toc: &Vec<Section>, section_prefix: &str, item_slug: &str, path: &str) -> (r: (
    Option<NavLink>,
    Option<NavLink>,
))
    ensures
        forall|p: int, i: int|
            locates(toc@, section_prefix@, item_slug@, p, i) ==> link_view(r.0) == prev_of(
                toc@,
                path@,
                p,
                i,
            ) && link_view(r.1) == next_of(toc@, path@, p, i),
        !(exists|p: int, i: int| locates(toc@, section_prefix@, item_slug@, p, i)) ==> r.0.is_none()
            && r.1.is_none(),
{
    match find_section(toc, section_prefix) {
        None => (None, None),
        Some(p) => match find_item(&toc[p], item_slug) {
            None => {
                assert(forall|q: int, i: int| !locates(toc@, section_prefix@, item_slug@, q, i));
                (None, None)
            },
            Some(i) => {
                assert(locates(toc@, section_prefix@, item_slug@, p as int, i as int));
                let section = &toc[p];
                let prev = if i > 0 {
                    Some(entry_at(toc, path, p, i - 1))
                } else if p > 0 && toc[p - 1].items.len() > 0 {
                    Some(entry_at(toc, path, p - 1, toc[p - 1].items.len() - 1))
                } else {
                    None
                };
                let next = if section.items.len() - i > 1 {
                    Some(entry_at(toc, path, p, i + 1))
                } else if toc.len() - p > 1 && toc[p + 1].items.len() > 0 {
                    Some(entry_at(toc, path, p + 1, 0))
                } else {
                    None
                };
                (prev, next)
            },
        },
    }
}

/// No `/` in `s`.
pub open spec fn is_segment(s: Seq<char>) -> bool {
    forall|k: int| 0 <= k < s.len() ==> s[k] != '/'
}

/// A table of contents in which every entry can be found: section prefixes
/// are distinct path segments, slugs are distinct within their section, and
/// no section is empty.
pub open spec fn well_formed_toc(toc: Seq<Section>) -> bool {
    &&& forall|p: int, q: int| 0 <= p < q < toc.len() ==> toc[p].prefix@ != toc[q].prefix@
    &&& forall|p: int| 0 <= p < toc.len() ==> is_segment(#[trigger] toc[p].prefix@)
    &&& forall|p: int| 0 <= p < toc.len() ==> (#[trigger] toc[p].items@).len() > 0
    &&& forall|p: int, i: int, j: int|
        0 <= p < toc.len() && 0 <= i < j < toc[p].items@.len() ==> toc[p].items@[i].1@
            != toc[p].items@[j].1@
}

proof fn lemma_join_injective(path: Seq<char>, a: Seq<char>, b: Seq<char>, c: Seq<char>, d: Seq<char>)
    requires
        is_segment(a),
        is_segment(c),
        join_link(path, a, b) == join_link(path, c, d),
    ensures
        a == c,
        b == d,
{
    let x = path + seq!['/'];
    let u = a + seq!['/'] + b;
    let v = c + seq!['/'] + d;
    assert(join_link(path, a, b) =~= x + u);
    assert(join_link(path, c, d) =~= x + v);
    assert(u =~= (x + u).subrange(x.len() as int, (x + u).len() as int));
    assert(v =~= (x + v).subrange(x.len() as int, (x + v).len() as int));
    assert(u == v);
    if a.len() < c.len() {
        assert(u[a.len() as int] == '/');
        assert(v[a.len() as int] == c[a.len() as int]);
    } else if c.len() < a.len() {
        assert(v[c.len() as int] == '/');
        assert(u[c.len() as int] == a[c.len() as int]);
    }
    assert(a =~= u.subrange(0, a.len() as int));
    assert(c =~= v.subrange(0, c.len() as int));
    assert(b =~= u.subrange(a.len() as int + 1, u.len() as int));
    assert(d =~= v.subrange(c.len() as int + 1, v.len() as int));
}

proof fn lemma_entries_distinct(toc: Seq<Section>, path: Seq<char>, p: int, i: int, q: int, j: int)
    requires
        well_formed_toc(toc),
        0 <= p < toc.len(),
        0 <= i < toc[p].items@.len(),
        0 <= q < toc.len(),
        0 <= j < toc[q].items@.len(),
        p != q || i != j,
    ensures
        entry_link(toc, path, p, i) != entry_link(toc, path, q, j),
{
    assert(is_segment(toc[p].prefix@));
    assert(is_segment(toc[q].prefix@));
    if entry_link(toc, path, p, i) == entry_link(toc, path, q, j) {
        lemma_join_injective(
            path,
            toc[p].prefix@,
            toc[p].items@[i].1@,
            toc[q].prefix@,
            toc[q].items@[j].1@,
        );
        if p < q {
        } else if q < p {
        } else if i < j {
        } else {
        }
    }
}

/// In a well-formed table of contents every entry is found by its own
/// section prefix and slug; it has no previous entry exactly when it is the
/// first entry of the first section, and no next entry exactly when it is the
/// last entry of the last section; a previous or next entry that exists is
/// another entry than itself.
pub proof fn lemma_navigation_ends(toc: Seq<Section>, path: Seq<char>, p: int, i: int)
    requires
        well_formed_toc(toc),
        0 <= p < toc.len(),
        0 <= i < toc[p].items@.len(),
    ensures
        locates(toc, toc[p].prefix@, toc[p].items@[i].1@, p, i),
        prev_of(toc, path, p, i).is_none() <==> (p == 0 && i == 0),
        next_of(toc, path, p, i).is_none() <==> (p == toc.len() - 1 && i == toc[p].items@.len()
            - 1),
        prev_of(toc, path, p, i).is_some() ==> prev_of(toc, path, p, i).unwrap() != entry_link(
            toc,
            path,
            p,
            i,
        ),
        next_of(toc, path, p, i).is_some() ==> next_of(toc, path, p, i).unwrap() != entry_link(
            toc,
            path,
            p,
            i,
        ),
{
    assert(toc[p].items@.len() > 0);
    if p > 0 {
        assert(toc[p - 1].items@.len() > 0);
    }
    if p + 1 < toc.len() {
        assert(toc[p + 1].items@.len() > 0);
    }
    if i > 0 {
        lemma_entries_distinct(toc, path, p, i - 1, p, i);
    } else if p > 0 {
        lemma_entries_distinct(toc, path, p - 1, toc[p - 1].items@.len() - 1, p, i);
    }
    if i + 1 < toc[p].items@.len() {
        lemma_entries_distinct(toc, path, p, i + 1, p, i);
    } else if p + 1 < toc.len() {
        lemma_entries_distinct(toc, path, p + 1, 0, p, i);
    }
}

/// At the first entry of a section other than the first, the previous entry
/// is the last entry of the section before; at the last entry of a section
/// other than the last, the next entry is the first entry of the section
/// after.
pub proof fn lemma_navigation_wraps(toc: Seq<Section>, path: Seq<char>, p: int)
    requires
        well_formed_toc(toc),
        0 <= p < toc.len(),
    ensures
        p > 0 ==> prev_of(toc, path, p, 0) == Some(
            entry_link(toc, path, p - 1, toc[p - 1].items@.len() - 1),
        ),
        p + 1 < toc.len() ==> next_of(toc, path, p, toc[p].items@.len() - 1) == Some(
            entry_link(toc, path, p + 1, 0),
        ),
{
    if p > 0 {
        assert(toc[p - 1].items@.len() > 0);
    }
    if p + 1 < toc.len() {
        assert(toc[p + 1].items@.len() > 0);
    }
}

/// The navigation of one document: its previous and next entries, and the
/// path of its directory under the documentation root (`version/section`).
#[derive(Debug, PartialEq)]
pub struct Navs {
    pub prev: Option<NavLink>,
    pub next: Option<NavLink>,
    pub context: String,
}

/// `a/b`.
pub open spec fn join_path(a: Seq<char>, b: Seq<char>) -> Seq<char> {
    a + seq!['/'] + b
}

/// `a/b` as a string.
pub fn make_path(a: &str, b: &str) -> (r: String)
    ensures
        r@ == join_path(a@, b@),
{
    let mut r = String::from_str(a);
    r.append("/");
    r.append(b);
    proof {
        reveal_strlit("/");
    }
    r
}

/// The navigation of the document `current` of the section `dir`, in the
/// version `version` of the documentation in `lang`: links are
/// `lang/version/prefix/slug`.
pub fn find_prev_and_next(
    toc: &Vec<Section>,
    lang: &str,
    version: &str,
    dir: &str,
    current: &str,
) -> (r: Navs)
    ensures
        forall|p: int, i: int|
            locates(toc@, dir@, current@, p, i) ==> link_view(r.prev) == prev_of(
                toc@,
                join_path(lang@, version@),
                p,
                i,
            ) && link_view(r.next) == next_of(toc@, join_path(lang@, version@), p, i),
        !(exists|p: int, i: int| locates(toc@, dir@, current@, p, i)) ==> r.prev.is_none()
            && r.next.is_none(),
        r.context@ == join_path(version@, dir@),
{
    let path = make_path(lang, version);
    let (prev, next) = resolve(toc, dir, current, path.as_str());
    Navs { prev, next, context: make_path(version, dir) }
}

} // verus!
