//! A plain model of a parsed page tree.
//!
//! The extractors read only element names, `id` and `lang` attributes,
//! text content and child order, so a node carries exactly those. A text
//! node has an empty tag; an element has an empty text. An attribute the
//! page did not set is the empty string.

use vstd::prelude::*;
use vstd::string::StrSliceExecFns;
use crate::text::{chars_to_string, str_eq};

verus! {

/// One node of the page tree.
#[derive(Debug)]
pub struct DomNode {
    /// Element name; empty for a text node.
    pub tag: String,
    /// The `id` attribute; empty when absent.
    pub id: String,
    /// The `lang` attribute; empty when absent.
    pub lang: String,
    /// Text content of a text node; empty for an element.
    pub text: String,
    pub children: Vec<DomNode>,
}

/// The shape of a [`DomNode`].
#[verifier::ext_equal]
pub struct DomView {
    pub tag: Seq<char>,
    pub id: Seq<char>,
    pub lang: Seq<char>,
    pub text: Seq<char>,
    pub children: Seq<DomView>,
}

/// The shapes of an executable node list.
pub open spec fn nodes_view(ns: Seq<DomNode>) -> Seq<DomView>
    decreases ns, 0int,
{
    Seq::new(
        ns.len(),
        |i: int|
            if 0 <= i < ns.len() {
                ns[i]@
            } else {
                DomView {
                    tag: Seq::empty(),
                    id: Seq::empty(),
                    lang: Seq::empty(),
                    text: Seq::empty(),
                    children: Seq::empty(),
                }
            },
    )
}

impl View for DomNode {
    type V = DomView;

    open spec fn view(&self) -> DomView
        decreases self, 1int,
    {
        DomView {
            tag: self.tag@,
            id: self.id@,
            lang: self.lang@,
            text: self.text@,
            children: nodes_view(self.children@),
        }
    }
}

impl DomNode {
    /// A text node.
    pub fn text_node(text: String) -> (r: Self)
        ensures
            r@.tag == Seq::<char>::empty(),
            r@.text == text@,
            r@.children.len() == 0,
    {
        proof {
            assert(nodes_view(Seq::<DomNode>::empty()) =~= Seq::<DomView>::empty());
        }
        DomNode {
            tag: String::new(),
            id: String::new(),
            lang: String::new(),
            text,
            children: Vec::new(),
        }
    }

    /// An element node.
    pub fn element(tag: String, id: String, lang: String, children: Vec<DomNode>) -> (r: Self)
        ensures
            r@.tag == tag@,
            r@.id == id@,
            r@.lang == lang@,
            r@.text == Seq::<char>::empty(),
            r@.children == nodes_view(children@),
    {
        DomNode { tag, id, lang, text: String::new(), children }
    }
}

/// Whether a node is an element.
pub open spec fn spec_is_element(n: DomView) -> bool {
    n.tag.len() > 0
}

impl DomNode {
    /// Whether this node is an element.
    pub fn is_element(&self) -> (r: bool)
        ensures
            r == spec_is_element(self@),
    {
        self.tag.as_str().unicode_len() > 0
    }

    /// Whether this node is an element with the given name.
    pub fn has_tag(&self, tag: &str) -> (r: bool)
        ensures
            r == (self@.tag == tag@),
    {
        str_eq(self.tag.as_str(), tag)
    }
}

/// The element children of the nodes from position `i` on, in order.
pub open spec fn spec_elems_from(ns: Seq<DomView>, i: int) -> Seq<DomView>
    decreases ns.len() - i,
{
    if i < 0 || i >= ns.len() {
        Seq::empty()
    } else if spec_is_element(ns[i]) {
        seq![ns[i]] + spec_elems_from(ns, i + 1)
    } else {
        spec_elems_from(ns, i + 1)
    }
}

/// The element children of a node, in order.
pub open spec fn spec_elem_children(n: DomView) -> Seq<DomView> {
    spec_elems_from(n.children, 0)
}

/// Collects references to the element children of `ns`, in order.
pub fn elem_children<'a>(ns: &'a Vec<DomNode>) -> (r: Vec<&'a DomNode>)
    ensures
        refs_view(r@) == spec_elems_from(nodes_view(ns@), 0),
{
    let ghost nv = nodes_view(ns@);
    let mut r: Vec<&'a DomNode> = Vec::new();
    let mut i: usize = 0;
    proof {
        assert(refs_view(r@) =~= Seq::<DomView>::empty());
    }
    while i < ns.len()
        invariant
            i <= ns@.len(),
            nv == nodes_view(ns@),
            spec_elems_from(nv, 0) == refs_view(r@) + spec_elems_from(nv, i as int),
        decreases ns@.len() - i,
    {
        proof {
            assert(nv[i as int] == ns@[i as int]@);
        }
        let ghost before = refs_view(r@);
        if ns[i].is_element() {
            r.push(&ns[i]);
            proof {
                assert(refs_view(r@) =~= before + seq![nv[i as int]]);
                assert((before + seq![nv[i as int]]) + spec_elems_from(nv, i as int + 1) =~= before
                    + (seq![nv[i as int]] + spec_elems_from(nv, i as int + 1)));
            }
        }
        i = i + 1;
    }
    proof {
        assert(spec_elems_from(nv, i as int) =~= Seq::<DomView>::empty());
        assert(refs_view(r@) + Seq::<DomView>::empty() =~= refs_view(r@));
    }
    r
}

/// The shapes of a list of node references.
pub open spec fn refs_view(ns: Seq<&DomNode>) -> Seq<DomView> {
    Seq::new(
        ns.len(),
        |i: int|
            if 0 <= i < ns.len() {
                ns[i]@
            } else {
                DomView {
                    tag: Seq::empty(),
                    id: Seq::empty(),
                    lang: Seq::empty(),
                    text: Seq::empty(),
                    children: Seq::empty(),
                }
            },
    )
}

/// The text a node contributes: its own text and, in order, that of its
/// descendants.
pub open spec fn spec_text_of(n: DomView) -> Seq<char>
    decreases n, 1int,
{
    n.text + spec_texts_from(n.children, 0)
}

/// The text the nodes from position `i` on contribute.
pub open spec fn spec_texts_from(ns: Seq<DomView>, i: int) -> Seq<char>
    decreases ns, ns.len() - i, 0int,
{
    if i < 0 || i >= ns.len() {
        Seq::empty()
    } else {
        spec_text_of(ns[i]) + spec_texts_from(ns, i + 1)
    }
}

/// Collects the text of a node and its descendants, in order.
pub fn text_of(n: &DomNode) -> (r: Vec<char>)
    ensures
        r@ == spec_text_of(n@),
    decreases *n, 1int,
{
    let mut r = crate::text::str_chars(self_text(n));
    let mut rest = texts_from(&n.children, 0);
    r.append(&mut rest);
    r
}

fn self_text(n: &DomNode) -> (r: &str)
    ensures
        r@ == n@.text,
{
    n.text.as_str()
}

fn texts_from(ns: &Vec<DomNode>, i: usize) -> (r: Vec<char>)
    requires
        i <= ns@.len(),
    ensures
        r@ == spec_texts_from(nodes_view(ns@), i as int),
    decreases *ns, ns@.len() - i, 0int,
{
    let ghost nv = nodes_view(ns@);
    if i >= ns.len() {
        Vec::new()
    } else {
        proof {
            assert(nv[i as int] == ns@[i as int]@);
        }
        let mut r = text_of(&ns[i]);
        let mut rest = texts_from(ns, i + 1);
        r.append(&mut rest);
        r
    }
}

/// Whitespace stripped from the edges of recovered text.
pub open spec fn is_edge_ws(c: char) -> bool {
    c == ' ' || c == '\t' || c == '\n' || c == '\r'
}

/// The text without leading whitespace.
pub open spec fn spec_trim_front(s: Seq<char>) -> Seq<char>
    decreases s.len(),
{
    if s.len() > 0 && is_edge_ws(s[0]) {
        spec_trim_front(s.drop_first())
    } else {
        s
    }
}

/// The text without trailing whitespace.
pub open spec fn spec_trim_back(s: Seq<char>) -> Seq<char>
    decreases s.len(),
{
    if s.len() > 0 && is_edge_ws(s[s.len() - 1]) {
        spec_trim_back(s.drop_last())
    } else {
        s
    }
}

/// The text without trailing closing parentheses.
pub open spec fn spec_trim_close(s: Seq<char>) -> Seq<char>
    decreases s.len(),
{
    if s.len() > 0 && s[s.len() - 1] == ')' {
        spec_trim_close(s.drop_last())
    } else {
        s
    }
}

/// The text without leading opening parentheses.
pub open spec fn spec_trim_open(s: Seq<char>) -> Seq<char>
    decreases s.len(),
{
    if s.len() > 0 && s[0] == '(' {
        spec_trim_open(s.drop_first())
    } else {
        s
    }
}

/// The cleaned form of recovered text: whitespace stripped from both
/// edges, then trailing closing parentheses, then leading opening ones.
pub open spec fn spec_clean_text(s: Seq<char>) -> Seq<char> {
    spec_trim_open(spec_trim_close(spec_trim_back(spec_trim_front(s))))
}

fn is_edge_ws_exec(c: char) -> (r: bool)
    ensures
        r == is_edge_ws(c),
{
    c == ' ' || c == '\t' || c == '\n' || c == '\r'
}

/// Cleans recovered text.
pub fn clean_text(v: &Vec<char>) -> (r: Vec<char>)
    ensures
        r@ == spec_clean_text(v@),
{
    let mut a: usize = 0;
    let mut b: usize = v.len();
    proof {
        assert(v@.subrange(0, v@.len() as int) =~= v@);
    }
    while a < b && is_edge_ws_exec(v[a])
        invariant
            a <= b <= v@.len(),
            spec_trim_front(v@) == spec_trim_front(v@.subrange(a as int, b as int)),
            b == v@.len(),
        decreases b - a,
    {
        proof {
            assert(v@.subrange(a as int, b as int).drop_first() =~= v@.subrange(
                a as int + 1,
                b as int,
            ));
        }
        a = a + 1;
    }
    proof {
        assert(spec_trim_front(v@) == v@.subrange(a as int, b as int));
        assert(spec_trim_back(v@.subrange(a as int, b as int)) == spec_trim_back(
            spec_trim_front(v@),
        ));
    }
    while a < b && is_edge_ws_exec(v[b - 1])
        invariant
            a <= b <= v@.len(),
            spec_trim_back(spec_trim_front(v@)) == spec_trim_back(
                v@.subrange(a as int, b as int),
            ),
        decreases b,
    {
        proof {
            assert(v@.subrange(a as int, b as int).drop_last() =~= v@.subrange(
                a as int,
                b as int - 1,
            ));
        }
        b = b - 1;
    }
    proof {
        assert(spec_trim_back(spec_trim_front(v@)) == v@.subrange(a as int, b as int));
    }
    while a < b && v[b - 1] == ')'
        invariant
            a <= b <= v@.len(),
            spec_trim_close(spec_trim_back(spec_trim_front(v@))) == spec_trim_close(
                v@.subrange(a as int, b as int),
            ),
        decreases b,
    {
        proof {
            assert(v@.subrange(a as int, b as int).drop_last() =~= v@.subrange(
                a as int,
                b as int - 1,
            ));
        }
        b = b - 1;
    }
    proof {
        assert(spec_trim_close(spec_trim_back(spec_trim_front(v@))) == v@.subrange(
            a as int,
            b as int,
        ));
    }
    while a < b && v[a] == '('
        invariant
            a <= b <= v@.len(),
            spec_clean_text(v@) == spec_trim_open(v@.subrange(a as int, b as int)),
        decreases b - a,
    {
        proof {
            assert(v@.subrange(a as int, b as int).drop_first() =~= v@.subrange(
                a as int + 1,
                b as int,
            ));
        }
        a = a + 1;
    }
    proof {
        assert(spec_clean_text(v@) == v@.subrange(a as int, b as int));
    }
    crate::text::subvec(v, a, b)
}

/// The cleaned text of a node and its descendants.
pub open spec fn spec_textify(n: DomView) -> Seq<char> {
    spec_clean_text(spec_text_of(n))
}

/// Recovers the cleaned text of a node and its descendants.
pub fn textify(n: &DomNode) -> (r: String)
    ensures
        r@ == spec_textify(n@),
{
    let raw = text_of(n);
    let cleaned = clean_text(&raw);
    chars_to_string(&cleaned)
}

} // verus!
