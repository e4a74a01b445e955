//! Dictionary-record extraction and the lookup retry policy.
//!
//! A translation page carries up to two dictionary sections, each with
//! its own structural convention; both are walked by position over the
//! page's element tree. The lookup policy retries a direct search and
//! then falls back to extracted keywords, a bounded number of times each.

use vstd::prelude::*;
use vstd::string::StringExecFns;
use crate::spider::{encode_key_only, form_urlencoded_key};
use crate::spider::dom::{
    spec_elem_children, spec_elems_from, spec_is_element, spec_textify, DomNode, DomView,
    nodes_view, textify,
};

verus! {

/// An example sentence, with its translation when the page carried one.
#[derive(Debug, Clone)]
pub enum DictionaryExample {
    Example { example: String },
    ExampleAndTranslation { example: String, translation: String },
}

/// The shape of a [`DictionaryExample`].
#[verifier::ext_equal]
pub enum DictionaryExampleView {
    Example { example: Seq<char> },
    ExampleAndTranslation { example: Seq<char>, translation: Seq<char> },
}

impl View for DictionaryExample {
    type V = DictionaryExampleView;

    open spec fn view(&self) -> DictionaryExampleView {
        match self {
            DictionaryExample::Example { example } => DictionaryExampleView::Example {
                example: example@,
            },
            DictionaryExample::ExampleAndTranslation { example, translation } =>
                DictionaryExampleView::ExampleAndTranslation {
                example: example@,
                translation: translation@,
            },
        }
    }
}

/// The shapes of an executable example list.
pub open spec fn exs_view(es: Seq<DictionaryExample>) -> Seq<DictionaryExampleView> {
    Seq::new(
        es.len(),
        |i: int|
            if 0 <= i < es.len() {
                es[i]@
            } else {
                DictionaryExampleView::Example { example: Seq::empty() }
            },
    )
}

/// One definition: how much structure it carries depends on how much the
/// source page exposed for it. A definition without examples is legal,
/// not an error.
#[derive(Debug, Clone)]
pub enum DictionaryDefinition {
    Definition { definition: String },
    DefinitionAndGroup { group: String, definition: String },
    DefinitionAndGroupWithExample {
        group: String,
        definition: String,
        examples: Vec<DictionaryExample>,
    },
}

/// The shape of a [`DictionaryDefinition`].
#[verifier::ext_equal]
pub enum DictionaryDefinitionView {
    Definition { definition: Seq<char> },
    DefinitionAndGroup { group: Seq<char>, definition: Seq<char> },
    DefinitionAndGroupWithExample {
        group: Seq<char>,
        definition: Seq<char>,
        examples: Seq<DictionaryExampleView>,
    },
}

impl View for DictionaryDefinition {
    type V = DictionaryDefinitionView;

    open spec fn view(&self) -> DictionaryDefinitionView {
        match self {
            DictionaryDefinition::Definition { definition } => DictionaryDefinitionView::Definition {
                definition: definition@,
            },
            DictionaryDefinition::DefinitionAndGroup { group, definition } =>
                DictionaryDefinitionView::DefinitionAndGroup {
                group: group@,
                definition: definition@,
            },
            DictionaryDefinition::DefinitionAndGroupWithExample { group, definition, examples } =>
                DictionaryDefinitionView::DefinitionAndGroupWithExample {
                group: group@,
                definition: definition@,
                examples: exs_view(examples@),
            },
        }
    }
}

/// The shapes of an executable definition list.
pub open spec fn defs_view(ds: Seq<DictionaryDefinition>) -> Seq<DictionaryDefinitionView> {
    Seq::new(
        ds.len(),
        |i: int|
            if 0 <= i < ds.len() {
                ds[i]@
            } else {
                DictionaryDefinitionView::Definition { definition: Seq::empty() }
            },
    )
}

/// One word with the definitions a lookup recovered for it.
#[derive(Debug, Clone)]
pub struct DictionaryEntry {
    pub word: String,
    pub definitions: Vec<DictionaryDefinition>,
}

/// The shape of a [`DictionaryEntry`].
#[verifier::ext_equal]
pub struct DictionaryEntryView {
    pub word: Seq<char>,
    pub definitions: Seq<DictionaryDefinitionView>,
}

impl View for DictionaryEntry {
    type V = DictionaryEntryView;

    open spec fn view(&self) -> DictionaryEntryView {
        DictionaryEntryView { word: self.word@, definitions: defs_view(self.definitions@) }
    }
}

/// What a language-tagged text selector looks for inside a definition
/// block.
#[derive(Debug, Clone, Copy, PartialEq, Eq, Structural)]
pub enum TextQuery {
    /// The linked definition text: an `a` element tagged English.
    LinkEnglish,
    /// The example text: a `span` element tagged Spanish.
    SpanSpanish,
    /// The translation text: a `span` element tagged English.
    SpanEnglish,
}

/// Whether a node answers a text query.
pub open spec fn spec_query_matches(q: TextQuery, n: DomView) -> bool {
    match q {
        TextQuery::LinkEnglish => n.tag == "a"@ && n.lang == "en"@,
        TextQuery::SpanSpanish => n.tag == "span"@ && n.lang == "es"@,
        TextQuery::SpanEnglish => n.tag == "span"@ && n.lang == "en"@,
    }
}

/// The first node answering `q` among the nodes from position `i` on and
/// their descendants, in document order.
pub open spec fn spec_find_desc(q: TextQuery, ns: Seq<DomView>, i: int) -> Option<DomView>
    decreases ns, ns.len() - i, 0int,
{
    if i < 0 || i >= ns.len() {
        None
    } else if spec_query_matches(q, ns[i]) {
        Some(ns[i])
    } else {
        match spec_find_desc(q, ns[i].children, 0) {
            Some(n) => Some(n),
            None => spec_find_desc(q, ns, i + 1),
        }
    }
}

/// The first node answering `q` in the subtree of `n`, `n` included.
pub open spec fn spec_find_in(q: TextQuery, n: DomView) -> Option<DomView> {
    if spec_query_matches(q, n) {
        Some(n)
    } else {
        spec_find_desc(q, n.children, 0)
    }
}

/// Whether the node at `i` is the last element among its siblings.
pub open spec fn spec_is_last_elem(ns: Seq<DomView>, i: int) -> bool {
    spec_elems_from(ns, i + 1).len() == 0
}

/// The first `span` that is its parent's last element child, among the
/// nodes from position `i` on and their descendants, in document order.
pub open spec fn spec_find_last_child_span(ns: Seq<DomView>, i: int) -> Option<DomView>
    decreases ns, ns.len() - i, 0int,
{
    if i < 0 || i >= ns.len() {
        None
    } else if ns[i].tag == "span"@ && spec_is_last_elem(ns, i) {
        Some(ns[i])
    } else {
        match spec_find_last_child_span(ns[i].children, 0) {
            Some(n) => Some(n),
            None => spec_find_last_child_span(ns, i + 1),
        }
    }
}

/// Whether a node is a `div` carrying a `lang` attribute.
pub open spec fn spec_is_div_lang(n: DomView) -> bool {
    n.tag == "div"@ && n.lang.len() > 0
}

/// Whether a node's `lang` attribute begins with `en`.
pub open spec fn spec_lang_starts_en(n: DomView) -> bool {
    n.lang.len() >= 2 && n.lang[0] == 'e' && n.lang[1] == 'n'
}

/// The definitions one language-grouped definition block yields: the
/// linked definition text is required (a block without one is skipped);
/// the Spanish-tagged example and English-tagged translation are taken
/// as empty when absent — the attempt is always made, and an empty
/// example is no error.
pub open spec fn spec_neodict_block(label: Seq<char>, b: DomView) -> Seq<
    DictionaryDefinitionView,
> {
    match spec_find_in(TextQuery::LinkEnglish, b) {
        None => Seq::empty(),
        Some(d) => {
            let example = match spec_find_in(TextQuery::SpanSpanish, b) {
                Some(e) => spec_textify(e),
                None => Seq::empty(),
            };
            let translation = match spec_find_in(TextQuery::SpanEnglish, b) {
                Some(t) => spec_textify(t),
                None => Seq::empty(),
            };
            seq![
                DictionaryDefinitionView::DefinitionAndGroupWithExample {
                    group: label,
                    definition: spec_textify(d),
                    examples: seq![
                        DictionaryExampleView::ExampleAndTranslation { example, translation },
                    ],
                },
            ]
        },
    }
}

/// The definitions the blocks from position `i` on yield under one group
/// label.
pub open spec fn spec_neodict_blocks(label: Seq<char>, ns: Seq<DomView>, i: int) -> Seq<
    DictionaryDefinitionView,
>
    decreases ns.len() - i,
{
    if i < 0 || i >= ns.len() {
        Seq::empty()
    } else {
        spec_neodict_block(label, ns[i]) + spec_neodict_blocks(label, ns, i + 1)
    }
}

/// The definitions one group header and its following sibling yield: the
/// group label is read from the header's last text-bearing `span`; each
/// child of the sibling is one definition block. A header whose label
/// cannot be found is skipped.
pub open spec fn spec_neodict_group(g: DomView, sib: DomView) -> Seq<DictionaryDefinitionView> {
    match spec_find_last_child_span(g.children, 0) {
        None => Seq::empty(),
        Some(sp) => spec_neodict_blocks(spec_textify(sp), sib.children, 0),
    }
}

/// The definitions the language-grouped section convention recovers from
/// the nodes from position `i` on: each `div` whose `lang` begins with
/// `en`, standing under a `div` carrying `lang` and followed by a
/// sibling, is a group header whose sibling holds the definition blocks.
/// `anc` says whether a surrounding `div` carried `lang`.
pub open spec fn spec_neodict_walk(ns: Seq<DomView>, i: int, anc: bool) -> Seq<
    DictionaryDefinitionView,
>
    decreases ns, ns.len() - i, 0int,
{
    if i < 0 || i >= ns.len() {
        Seq::empty()
    } else {
        let c = ns[i];
        let here = if c.tag == "div"@ && spec_lang_starts_en(c) && anc && i + 1 < ns.len() {
            spec_neodict_group(c, ns[i + 1])
        } else {
            Seq::empty()
        };
        here + spec_neodict_walk(c.children, 0, anc || spec_is_div_lang(c)) + spec_neodict_walk(
            ns,
            i + 1,
            anc,
        )
    }
}

/// The definitions the language-grouped section yields.
pub open spec fn spec_neodict_section(section: DomView) -> Seq<DictionaryDefinitionView> {
    spec_neodict_walk(section.children, 0, spec_is_div_lang(section))
}

/// The example records the element children from position `i` on yield:
/// an element with exactly three element children is one record, example
/// text first and translation text last; any other child count skips
/// that block and the remaining blocks are still processed.
pub open spec fn spec_harrap_examples(ns: Seq<DomView>, i: int) -> Seq<DictionaryExampleView>
    decreases ns.len() - i,
{
    if i < 0 || i >= ns.len() {
        Seq::empty()
    } else {
        let here = if spec_is_element(ns[i]) && spec_elem_children(ns[i]).len() == 3 {
            seq![
                DictionaryExampleView::ExampleAndTranslation {
                    example: spec_textify(spec_elem_children(ns[i])[0]),
                    translation: spec_textify(spec_elem_children(ns[i])[2]),
                },
            ]
        } else {
            Seq::empty()
        };
        here + spec_harrap_examples(ns, i + 1)
    }
}

/// The definitions one positional group yields. The group's relevant
/// content is its second child's first child's element children; the
/// definition text is the middle of exactly three such elements, and any
/// other count leaves the text empty rather than failing. The group
/// label is the third child of the group's first child. The examples
/// live in the last content element; a group whose shape breaks any of
/// these positions is skipped, not an error.
pub open spec fn spec_harrap_group(g: DomView) -> Seq<DictionaryDefinitionView> {
    if g.children.len() < 2 {
        Seq::empty()
    } else if g.children[1].children.len() == 0 {
        Seq::empty()
    } else {
        let inter = spec_elem_children(g.children[1].children[0]);
        let definition = if inter.len() == 3 {
            spec_textify(inter[1])
        } else {
            Seq::<char>::empty()
        };
        if g.children[0].children.len() < 3 {
            Seq::empty()
        } else if !spec_is_element(g.children[0].children[2]) {
            Seq::empty()
        } else {
            let label = spec_textify(g.children[0].children[2]);
            if inter.len() == 0 {
                Seq::empty()
            } else {
                let exc = inter[inter.len() - 1];
                if exc.children.len() == 0 {
                    Seq::empty()
                } else {
                    let examples = spec_harrap_examples(exc.children, 0);
                    if examples.len() == 0 {
                        seq![
                            DictionaryDefinitionView::DefinitionAndGroup {
                                group: label,
                                definition,
                            },
                        ]
                    } else {
                        seq![
                            DictionaryDefinitionView::DefinitionAndGroupWithExample {
                                group: label,
                                definition,
                                examples,
                            },
                        ]
                    }
                }
            }
        }
    }
}

/// The definitions the `div` groups from position `i` on yield. Each
/// group stands alone: a malformed group contributes nothing and the
/// following groups are still processed.
pub open spec fn spec_harrap_groups(ns: Seq<DomView>, i: int) -> Seq<DictionaryDefinitionView>
    decreases ns.len() - i,
{
    if i < 0 || i >= ns.len() {
        Seq::empty()
    } else {
        let here = if ns[i].tag == "div"@ {
            spec_harrap_group(ns[i])
        } else {
            Seq::empty()
        };
        here + spec_harrap_groups(ns, i + 1)
    }
}

/// The groups reached from one second-level `div`: its second element
/// child, when it is a `div`, holds the groups as its `div` children.
pub open spec fn spec_harrap_e2(e2: DomView) -> Seq<DictionaryDefinitionView> {
    let elems = spec_elem_children(e2);
    if elems.len() >= 2 && elems[1].tag == "div"@ {
        spec_harrap_groups(elems[1].children, 0)
    } else {
        Seq::empty()
    }
}

/// The definitions reached through the `div` children from position `i`
/// on of one first-level `div`.
pub open spec fn spec_harrap_e2s(ns: Seq<DomView>, i: int) -> Seq<DictionaryDefinitionView>
    decreases ns.len() - i,
{
    if i < 0 || i >= ns.len() {
        Seq::empty()
    } else {
        let here = if ns[i].tag == "div"@ {
            spec_harrap_e2(ns[i])
        } else {
            Seq::empty()
        };
        here + spec_harrap_e2s(ns, i + 1)
    }
}

/// The definitions reached through the section's `div` children from
/// position `i` on.
pub open spec fn spec_harrap_e1s(ns: Seq<DomView>, i: int) -> Seq<DictionaryDefinitionView>
    decreases ns.len() - i,
{
    if i < 0 || i >= ns.len() {
        Seq::empty()
    } else {
        let here = if ns[i].tag == "div"@ {
            spec_harrap_e2s(ns[i].children, 0)
        } else {
            Seq::empty()
        };
        here + spec_harrap_e1s(ns, i + 1)
    }
}

/// The definitions the positional section yields.
pub open spec fn spec_harrap_section(section: DomView) -> Seq<DictionaryDefinitionView> {
    spec_harrap_e1s(section.children, 0)
}

/// Whether a node's `id` begins with `dictionary`.
pub open spec fn spec_id_starts_dictionary(n: DomView) -> bool {
    n.id.len() >= 10 && n.id.subrange(0, 10) == "dictionary"@
}

/// The definitions every dictionary section under the main container
/// yields, in document order. A section with an unknown id is ignored,
/// not an error. `inside` says whether a surrounding node was the main
/// container.
pub open spec fn spec_sections_walk(ns: Seq<DomView>, i: int, inside: bool) -> Seq<
    DictionaryDefinitionView,
>
    decreases ns, ns.len() - i, 0int,
{
    if i < 0 || i >= ns.len() {
        Seq::empty()
    } else {
        let c = ns[i];
        let here = if inside && c.tag == "div"@ && spec_id_starts_dictionary(c) {
            if c.id == "dictionary-neodict-es"@ {
                spec_neodict_section(c)
            } else if c.id == "dictionary-neoharrap-es"@ {
                spec_harrap_section(c)
            } else {
                Seq::empty()
            }
        } else {
            Seq::empty()
        };
        here + spec_sections_walk(c.children, 0, inside || c.id == "main-container-video"@)
            + spec_sections_walk(ns, i + 1, inside)
    }
}

/// What a whole translation page yields for `word`.
pub open spec fn spec_extract_entry(root: DomView, word: Seq<char>) -> DictionaryEntryView {
    DictionaryEntryView {
        word: word,
        definitions: spec_sections_walk(seq![root], 0, root.id == "main-container-video"@),
    }
}

/// A positional group whose content count is not the required three
/// leaves the definition text empty — it does not raise — and a
/// malformed example block contributes no record while the blocks after
/// it are still processed.
pub proof fn lemma_harrap_malformed_is_skipped(ns: Seq<DomView>, i: int)
    requires
        0 <= i < ns.len(),
        spec_is_element(ns[i]) ==> spec_elem_children(ns[i]).len() != 3,
    ensures
        spec_harrap_examples(ns, i) == spec_harrap_examples(ns, i + 1),
{
}

/// Group blocks stand alone: what the groups from position `i` on yield
/// is what the group at `i` yields followed by what the later groups
/// yield, whatever shape the group at `i` has.
pub proof fn lemma_harrap_group_isolated(ns: Seq<DomView>, i: int)
    requires
        0 <= i < ns.len(),
    ensures
        spec_harrap_groups(ns, i) == (if ns[i].tag == "div"@ {
            spec_harrap_group(ns[i])
        } else {
            Seq::empty()
        }) + spec_harrap_groups(ns, i + 1),
{
}

fn query_matches(q: TextQuery, n: &DomNode) -> (r: bool)
    ensures
        r == spec_query_matches(q, n@),
{
    match q {
        TextQuery::LinkEnglish => n.has_tag("a") && crate::text::str_eq(n.lang.as_str(), "en"),
        TextQuery::SpanSpanish => n.has_tag("span") && crate::text::str_eq(n.lang.as_str(), "es"),
        TextQuery::SpanEnglish => n.has_tag("span") && crate::text::str_eq(n.lang.as_str(), "en"),
    }
}

fn find_desc<'a>(q: TextQuery, ns: &'a Vec<DomNode>, i: usize) -> (r: Option<&'a DomNode>)
    requires
        i <= ns@.len(),
    ensures
        match r {
            Some(d) => spec_find_desc(q, nodes_view(ns@), i as int) == Some(d@),
            None => spec_find_desc(q, nodes_view(ns@), i as int) is None,
        },
    decreases *ns, ns@.len() - i, 0int,
{
    let ghost nv = nodes_view(ns@);
    if i >= ns.len() {
        None
    } else {
        proof {
            assert(nv[i as int] == ns@[i as int]@);
        }
        if query_matches(q, &ns[i]) {
            Some(&ns[i])
        } else {
            match find_desc(q, &ns[i].children, 0) {
                Some(d) => Some(d),
                None => find_desc(q, ns, i + 1),
            }
        }
    }
}

fn find_in<'a>(q: TextQuery, n: &'a DomNode) -> (r: Option<&'a DomNode>)
    ensures
        match r {
            Some(d) => spec_find_in(q, n@) == Some(d@),
            None => spec_find_in(q, n@) is None,
        },
{
    if query_matches(q, n) {
        Some(n)
    } else {
        find_desc(q, &n.children, 0)
    }
}

fn has_elem_from(ns: &Vec<DomNode>, i: usize) -> (r: bool)
    requires
        i <= ns@.len(),
    ensures
        r == (spec_elems_from(nodes_view(ns@), i as int).len() > 0),
    decreases ns@.len() - i,
{
    let ghost nv = nodes_view(ns@);
    if i >= ns.len() {
        false
    } else {
        proof {
            assert(nv[i as int] == ns@[i as int]@);
        }
        if ns[i].is_element() {
            true
        } else {
            has_elem_from(ns, i + 1)
        }
    }
}

fn find_last_child_span<'a>(ns: &'a Vec<DomNode>, i: usize) -> (r: Option<&'a DomNode>)
    requires
        i <= ns@.len(),
    ensures
        match r {
            Some(d) => spec_find_last_child_span(nodes_view(ns@), i as int) == Some(d@),
            None => spec_find_last_child_span(nodes_view(ns@), i as int) is None,
        },
    decreases *ns, ns@.len() - i, 0int,
{
    let ghost nv = nodes_view(ns@);
    if i >= ns.len() {
        None
    } else {
        proof {
            assert(nv[i as int] == ns@[i as int]@);
        }
        if ns[i].has_tag("span") && !has_elem_from(ns, i + 1) {
            Some(&ns[i])
        } else {
            match find_last_child_span(&ns[i].children, 0) {
                Some(d) => Some(d),
                None => find_last_child_span(ns, i + 1),
            }
        }
    }
}

fn neodict_block(label: &String, b: &DomNode) -> (r: Vec<DictionaryDefinition>)
    ensures
        defs_view(r@) == spec_neodict_block(label@, b@),
{
    match find_in(TextQuery::LinkEnglish, b) {
        None => {
            let r: Vec<DictionaryDefinition> = Vec::new();
            proof {
                assert(defs_view(r@) =~~= spec_neodict_block(label@, b@));
            }
            r
        },
        Some(d) => {
            let definition = textify(d);
            let example = match find_in(TextQuery::SpanSpanish, b) {
                Some(e) => textify(e),
                None => String::new(),
            };
            let translation = match find_in(TextQuery::SpanEnglish, b) {
                Some(t) => textify(t),
                None => String::new(),
            };
            let mut examples: Vec<DictionaryExample> = Vec::new();
            examples.push(DictionaryExample::ExampleAndTranslation { example, translation });
            let mut r: Vec<DictionaryDefinition> = Vec::new();
            r.push(
                DictionaryDefinition::DefinitionAndGroupWithExample {
                    group: label.clone(),
                    definition,
                    examples,
                },
            );
            proof {
                assert(defs_view(r@) =~~= spec_neodict_block(label@, b@));
            }
            r
        },
    }
}

fn neodict_blocks(label: &String, ns: &Vec<DomNode>, i: usize) -> (r: Vec<DictionaryDefinition>)
    requires
        i <= ns@.len(),
    ensures
        defs_view(r@) == spec_neodict_blocks(label@, nodes_view(ns@), i as int),
    decreases ns@.len() - i,
{
    let ghost nv = nodes_view(ns@);
    if i >= ns.len() {
        let r: Vec<DictionaryDefinition> = Vec::new();
        proof {
            assert(defs_view(r@) =~~= spec_neodict_blocks(label@, nv, i as int));
        }
        r
    } else {
        proof {
            assert(nv[i as int] == ns@[i as int]@);
        }
        let mut here = neodict_block(label, &ns[i]);
        let ghost hv = defs_view(here@);
        let mut rest = neodict_blocks(label, ns, i + 1);
        let ghost rv = defs_view(rest@);
        here.append(&mut rest);
        proof {
            assert(defs_view(here@) =~~= hv + rv);
        }
        here
    }
}

fn neodict_group(g: &DomNode, sib: &DomNode) -> (r: Vec<DictionaryDefinition>)
    ensures
        defs_view(r@) == spec_neodict_group(g@, sib@),
{
    match find_last_child_span(&g.children, 0) {
        None => {
            let r: Vec<DictionaryDefinition> = Vec::new();
            proof {
                assert(defs_view(r@) =~~= spec_neodict_group(g@, sib@));
            }
            r
        },
        Some(sp) => {
            let label = textify(sp);
            neodict_blocks(&label, &sib.children, 0)
        },
    }
}

fn lang_starts_en(n: &DomNode) -> (r: bool)
    ensures
        r == spec_lang_starts_en(n@),
{
    let cs = crate::text::str_chars(n.lang.as_str());
    cs.len() >= 2 && cs[0] == 'e' && cs[1] == 'n'
}

fn is_div_lang(n: &DomNode) -> (r: bool)
    ensures
        r == spec_is_div_lang(n@),
{
    n.has_tag("div") && n.lang.as_str().unicode_len() > 0
}

fn neodict_walk(ns: &Vec<DomNode>, i: usize, anc: bool) -> (r: Vec<DictionaryDefinition>)
    requires
        i <= ns@.len(),
    ensures
        defs_view(r@) == spec_neodict_walk(nodes_view(ns@), i as int, anc),
    decreases *ns, ns@.len() - i, 0int,
{
    let ghost nv = nodes_view(ns@);
    if i >= ns.len() {
        let r: Vec<DictionaryDefinition> = Vec::new();
        proof {
            assert(defs_view(r@) =~~= spec_neodict_walk(nv, i as int, anc));
        }
        r
    } else {
        proof {
            assert(nv[i as int] == ns@[i as int]@);
            if i + 1 < ns@.len() {
                assert(nv[i as int + 1] == ns@[i as int + 1]@);
            }
        }
        let c = &ns[i];
        let mut here: Vec<DictionaryDefinition> =
            if c.has_tag("div") && lang_starts_en(c) && anc && i + 1 < ns.len() {
                neodict_group(c, &ns[i + 1])
            } else {
                Vec::new()
            };
        let ghost hv = defs_view(here@);
        proof {
            assert(hv =~~= (if c@.tag == "div"@ && spec_lang_starts_en(c@) && anc && i + 1
                < nv.len() {
                spec_neodict_group(c@, nv[i as int + 1])
            } else {
                Seq::empty()
            }));
        }
        let mut below = neodict_walk(&c.children, 0, anc || is_div_lang(c));
        let ghost bv = defs_view(below@);
        let mut rest = neodict_walk(ns, i + 1, anc);
        let ghost rv = defs_view(rest@);
        here.append(&mut below);
        here.append(&mut rest);
        proof {
            assert(defs_view(here@) =~~= hv + bv + rv);
        }
        here
    }
}

fn harrap_examples(ns: &Vec<DomNode>, i: usize) -> (r: Vec<DictionaryExample>)
    requires
        i <= ns@.len(),
    ensures
        exs_view(r@) == spec_harrap_examples(nodes_view(ns@), i as int),
    decreases ns@.len() - i,
{
    let ghost nv = nodes_view(ns@);
    if i >= ns.len() {
        let r: Vec<DictionaryExample> = Vec::new();
        proof {
            assert(exs_view(r@) =~~= spec_harrap_examples(nv, i as int));
        }
        r
    } else {
        proof {
            assert(nv[i as int] == ns@[i as int]@);
        }
        let e = &ns[i];
        let mut here: Vec<DictionaryExample> = Vec::new();
        if e.is_element() {
            let c = crate::spider::dom::elem_children(&e.children);
            if c.len() == 3 {
                let example = textify(c[0]);
                let translation = textify(c[2]);
                here.push(DictionaryExample::ExampleAndTranslation { example, translation });
            }
        }
        let ghost hv = exs_view(here@);
        proof {
            assert(hv =~~= (if spec_is_element(nv[i as int]) && spec_elem_children(
                nv[i as int],
            ).len() == 3 {
                seq![
                    DictionaryExampleView::ExampleAndTranslation {
                        example: spec_textify(spec_elem_children(nv[i as int])[0]),
                        translation: spec_textify(spec_elem_children(nv[i as int])[2]),
                    },
                ]
            } else {
                Seq::empty()
            }));
        }
        let mut rest = harrap_examples(ns, i + 1);
        let ghost rv = exs_view(rest@);
        here.append(&mut rest);
        proof {
            assert(exs_view(here@) =~~= hv + rv);
        }
        here
    }
}

fn harrap_group(g: &DomNode) -> (r: Vec<DictionaryDefinition>)
    ensures
        defs_view(r@) == spec_harrap_group(g@),
{
    let ghost gv = g@;
    if g.children.len() < 2 {
        let r: Vec<DictionaryDefinition> = Vec::new();
        proof {
            assert(defs_view(r@) =~~= spec_harrap_group(gv));
        }
        return r;
    }
    proof {
        assert(gv.children[1] == g.children@[1]@);
        assert(gv.children[0] == g.children@[0]@);
    }
    if g.children[1].children.len() == 0 {
        let r: Vec<DictionaryDefinition> = Vec::new();
        proof {
            assert(defs_view(r@) =~~= spec_harrap_group(gv));
        }
        return r;
    }
    proof {
        assert(gv.children[1].children[0] == g.children@[1].children@[0]@);
    }
    let inter = crate::spider::dom::elem_children(&g.children[1].children[0].children);
    let ghost interv = spec_elem_children(gv.children[1].children[0]);
    proof {
        assert(crate::spider::dom::refs_view(inter@) == interv);
    }
    let definition = if inter.len() == 3 {
        textify(inter[1])
    } else {
        String::new()
    };
    if g.children[0].children.len() < 3 {
        let r: Vec<DictionaryDefinition> = Vec::new();
        proof {
            assert(defs_view(r@) =~~= spec_harrap_group(gv));
        }
        return r;
    }
    proof {
        assert(gv.children[0].children[2] == g.children@[0].children@[2]@);
    }
    let lbl_node = &g.children[0].children[2];
    if !lbl_node.is_element() {
        let r: Vec<DictionaryDefinition> = Vec::new();
        proof {
            assert(defs_view(r@) =~~= spec_harrap_group(gv));
        }
        return r;
    }
    let label = textify(lbl_node);
    if inter.len() == 0 {
        let r: Vec<DictionaryDefinition> = Vec::new();
        proof {
            assert(defs_view(r@) =~~= spec_harrap_group(gv));
        }
        return r;
    }
    let exc = inter[inter.len() - 1];
    proof {
        assert(exc@ == interv[interv.len() - 1]);
    }
    if exc.children.len() == 0 {
        let r: Vec<DictionaryDefinition> = Vec::new();
        proof {
            assert(defs_view(r@) =~~= spec_harrap_group(gv));
        }
        return r;
    }
    let examples = harrap_examples(&exc.children, 0);
    let mut r: Vec<DictionaryDefinition> = Vec::new();
    if examples.len() == 0 {
        r.push(DictionaryDefinition::DefinitionAndGroup { group: label, definition });
        proof {
            assert(exs_view(examples@).len() == 0);
            assert(defs_view(r@) =~~= spec_harrap_group(gv));
        }
    } else {
        proof {
            assert(exs_view(examples@).len() == examples@.len());
        }
        r.push(
            DictionaryDefinition::DefinitionAndGroupWithExample {
                group: label,
                definition,
                examples,
            },
        );
        proof {
            assert(defs_view(r@) =~~= spec_harrap_group(gv));
        }
    }
    r
}

fn harrap_groups(ns: &Vec<DomNode>, i: usize) -> (r: Vec<DictionaryDefinition>)
    requires
        i <= ns@.len(),
    ensures
        defs_view(r@) == spec_harrap_groups(nodes_view(ns@), i as int),
    decreases ns@.len() - i,
{
    let ghost nv = nodes_view(ns@);
    if i >= ns.len() {
        let r: Vec<DictionaryDefinition> = Vec::new();
        proof {
            assert(defs_view(r@) =~~= spec_harrap_groups(nv, i as int));
        }
        r
    } else {
        proof {
            assert(nv[i as int] == ns@[i as int]@);
        }
        let mut here: Vec<DictionaryDefinition> = if ns[i].has_tag("div") {
            harrap_group(&ns[i])
        } else {
            Vec::new()
        };
        let ghost hv = defs_view(here@);
        proof {
            assert(hv =~~= (if nv[i as int].tag == "div"@ {
                spec_harrap_group(nv[i as int])
            } else {
                Seq::empty()
            }));
        }
        let mut rest = harrap_groups(ns, i + 1);
        let ghost rv = defs_view(rest@);
        here.append(&mut rest);
        proof {
            assert(defs_view(here@) =~~= hv + rv);
        }
        here
    }
}

fn harrap_e2(e2: &DomNode) -> (r: Vec<DictionaryDefinition>)
    ensures
        defs_view(r@) == spec_harrap_e2(e2@),
{
    let elems = crate::spider::dom::elem_children(&e2.children);
    proof {
        assert(crate::spider::dom::refs_view(elems@) == spec_elem_children(e2@));
    }
    if elems.len() >= 2 && elems[1].has_tag("div") {
        harrap_groups(&elems[1].children, 0)
    } else {
        let r: Vec<DictionaryDefinition> = Vec::new();
        proof {
            assert(defs_view(r@) =~~= spec_harrap_e2(e2@));
        }
        r
    }
}

fn harrap_e2s(ns: &Vec<DomNode>, i: usize) -> (r: Vec<DictionaryDefinition>)
    requires
        i <= ns@.len(),
    ensures
        defs_view(r@) == spec_harrap_e2s(nodes_view(ns@), i as int),
    decreases ns@.len() - i,
{
    let ghost nv = nodes_view(ns@);
    if i >= ns.len() {
        let r: Vec<DictionaryDefinition> = Vec::new();
        proof {
            assert(defs_view(r@) =~~= spec_harrap_e2s(nv, i as int));
        }
        r
    } else {
        proof {
            assert(nv[i as int] == ns@[i as int]@);
        }
        let mut here: Vec<DictionaryDefinition> = if ns[i].has_tag("div") {
            harrap_e2(&ns[i])
        } else {
            Vec::new()
        };
        let ghost hv = defs_view(here@);
        proof {
            assert(hv =~~= (if nv[i as int].tag == "div"@ {
                spec_harrap_e2(nv[i as int])
            } else {
                Seq::empty()
            }));
        }
        let mut rest = harrap_e2s(ns, i + 1);
        let ghost rv = defs_view(rest@);
        here.append(&mut rest);
        proof {
            assert(defs_view(here@) =~~= hv + rv);
        }
        here
    }
}

fn harrap_e1s(ns: &Vec<DomNode>, i: usize) -> (r: Vec<DictionaryDefinition>)
    requires
        i <= ns@.len(),
    ensures
        defs_view(r@) == spec_harrap_e1s(nodes_view(ns@), i as int),
    decreases ns@.len() - i,
{
    let ghost nv = nodes_view(ns@);
    if i >= ns.len() {
        let r: Vec<DictionaryDefinition> = Vec::new();
        proof {
            assert(defs_view(r@) =~~= spec_harrap_e1s(nv, i as int));
        }
        r
    } else {
        proof {
            assert(nv[i as int] == ns@[i as int]@);
        }
        let mut here: Vec<DictionaryDefinition> = if ns[i].has_tag("div") {
            harrap_e2s(&ns[i].children, 0)
        } else {
            Vec::new()
        };
        let ghost hv = defs_view(here@);
        proof {
            assert(hv =~~= (if nv[i as int].tag == "div"@ {
                spec_harrap_e2s(nv[i as int].children, 0)
            } else {
                Seq::empty()
            }));
        }
        let mut rest = harrap_e1s(ns, i + 1);
        let ghost rv = defs_view(rest@);
        here.append(&mut rest);
        proof {
            assert(defs_view(here@) =~~= hv + rv);
        }
        here
    }
}

fn id_starts_dictionary(n: &DomNode) -> (r: bool)
    ensures
        r == spec_id_starts_dictionary(n@),
{
    proof {
        reveal_strlit("dictionary");
    }
    let prefix = crate::text::str_chars("dictionary");
    let idc = crate::text::str_chars(n.id.as_str());
    if idc.len() < prefix.len() {
        return false;
    }
    let head = crate::text::subvec(&idc, 0, prefix.len());
    crate::text::chars_eq(&head, &prefix)
}

fn sections_walk(ns: &Vec<DomNode>, i: usize, inside: bool) -> (r: Vec<DictionaryDefinition>)
    requires
        i <= ns@.len(),
    ensures
        defs_view(r@) == spec_sections_walk(nodes_view(ns@), i as int, inside),
    decreases *ns, ns@.len() - i, 0int,
{
    let ghost nv = nodes_view(ns@);
    if i >= ns.len() {
        let r: Vec<DictionaryDefinition> = Vec::new();
        proof {
            assert(defs_view(r@) =~~= spec_sections_walk(nv, i as int, inside));
        }
        r
    } else {
        proof {
            assert(nv[i as int] == ns@[i as int]@);
        }
        let c = &ns[i];
        let mut here: Vec<DictionaryDefinition> =
            if inside && c.has_tag("div") && id_starts_dictionary(c) {
                if crate::text::str_eq(c.id.as_str(), "dictionary-neodict-es") {
                    neodict_walk(&c.children, 0, is_div_lang(c))
                } else if crate::text::str_eq(c.id.as_str(), "dictionary-neoharrap-es") {
                    harrap_e1s(&c.children, 0)
                } else {
                    Vec::new()
                }
            } else {
                Vec::new()
            };
        let ghost hv = defs_view(here@);
        proof {
            assert(hv =~~= (if inside && nv[i as int].tag == "div"@ && spec_id_starts_dictionary(
                nv[i as int],
            ) {
                if nv[i as int].id == "dictionary-neodict-es"@ {
                    spec_neodict_section(nv[i as int])
                } else if nv[i as int].id == "dictionary-neoharrap-es"@ {
                    spec_harrap_section(nv[i as int])
                } else {
                    Seq::empty()
                }
            } else {
                Seq::empty()
            }));
        }
        let inside_below = inside || crate::text::str_eq(c.id.as_str(), "main-container-video");
        let mut below = sections_walk(&c.children, 0, inside_below);
        let ghost bv = defs_view(below@);
        let mut rest = sections_walk(ns, i + 1, inside);
        let ghost rv = defs_view(rest@);
        here.append(&mut below);
        here.append(&mut rest);
        proof {
            assert(defs_view(here@) =~~= hv + bv + rv);
        }
        here
    }
}

/// Recovers the dictionary entry a translation page yields for `word`:
/// every dictionary section under the main container is walked by its
/// own convention, definitions in document order; unknown sections and
/// malformed groups are skipped, never an error.
pub fn extract_entry(root: &DomNode, word: &str) -> (r: DictionaryEntry)
    ensures
        r@ == spec_extract_entry(root@, word@),
{
    let inside = crate::text::str_eq(root.id.as_str(), "main-container-video");
    let mut here: Vec<DictionaryDefinition> =
        if inside && root.has_tag("div") && id_starts_dictionary(root) {
            if crate::text::str_eq(root.id.as_str(), "dictionary-neodict-es") {
                neodict_walk(&root.children, 0, is_div_lang(root))
            } else if crate::text::str_eq(root.id.as_str(), "dictionary-neoharrap-es") {
                harrap_e1s(&root.children, 0)
            } else {
                Vec::new()
            }
        } else {
            Vec::new()
        };
    let ghost hv = defs_view(here@);
    let mut below = sections_walk(&root.children, 0, inside);
    let ghost bv = defs_view(below@);
    here.append(&mut below);
    let entry = DictionaryEntry { word: word.to_owned(), definitions: here };
    proof {
        let rv = seq![root@];
        assert(rv[0] == root@);
        assert(spec_sections_walk(rv, 1, root@.id == "main-container-video"@) =~~= Seq::<
            DictionaryDefinitionView,
        >::empty());
        assert(spec_sections_walk(rv, 0, root@.id == "main-container-video"@) =~~= (if (root@.id
            == "main-container-video"@) && root@.tag == "div"@ && spec_id_starts_dictionary(
            root@,
        ) {
            if root@.id == "dictionary-neodict-es"@ {
                spec_neodict_section(root@)
            } else if root@.id == "dictionary-neoharrap-es"@ {
                spec_harrap_section(root@)
            } else {
                Seq::empty()
            }
        } else {
            Seq::empty()
        }) + spec_sections_walk(root@.children, 0, (root@.id == "main-container-video"@))
            + Seq::empty());
        assert(entry@ =~~= spec_extract_entry(root@, word@));
    }
    entry
}

/// Builds the translation-page URL for a word.
pub fn search_vocab_url(word: &str) -> (r: String)
    ensures
        r@ == "https://www.spanishdict.com/translate/"@ + form_urlencoded_key(word@),
{
    let encoded = encode_key_only(word);
    let mut url = "https://www.spanishdict.com/translate/".to_owned();
    url.append(encoded.as_str());
    url
}

/// Where one lookup stands.
#[derive(Debug, Clone, Copy, PartialEq, Eq, Structural)]
pub enum LookupPhase {
    /// Look the word itself up.
    Direct,
    /// Ask the keyword model for a fallback keyword.
    NeedKeyword,
    /// Look the extracted keyword up.
    TryingKeyword,
    /// A lookup returned definitions; they are in `found`.
    Done,
    /// Every attempt was spent, or the keyword model failed.
    Failed,
}

/// The retry policy of one dictionary lookup: a bounded number of direct
/// attempts, then a bounded number of keyword-fallback rounds, stopping
/// at the first lookup that yields a non-empty definition list. The
/// lookups and the keyword model run outside; this machine owns every
/// decision between them.
pub struct LookupSession {
    pub word: String,
    pub keyword: Option<String>,
    pub direct_left: u8,
    pub fallback_left: u8,
    pub phase: LookupPhase,
    pub found: Option<DictionaryEntry>,
}

/// How many direct attempts a lookup makes.
pub open spec fn direct_attempts() -> int {
    2
}

/// How many keyword-fallback rounds a lookup makes.
pub open spec fn fallback_attempts() -> int {
    2
}

impl LookupSession {
    /// Starts a lookup for `word`.
    pub fn new(word: &str) -> (r: Self)
        ensures
            r.word@ == word@,
            r.keyword is None,
            r.direct_left as int == direct_attempts(),
            r.fallback_left as int == fallback_attempts(),
            r.phase == LookupPhase::Direct,
            r.found is None,
    {
        LookupSession {
            word: word.to_owned(),
            keyword: None,
            direct_left: 2,
            fallback_left: 2,
            phase: LookupPhase::Direct,
            found: None,
        }
    }

    /// Whether `entry` counts as a successful lookup: it must carry at
    /// least one definition.
    pub open spec fn spec_success(entry: Option<DictionaryEntry>) -> bool {
        entry matches Some(e) && e.definitions@.len() > 0
    }

    /// Accounts the outcome of one direct lookup of `word`. A non-empty
    /// entry ends the lookup with it; an empty or failed one spends one
    /// direct attempt, and the last spent attempt moves on to the
    /// keyword fallback.
    pub fn on_direct_result(&mut self, entry: Option<DictionaryEntry>)
        requires
            old(self).phase == LookupPhase::Direct,
            old(self).direct_left > 0,
        ensures
            final(self).word == old(self).word,
            final(self).fallback_left == old(self).fallback_left,
            Self::spec_success(entry) ==> (final(self).phase == LookupPhase::Done && final(self).found == entry),
            !Self::spec_success(entry) ==> (final(self).found == old(self).found && final(self).direct_left == old(self).direct_left - 1 && final(self).phase == (
            if old(self).direct_left == 1 {
                LookupPhase::NeedKeyword
            } else {
                LookupPhase::Direct
            })),
    {
        let success = match &entry {
            Some(e) => e.definitions.len() > 0,
            None => false,
        };
        if success {
            self.phase = LookupPhase::Done;
            self.found = entry;
        } else {
            self.direct_left = self.direct_left - 1;
            if self.direct_left == 0 {
                self.phase = LookupPhase::NeedKeyword;
            }
        }
    }

    /// Accounts what the keyword model returned. `None` means the model
    /// itself failed, which ends the lookup; an answer without a keyword
    /// spends one fallback round; a keyword moves on to looking it up.
    pub fn on_keyword_result(&mut self, keyword: Option<Option<String>>)
        requires
            old(self).phase == LookupPhase::NeedKeyword,
            old(self).fallback_left > 0,
        ensures
            final(self).word == old(self).word,
            final(self).found == old(self).found,
            keyword is None ==> final(self).phase == LookupPhase::Failed,
            keyword matches Some(None) ==> (final(self).fallback_left == old(self).fallback_left
                - 1 && final(self).phase == (
            if old(self).fallback_left == 1 {
                LookupPhase::Failed
            } else {
                LookupPhase::NeedKeyword
            })),
            keyword matches Some(Some(k)) ==> (final(self).phase == LookupPhase::TryingKeyword
                && final(self).keyword == Some(k) && final(self).fallback_left == old(self).fallback_left),
    {
        match keyword {
            None => {
                self.phase = LookupPhase::Failed;
            },
            Some(None) => {
                self.fallback_left = self.fallback_left - 1;
                if self.fallback_left == 0 {
                    self.phase = LookupPhase::Failed;
                }
            },
            Some(Some(k)) => {
                self.keyword = Some(k);
                self.phase = LookupPhase::TryingKeyword;
            },
        }
    }

    /// Accounts the outcome of one lookup of the extracted keyword. A
    /// non-empty entry ends the lookup with it — the fallback result is
    /// returned, not an error; otherwise one fallback round is spent.
    pub fn on_fallback_result(&mut self, entry: Option<DictionaryEntry>)
        requires
            old(self).phase == LookupPhase::TryingKeyword,
            old(self).fallback_left > 0,
        ensures
            final(self).word == old(self).word,
            Self::spec_success(entry) ==> (final(self).phase == LookupPhase::Done && final(self).found == entry),
            !Self::spec_success(entry) ==> (final(self).found == old(self).found && final(self).fallback_left == old(self).fallback_left - 1 && final(self).phase == (
            if old(self).fallback_left == 1 {
                LookupPhase::Failed
            } else {
                LookupPhase::NeedKeyword
            })),
    {
        let success = match &entry {
            Some(e) => e.definitions.len() > 0,
            None => false,
        };
        if success {
            self.phase = LookupPhase::Done;
            self.found = entry;
        } else {
            self.fallback_left = self.fallback_left - 1;
            if self.fallback_left == 0 {
                self.phase = LookupPhase::Failed;
            } else {
                self.phase = LookupPhase::NeedKeyword;
            }
        }
    }

    /// The entry the lookup ended with.
    pub fn into_found(self) -> (r: Option<DictionaryEntry>)
        ensures
            r == self.found,
    {
        self.found
    }
}

} // verus!
