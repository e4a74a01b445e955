use visual_vocab::spider::dom::{textify, DomNode};
use visual_vocab::spider::spanish_dict::{
    extract_entry, search_vocab_url, DictionaryDefinition, DictionaryEntry, DictionaryExample,
    LookupPhase, LookupSession,
};

fn text(s: &str) -> DomNode {
    DomNode::text_node(String::from(s))
}

fn elem(tag: &str, children: Vec<DomNode>) -> DomNode {
    DomNode::element(String::from(tag), String::new(), String::new(), children)
}

fn elem_lang(tag: &str, lang: &str, children: Vec<DomNode>) -> DomNode {
    DomNode::element(String::from(tag), String::new(), String::from(lang), children)
}

fn elem_id(tag: &str, id: &str, children: Vec<DomNode>) -> DomNode {
    DomNode::element(String::from(tag), String::from(id), String::new(), children)
}

#[test]
fn textify_cleans_edges() {
    let n = elem("span", vec![text("  (masculine noun)  ")]);
    assert_eq!(textify(&n), "masculine noun");
    let n = elem("div", vec![text("la "), elem("b", vec![text("luz")])]);
    assert_eq!(textify(&n), "la luz");
}

/// One language-grouped section: a group header tagged `en` inside a
/// `div[lang]`, whose following sibling holds one definition block.
fn neodict_section() -> DomNode {
    let block = elem(
        "div",
        vec![
            elem_lang("a", "en", vec![text("light")]),
            elem_lang("span", "es", vec![text("la luz es bonita")]),
            elem_lang("span", "en", vec![text("the light is pretty")]),
        ],
    );
    let header = elem_lang(
        "div",
        "en",
        vec![elem("span", vec![text("1. ")]), elem("span", vec![text("(noun)")])],
    );
    let group_wrap = elem_lang("div", "es", vec![header, elem("div", vec![block])]);
    elem_id("div", "dictionary-neodict-es", vec![group_wrap])
}

fn page(sections: Vec<DomNode>) -> DomNode {
    elem_id("div", "main-container-video", sections)
}

#[test]
fn neodict_section_yields_grouped_definitions() {
    let root = page(vec![neodict_section()]);
    let entry = extract_entry(&root, "luz");
    assert_eq!(entry.word, "luz");
    assert_eq!(entry.definitions.len(), 1);
    match &entry.definitions[0] {
        DictionaryDefinition::DefinitionAndGroupWithExample { group, definition, examples } => {
            assert_eq!(group, "noun");
            assert_eq!(definition, "light");
            assert_eq!(examples.len(), 1);
            match &examples[0] {
                DictionaryExample::ExampleAndTranslation { example, translation } => {
                    assert_eq!(example, "la luz es bonita");
                    assert_eq!(translation, "the light is pretty");
                },
                _ => panic!("expected an example with translation"),
            }
        },
        _ => panic!("expected a grouped definition with examples"),
    }
}

/// One example record of the positional section: exactly three element
/// children, example text first and translation last.
fn harrap_example(example: &str, translation: &str) -> DomNode {
    elem(
        "div",
        vec![
            elem("span", vec![text(example)]),
            elem("span", vec![text("—")]),
            elem("span", vec![text(translation)]),
        ],
    )
}

/// One positional group: the label is the third child of the first
/// child; the content is the second child's first child's three
/// elements, definition in the middle, examples last.
fn harrap_group(label: &str, definition: &str, examples: Vec<DomNode>) -> DomNode {
    let head = elem("div", vec![text(""), text(""), elem("span", vec![text(label)])]);
    let content = elem(
        "div",
        vec![elem(
            "div",
            vec![
                elem("span", vec![text("1.")]),
                elem("span", vec![text(definition)]),
                elem("div", examples),
            ],
        )],
    );
    elem("div", vec![head, content])
}

fn harrap_section(groups: Vec<DomNode>) -> DomNode {
    let e3 = elem("div", groups);
    let e2 = elem("div", vec![elem("span", vec![text("x")]), e3]);
    let e1 = elem("div", vec![e2]);
    elem_id("div", "dictionary-neoharrap-es", vec![e1])
}

#[test]
fn harrap_section_yields_positional_definitions() {
    let g = harrap_group("feminine noun", "light", vec![
        harrap_example("la luz es bonita", "the light is pretty"),
    ]);
    let root = page(vec![harrap_section(vec![g])]);
    let entry = extract_entry(&root, "luz");
    assert_eq!(entry.definitions.len(), 1);
    match &entry.definitions[0] {
        DictionaryDefinition::DefinitionAndGroupWithExample { group, definition, examples } => {
            assert_eq!(group, "feminine noun");
            assert_eq!(definition, "light");
            assert_eq!(examples.len(), 1);
            match &examples[0] {
                DictionaryExample::ExampleAndTranslation { example, translation } => {
                    assert_eq!(example, "la luz es bonita");
                    assert_eq!(translation, "the light is pretty");
                },
                _ => panic!("expected an example with translation"),
            }
        },
        _ => panic!("expected a grouped definition with examples"),
    }
}

#[test]
fn harrap_malformed_blocks_are_skipped_not_fatal() {
    // The first group's content carries two elements where three are
    // required: its definition text must be empty, not an error. Its
    // example block with two children is skipped. The second,
    // well-formed group must still be processed.
    let malformed_content = elem(
        "div",
        vec![elem(
            "div",
            vec![
                elem("span", vec![text("1.")]),
                elem(
                    "div",
                    vec![elem("div", vec![elem("span", vec![text("a")]), elem("span", vec![
                        text("b"),
                    ])])],
                ),
            ],
        )],
    );
    let malformed = elem(
        "div",
        vec![
            elem("div", vec![text(""), text(""), elem("span", vec![text("group a")])]),
            malformed_content,
        ],
    );
    let fine = harrap_group("group b", "light", vec![harrap_example("ex", "tr")]);
    let root = page(vec![harrap_section(vec![malformed, fine])]);
    let entry = extract_entry(&root, "luz");
    assert_eq!(entry.definitions.len(), 2);
    match &entry.definitions[0] {
        DictionaryDefinition::DefinitionAndGroup { group, definition } => {
            assert_eq!(group, "group a");
            assert_eq!(definition, "");
        },
        _ => panic!("expected a definition without examples"),
    }
    match &entry.definitions[1] {
        DictionaryDefinition::DefinitionAndGroupWithExample { group, definition, .. } => {
            assert_eq!(group, "group b");
            assert_eq!(definition, "light");
        },
        _ => panic!("expected a grouped definition with examples"),
    }
}

#[test]
fn unknown_sections_are_ignored() {
    let other = elem_id("div", "dictionary-other-es", vec![elem("div", vec![text("x")])]);
    let root = page(vec![other]);
    let entry = extract_entry(&root, "luz");
    assert_eq!(entry.definitions.len(), 0);
}

#[test]
fn sections_outside_the_container_are_ignored() {
    let root = elem("body", vec![neodict_section()]);
    let entry = extract_entry(&root, "luz");
    assert_eq!(entry.definitions.len(), 0);
}

#[test]
fn search_vocab_url_encodes_word() {
    assert_eq!(search_vocab_url("luz"), "https://www.spanishdict.com/translate/luz");
    assert_eq!(
        search_vocab_url("dos palabras"),
        "https://www.spanishdict.com/translate/dos+palabras"
    );
}

fn entry_with(defs: Vec<DictionaryDefinition>) -> DictionaryEntry {
    DictionaryEntry { word: String::from("luz"), definitions: defs }
}

fn one_definition() -> Vec<DictionaryDefinition> {
    vec![DictionaryDefinition::Definition { definition: String::from("light") }]
}

#[test]
fn lookup_returns_fallback_result_after_empty_direct_attempts() {
    // The direct lookups find no definitions; the keyword fallback
    // produces "luz" and its lookup succeeds: the session ends with the
    // fallback entry, not a failure.
    let mut s = LookupSession::new("la luz del sol");
    assert_eq!(s.phase, LookupPhase::Direct);
    s.on_direct_result(Some(entry_with(Vec::new())));
    assert_eq!(s.phase, LookupPhase::Direct);
    s.on_direct_result(None);
    assert_eq!(s.phase, LookupPhase::NeedKeyword);
    s.on_keyword_result(Some(Some(String::from("luz"))));
    assert_eq!(s.phase, LookupPhase::TryingKeyword);
    assert_eq!(s.keyword.as_deref(), Some("luz"));
    s.on_fallback_result(Some(entry_with(one_definition())));
    assert_eq!(s.phase, LookupPhase::Done);
    let found = s.into_found().expect("should hold the fallback entry");
    assert_eq!(found.definitions.len(), 1);
}

#[test]
fn lookup_fails_after_spending_every_attempt() {
    let mut s = LookupSession::new("luz");
    s.on_direct_result(None);
    s.on_direct_result(None);
    assert_eq!(s.phase, LookupPhase::NeedKeyword);
    s.on_keyword_result(Some(None));
    assert_eq!(s.phase, LookupPhase::NeedKeyword);
    s.on_keyword_result(Some(Some(String::from("sol"))));
    s.on_fallback_result(Some(entry_with(Vec::new())));
    assert_eq!(s.phase, LookupPhase::Failed);
    assert!(s.into_found().is_none());
}

#[test]
fn lookup_fails_when_keyword_model_fails() {
    let mut s = LookupSession::new("luz");
    s.on_direct_result(None);
    s.on_direct_result(None);
    s.on_keyword_result(None);
    assert_eq!(s.phase, LookupPhase::Failed);
}
