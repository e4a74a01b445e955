use visual_vocab::error::CliError;
use visual_vocab::pipeline::flashcard::Flashcard;
use visual_vocab::pipeline::load::{flashcard_from_cells, normalize_cell, LoadPipeline, VocabFileType};
use visual_vocab::pipeline::transform::{
    output_name, render_flashcard_source, TransformOutputType, TransformPipeline,
};
use visual_vocab::pipeline::visual_vocab::{
    assemble_batch, collect_example_pairs, expect_flashcards, pick_words, EnrichTask, TaskPhase,
    VisualFlashCard,
};
use visual_vocab::pipeline::{PipelineError, PipelineIO};
use visual_vocab::spider::google_image::{GoogleImage, Image};
use visual_vocab::spider::spanish_dict::{
    DictionaryDefinition, DictionaryEntry, DictionaryExample,
};

fn card(word: &str, definition: &str) -> Flashcard {
    Flashcard { word: String::from(word), definition: String::from(definition) }
}

fn candidate(n: u32) -> GoogleImage {
    GoogleImage {
        thumb: Image { src: format!("https://t.example/{}", n), alt: String::new() },
        full: Image { src: format!("https://f.example/{}", n), alt: String::new() },
        title: format!("t{}", n),
        url: format!("https://p.example/{}", n),
    }
}

fn luz_entry() -> DictionaryEntry {
    DictionaryEntry {
        word: String::from("luz"),
        definitions: vec![DictionaryDefinition::DefinitionAndGroupWithExample {
            group: String::from("noun"),
            definition: String::from("light"),
            examples: vec![DictionaryExample::ExampleAndTranslation {
                example: String::from("la luz es bonita"),
                translation: String::from("the light is pretty"),
            }],
        }],
    }
}

#[test]
fn errors_carry_their_messages() {
    assert_eq!(CliError::new("no input").message(), "no input");
    assert_eq!(PipelineError::new("bad stage").message(), "bad stage");
}

#[test]
fn flashcard_fields_round_trip() {
    let c = card("luz", "light");
    let fields = c.to_fields();
    assert_eq!(fields, vec![String::from("luz"), String::from("light")]);
    let back = Flashcard::from_fields(&fields).expect("two fields should parse");
    assert_eq!(back.word, "luz");
    assert_eq!(back.definition, "light");
}

#[test]
fn flashcard_from_fields_rejects_wrong_length() {
    assert!(Flashcard::from_fields(&vec![String::from("solo")]).is_err());
    assert!(Flashcard::from_fields(&Vec::new()).is_err());
    assert!(
        Flashcard::from_fields(&vec![String::from("a"), String::from("b"), String::from("c")])
            .is_err()
    );
}

#[test]
fn file_type_follows_extension() {
    assert_eq!(VocabFileType::from_extension("yml"), Some(VocabFileType::Yaml));
    assert_eq!(VocabFileType::from_extension("yaml"), Some(VocabFileType::Yaml));
    assert_eq!(VocabFileType::from_extension("json"), Some(VocabFileType::Json));
    assert_eq!(VocabFileType::from_extension("docx"), Some(VocabFileType::Docx));
    assert_eq!(VocabFileType::from_extension("txt"), None);
    let p = LoadPipeline { path: String::from("words.yml"), filetype: None };
    assert!(p.filetype.is_none());
}

#[test]
fn cells_become_flashcards_only_when_distinct() {
    let c = flashcard_from_cells("la luz", "the light").expect("distinct cells should keep");
    assert_eq!(c.word, "la luz");
    assert_eq!(c.definition, "the light");
    // Empty cells and cells equal once lowercased are skipped.
    assert!(flashcard_from_cells("", "light").is_none());
    assert!(flashcard_from_cells("luz", "").is_none());
    assert!(flashcard_from_cells("Gato", "gato").is_none());
}

#[test]
fn cell_text_is_normalized() {
    assert_eq!(normalize_cell("ir -> irse"), "ir → irse");
    assert_eq!(normalize_cell("“luz”"), "\"luz\"");
    assert_eq!(normalize_cell("u¨nico"), "unico");
    assert_eq!(normalize_cell("sin cambios"), "sin cambios");
}

#[test]
fn transform_names_default_by_type() {
    assert_eq!(output_name(&None, TransformOutputType::Yaml), "flashcard.yml");
    assert_eq!(output_name(&None, TransformOutputType::Json), "flashcard.json");
    assert_eq!(output_name(&None, TransformOutputType::Pdf), "flashcard.pdf");
    assert_eq!(
        output_name(&Some(String::from("mine.pdf")), TransformOutputType::Pdf),
        "mine.pdf"
    );
    let t = TransformPipeline {
        name: None,
        output_type: TransformOutputType::Pdf,
        row: 6,
        column: 3,
        fontsize: String::from("14pt"),
    };
    assert_eq!(t.row, 6);
}

#[test]
fn flashcard_source_fills_template_and_lays_out_pages() {
    let cards = vec![card("uno", "one"), card("dos", "two"), card("tres", "three")];
    let source = render_flashcard_source("rows <ROW> cols <COLUMN> size <FONT_SIZE>\n", 2, 1, "14pt", &cards);
    let expected = "rows 2 cols 1 size 14pt\n\
        #card_layout(\nfront[uno],\nfront[dos]\n)\n#pagebreak()\n#card_layout(\nback[one],\nback[two]\n)\n\
        #card_layout(\nfront[tres]\n)\n#pagebreak()\n#card_layout(\nback[three]\n)";
    assert_eq!(source, expected);
}

#[test]
fn collect_pairs_labels_definitions() {
    let pairs = collect_example_pairs(&luz_entry().definitions);
    assert_eq!(pairs.len(), 1);
    assert_eq!(pairs[0].0, "light (noun)");
    assert_eq!(pairs[0].1, "la luz es bonita");
    // Definitions without examples contribute nothing.
    let defs = vec![DictionaryDefinition::Definition { definition: String::from("light") }];
    assert!(collect_example_pairs(&defs).is_empty());
}

#[test]
fn expect_flashcards_accepts_only_card_batches() {
    let cards = vec![card("luz", "light")];
    let got = expect_flashcards(Some(PipelineIO::Flashcard(cards))).expect("cards should pass");
    assert_eq!(got.len(), 1);
    assert!(expect_flashcards(None).is_err());
    assert!(expect_flashcards(Some(PipelineIO::Clipboard(String::from("x")))).is_err());
}

#[test]
fn enrichment_emits_one_visual_flashcard() {
    // The end-to-end happy path for "luz": one dictionary definition
    // with one example, and the one image candidate downloads.
    let mut task = EnrichTask::new(card("luz", "the light (input definition)"));
    assert_eq!(task.phase, TaskPhase::FetchingImages);
    task.on_images(Some(vec![candidate(0)]));
    assert_eq!(task.phase, TaskPhase::FetchingDictionary);
    task.on_dictionary(Some(luz_entry()));
    assert_eq!(task.phase, TaskPhase::Ranking);
    assert_eq!(task.labels(), vec![String::from("light (noun)")]);
    task.on_scores(vec![800_000]);
    assert_eq!(task.phase, TaskPhase::PickingImage);
    let idx = task.pick_candidate().expect("one candidate is left");
    assert_eq!(idx, 0);
    task.on_image_result(idx, Some(vec![1u8, 2u8, 3u8]));
    assert_eq!(task.phase, TaskPhase::Done);
    let cardout = task.into_result().expect("the task finished");
    assert_eq!(cardout.word, "luz");
    assert_eq!(cardout.definition, "the light (input definition)");
    assert_eq!(cardout.image, vec![1u8, 2u8, 3u8]);
    assert_eq!(cardout.example, "la luz es bonita");
}

#[test]
fn enrichment_fails_without_examples() {
    let mut task = EnrichTask::new(card("luz", "light"));
    task.on_images(Some(vec![candidate(0)]));
    let entry = DictionaryEntry {
        word: String::from("luz"),
        definitions: vec![DictionaryDefinition::Definition { definition: String::from("x") }],
    };
    task.on_dictionary(Some(entry));
    assert_eq!(task.phase, TaskPhase::Failed);
}

#[test]
fn enrichment_fails_when_no_score_clears_threshold() {
    let mut task = EnrichTask::new(card("luz", "light"));
    task.on_images(Some(vec![candidate(0)]));
    task.on_dictionary(Some(luz_entry()));
    task.on_scores(vec![0]);
    assert_eq!(task.phase, TaskPhase::Failed);
}

#[test]
fn failed_downloads_degrade_one_word_without_touching_siblings() {
    // Every candidate download fails for the first word: its task must
    // fail. A sibling task still completes, and the assembled batch
    // holds one record per word, the failed one a placeholder.
    let mut failing = EnrichTask::new(card("luz", "light"));
    failing.on_images(Some(vec![candidate(0), candidate(1)]));
    failing.on_dictionary(Some(luz_entry()));
    failing.on_scores(vec![900_000]);
    let first = failing.pick_candidate().expect("two candidates");
    failing.on_image_result(first, None);
    assert_eq!(failing.phase, TaskPhase::PickingImage);
    let second = failing.pick_candidate().expect("one candidate left");
    failing.on_image_result(second, None);
    assert_eq!(failing.phase, TaskPhase::Failed);

    let mut fine = EnrichTask::new(card("sol", "sun"));
    fine.on_images(Some(vec![candidate(7)]));
    fine.on_dictionary(Some(DictionaryEntry {
        word: String::from("sol"),
        definitions: vec![DictionaryDefinition::DefinitionAndGroupWithExample {
            group: String::from("noun"),
            definition: String::from("sun"),
            examples: vec![DictionaryExample::Example { example: String::from("el sol brilla") }],
        }],
    }));
    fine.on_scores(vec![700_000]);
    let i = fine.pick_candidate().expect("one candidate");
    fine.on_image_result(i, Some(vec![9u8]));
    assert_eq!(fine.phase, TaskPhase::Done);

    let batch = assemble_batch(vec![failing.into_result(), fine.into_result()]);
    assert_eq!(batch.len(), 2);
    assert!(batch[0].word.is_empty() && batch[0].image.is_empty() && batch[0].example.is_empty());
    assert_eq!(batch[1].word, "sol");
    assert_eq!(batch[1].example, "el sol brilla");
}

#[test]
fn placeholder_is_empty() {
    let p = VisualFlashCard::default();
    assert!(p.word.is_empty() && p.definition.is_empty());
    assert!(p.image.is_empty() && p.example.is_empty());
}

#[test]
fn picked_words_come_from_the_batch() {
    let cards = vec![card("a", "1"), card("b", "2"), card("c", "3"), card("d", "4")];
    let picked = pick_words(cards.clone(), 3);
    assert_eq!(picked.len(), 3);
    for p in &picked {
        assert!(cards.iter().any(|c| c.word == p.word && c.definition == p.definition));
    }
}

#[test]
fn enrichment_fails_without_image_candidates() {
    let mut task = EnrichTask::new(card("luz", "light"));
    task.on_images(Some(Vec::new()));
    assert_eq!(task.phase, TaskPhase::Failed);
    let mut task = EnrichTask::new(card("luz", "light"));
    task.on_images(None);
    assert_eq!(task.phase, TaskPhase::Failed);
}

#[test]
fn enrichment_fails_when_best_example_is_empty() {
    // An example may be the empty string in the markup; a record is
    // never built around one.
    let mut task = EnrichTask::new(card("luz", "light"));
    task.on_images(Some(vec![candidate(0)]));
    let entry = DictionaryEntry {
        word: String::from("luz"),
        definitions: vec![DictionaryDefinition::DefinitionAndGroupWithExample {
            group: String::from("noun"),
            definition: String::from("light"),
            examples: vec![DictionaryExample::Example { example: String::new() }],
        }],
    };
    task.on_dictionary(Some(entry));
    assert_eq!(task.phase, TaskPhase::Ranking);
    task.on_scores(vec![900_000]);
    assert_eq!(task.phase, TaskPhase::Failed);
}

#[test]
fn empty_download_counts_as_a_failed_candidate() {
    let mut task = EnrichTask::new(card("luz", "light"));
    task.on_images(Some(vec![candidate(0)]));
    task.on_dictionary(Some(luz_entry()));
    task.on_scores(vec![900_000]);
    let idx = task.pick_candidate().expect("one candidate");
    task.on_image_result(idx, Some(Vec::new()));
    assert_eq!(task.phase, TaskPhase::Failed);
}
