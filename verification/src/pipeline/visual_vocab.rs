//! Per-word enrichment of flashcards into visual flashcards.
//!
//! One task runs per input card; the fetches and the embedding model run
//! outside, and every decision between them — what to collect, which
//! example wins the ranking, which image candidate to try next, and when
//! the task has failed — stands here. A failed task degrades to a
//! placeholder; it never touches its siblings, and the batch always
//! yields one record per input card.

use vstd::prelude::*;
use crate::error::CliError;
use crate::pipeline::flashcard::Flashcard;
use crate::pipeline::PipelineIO;
use crate::rank::{rank_scores, rcs_view, spec_rank, lemma_rank_members};
use crate::spider::google_image::GoogleImage;
use crate::spider::pairs_view;
use crate::spider::spanish_dict::{
    defs_view, DictionaryDefinition, DictionaryDefinitionView, DictionaryEntry,
    DictionaryExampleView,
};
use vstd::string::StringExecFns;

verus! {

/// How many image candidates one task gathers before picking.
pub open spec fn image_pool_size() -> int {
    10
}

/// Returns the configured image-candidate pool size.
pub fn image_pool_size_exec() -> (r: u32)
    ensures
        r as int == image_pool_size(),
{
    10
}

/// The enriched output record: the input pair, raw image bytes, and the
/// example sentence that won the ranking. A record with empty image
/// bytes and an empty example is the placeholder a failed word degrades
/// to; an enrichment that succeeds always carries a non-empty image and
/// a non-empty example.
#[derive(Debug, Clone)]
pub struct VisualFlashCard {
    pub word: String,
    pub definition: String,
    pub image: Vec<u8>,
    pub example: String,
}

/// The shape of a [`VisualFlashCard`].
#[verifier::ext_equal]
pub struct VisualFlashCardView {
    pub word: Seq<char>,
    pub definition: Seq<char>,
    pub image: Seq<u8>,
    pub example: Seq<char>,
}

impl View for VisualFlashCard {
    type V = VisualFlashCardView;

    open spec fn view(&self) -> VisualFlashCardView {
        VisualFlashCardView {
            word: self.word@,
            definition: self.definition@,
            image: self.image@,
            example: self.example@,
        }
    }
}

impl VisualFlashCard {
    /// An identical copy of the record.
    pub fn duplicate(&self) -> (r: Self)
        ensures
            r@ == self@,
    {
        let mut image: Vec<u8> = Vec::new();
        let mut i: usize = 0;
        while i < self.image.len()
            invariant
                i <= self.image@.len(),
                image@ == self.image@.take(i as int),
            decreases self.image@.len() - i,
        {
            image.push(self.image[i]);
            i = i + 1;
            proof {
                assert(image@ =~= self.image@.take(i as int));
            }
        }
        proof {
            assert(self.image@.take(i as int) =~= self.image@);
        }
        VisualFlashCard {
            word: self.word.clone(),
            definition: self.definition.clone(),
            image,
            example: self.example.clone(),
        }
    }
}

impl Default for VisualFlashCard {
    /// The placeholder record a failed word degrades to: all fields
    /// empty.
    fn default() -> (r: Self)
        ensures
            r.word@ == Seq::<char>::empty(),
            r.definition@ == Seq::<char>::empty(),
            r.image@ == Seq::<u8>::empty(),
            r.example@ == Seq::<char>::empty(),
    {
        VisualFlashCard {
            word: String::new(),
            definition: String::new(),
            image: Vec::new(),
            example: String::new(),
        }
    }
}

/// The configuration of the enrichment stage.
#[derive(Debug, Clone)]
pub struct VisualVocabPipeline {
    pub row: u32,
    pub col: u32,
    pub filename: String,
    pub name: String,
    pub period: String,
}

/// The flashcards handed to this stage. The stage accepts exactly a
/// flashcard batch; any other input is refused.
pub fn expect_flashcards(input: Option<PipelineIO>) -> (r: Result<Vec<Flashcard>, CliError>)
    ensures
        match r {
            Ok(cards) => input matches Some(PipelineIO::Flashcard(v)) && v == cards,
            Err(e) => !(input matches Some(PipelineIO::Flashcard(_))) && e@ == "No flashcard input"@,
        },
{
    match input {
        Some(PipelineIO::Flashcard(cards)) => Ok(cards),
        _ => Err(CliError::new("No flashcard input")),
    }
}

/// The example text of an example record.
pub open spec fn spec_example_text(e: DictionaryExampleView) -> Seq<char> {
    match e {
        DictionaryExampleView::Example { example } => example,
        DictionaryExampleView::ExampleAndTranslation { example, translation } => example,
    }
}

/// The label a definition is ranked under: the definition text with its
/// group in parentheses.
pub open spec fn spec_def_label(group: Seq<char>, definition: Seq<char>) -> Seq<char> {
    definition + " ("@ + group + ")"@
}

/// The `(label, example)` pairs one definition contributes: one per
/// example it carries; definitions without examples contribute nothing.
pub open spec fn spec_pairs_of_def(d: DictionaryDefinitionView) -> Seq<(Seq<char>, Seq<char>)> {
    match d {
        DictionaryDefinitionView::DefinitionAndGroupWithExample { group, definition, examples } =>
            Seq::new(
            examples.len(),
            |i: int|
                if 0 <= i < examples.len() {
                    (spec_def_label(group, definition), spec_example_text(examples[i]))
                } else {
                    (Seq::<char>::empty(), Seq::<char>::empty())
                },
        ),
        _ => Seq::empty(),
    }
}

/// The `(label, example)` pairs of the definitions from position `i` on.
pub open spec fn spec_collect_pairs(ds: Seq<DictionaryDefinitionView>, i: int) -> Seq<
    (Seq<char>, Seq<char>),
>
    decreases ds.len() - i,
{
    if i < 0 || i >= ds.len() {
        Seq::empty()
    } else {
        spec_pairs_of_def(ds[i]) + spec_collect_pairs(ds, i + 1)
    }
}

/// Collects every `(definition label, example)` pair the entry's
/// definitions carry, in definition order then example order.
pub fn collect_example_pairs(defs: &Vec<DictionaryDefinition>) -> (r: Vec<(String, String)>)
    ensures
        pairs_view(r@) == spec_collect_pairs(defs_view(defs@), 0),
{
    let ghost dv = defs_view(defs@);
    let mut acc: Vec<(String, String)> = Vec::new();
    let mut i: usize = 0;
    proof {
        assert(pairs_view(acc@) =~= Seq::<(Seq<char>, Seq<char>)>::empty());
    }
    while i < defs.len()
        invariant
            i <= defs@.len(),
            dv == defs_view(defs@),
            spec_collect_pairs(dv, 0) == pairs_view(acc@) + spec_collect_pairs(dv, i as int),
        decreases defs@.len() - i,
    {
        proof {
            assert(dv[i as int] == defs@[i as int]@);
        }
        match &defs[i] {
            DictionaryDefinition::DefinitionAndGroupWithExample { group, definition, examples } => {
                let mut label = definition.clone();
                label.append(" (");
                label.append(group.as_str());
                label.append(")");
                let ghost labelv = label@;
                let ghost contribution = spec_pairs_of_def(dv[i as int]);
                let mut j: usize = 0;
                proof {
                    assert(contribution.len() == examples@.len());
                }
                while j < examples.len()
                    invariant
                        j <= examples@.len(),
                        labelv == label@,
                        contribution == spec_pairs_of_def(dv[i as int]),
                        contribution.len() == examples@.len(),
                        dv[i as int] matches
                            DictionaryDefinitionView::DefinitionAndGroupWithExample {
                                group: gv,
                                definition: defv,
                                examples: exv,
                            } && gv == group@ && defv == definition@ && exv.len()
                            == examples@.len() && labelv == spec_def_label(gv, defv) && (forall|
                            k: int,
                        |
                            0 <= k < examples@.len() ==> exv[k] == examples@[k]@),
                        spec_collect_pairs(dv, 0) == pairs_view(acc@) + contribution.skip(j as int)
                            + spec_collect_pairs(dv, i as int + 1),
                    decreases examples@.len() - j,
                {
                    let ghost acc0 = pairs_view(acc@);
                    let example_text = match &examples[j] {
                        crate::spider::spanish_dict::DictionaryExample::Example { example } =>
                            example.clone(),
                        crate::spider::spanish_dict::DictionaryExample::ExampleAndTranslation {
                            example,
                            translation,
                        } => example.clone(),
                    };
                    proof {
                        assert(contribution[j as int] == (labelv, spec_example_text(examples@[
                            j as int]@)));
                        assert(example_text@ == spec_example_text(examples@[j as int]@));
                    }
                    acc.push((label.clone(), example_text));
                    proof {
                        assert(pairs_view(acc@) =~= acc0 + seq![contribution[j as int]]);
                        assert(contribution.skip(j as int) =~= seq![contribution[j as int]]
                            + contribution.skip(j as int + 1));
                        assert((acc0 + seq![contribution[j as int]]) + contribution.skip(
                            j as int + 1,
                        ) =~= acc0 + (seq![contribution[j as int]] + contribution.skip(
                            j as int + 1,
                        )));
                    }
                    j = j + 1;
                }
                proof {
                    assert(contribution.skip(j as int) =~= Seq::<(Seq<char>, Seq<char>)>::empty());
                    assert(pairs_view(acc@) + Seq::<(Seq<char>, Seq<char>)>::empty()
                        + spec_collect_pairs(dv, i as int + 1) =~= pairs_view(acc@)
                        + spec_collect_pairs(dv, i as int + 1));
                }
            },
            _ => {
                proof {
                    assert(spec_pairs_of_def(dv[i as int]) =~= Seq::<
                        (Seq<char>, Seq<char>),
                    >::empty());
                    assert(pairs_view(acc@) + Seq::<(Seq<char>, Seq<char>)>::empty()
                        + spec_collect_pairs(dv, i as int + 1) =~= pairs_view(acc@)
                        + spec_collect_pairs(dv, i as int + 1));
                }
            },
        }
        i = i + 1;
    }
    proof {
        assert(spec_collect_pairs(dv, i as int) =~= Seq::<(Seq<char>, Seq<char>)>::empty());
        assert(pairs_view(acc@) + Seq::<(Seq<char>, Seq<char>)>::empty() =~= pairs_view(acc@));
    }
    acc
}

/// Relies on rand's `random`: draws one value from the standard
/// distribution of `T`. Nothing is promised of the value: every caller
/// must cope with any result.
pub assume_specification<T>[ rand::random::<T> ]() -> (r: T)
    where
        rand::distr::StandardUniform: rand::distr::Distribution<T>,
;

/// Where one per-word enrichment task stands.
#[derive(Debug, Clone, Copy, PartialEq, Eq, Structural)]
pub enum TaskPhase {
    /// Image candidates are being fetched.
    FetchingImages,
    /// The dictionary entry is being fetched.
    FetchingDictionary,
    /// The definition labels are being scored against the word.
    Ranking,
    /// Image candidates are being downloaded, best ranked example in hand.
    PickingImage,
    /// The visual flashcard is built; it is in `result`.
    Done,
    /// The word degrades to a placeholder.
    Failed,
}

/// One per-word enrichment task. The fetches, the embedding scores and
/// the image downloads happen outside; the task decides what each
/// result leads to. A failure can reach no further than the `Failed`
/// phase of the word it belongs to: sibling words share nothing with it.
pub struct EnrichTask {
    pub card: Flashcard,
    pub images: Vec<GoogleImage>,
    pub pairs: Vec<(String, String)>,
    pub example: Option<String>,
    pub result: Option<VisualFlashCard>,
    pub phase: TaskPhase,
}

/// What holds of a task between steps: an example is in hand from the
/// ranking step on, never empty; a finished task carries a record with
/// non-empty image bytes and a non-empty example.
pub open spec fn task_inv(t: EnrichTask) -> bool {
    &&& t.phase == TaskPhase::PickingImage ==> (t.example matches Some(e) && e@.len() > 0)
    &&& t.phase == TaskPhase::Done ==> (t.result matches Some(c) && c.image@.len() > 0
        && c.example@.len() > 0 && c.word@ == t.card.word@ && c.definition@ == t.card.definition@)
}

impl EnrichTask {
    /// Starts the enrichment of one card.
    pub fn new(card: Flashcard) -> (r: Self)
        ensures
            r.card == card,
            r.phase == TaskPhase::FetchingImages,
            r.images@.len() == 0,
            r.pairs@.len() == 0,
            r.example is None,
            r.result is None,
            task_inv(r),
    {
        EnrichTask {
            card,
            images: Vec::new(),
            pairs: Vec::new(),
            example: None,
            result: None,
            phase: TaskPhase::FetchingImages,
        }
    }

    /// Accounts the image-candidate fetch: without candidates the task
    /// fails, otherwise the dictionary fetch is next.
    pub fn on_images(&mut self, images: Option<Vec<GoogleImage>>)
        requires
            old(self).phase == TaskPhase::FetchingImages,
            task_inv(*old(self)),
        ensures
            task_inv(*final(self)),
            final(self).card == old(self).card,
            match images {
                Some(imgs) => final(self).images == imgs && final(self).phase == (
                if imgs@.len() == 0 {
                    TaskPhase::Failed
                } else {
                    TaskPhase::FetchingDictionary
                }),
                None => final(self).phase == TaskPhase::Failed,
            },
    {
        match images {
            Some(imgs) => {
                let empty = imgs.len() == 0;
                self.images = imgs;
                if empty {
                    self.phase = TaskPhase::Failed;
                } else {
                    self.phase = TaskPhase::FetchingDictionary;
                }
            },
            None => {
                self.phase = TaskPhase::Failed;
            },
        }
    }

    /// Accounts the dictionary fetch: the `(label, example)` pairs are
    /// collected, and a word without a single example fails here.
    pub fn on_dictionary(&mut self, entry: Option<DictionaryEntry>)
        requires
            old(self).phase == TaskPhase::FetchingDictionary,
            task_inv(*old(self)),
        ensures
            task_inv(*final(self)),
            final(self).card == old(self).card,
            final(self).images == old(self).images,
            match entry {
                Some(e) => pairs_view(final(self).pairs@) == spec_collect_pairs(
                    defs_view(e.definitions@),
                    0,
                ) && final(self).phase == (
                if spec_collect_pairs(defs_view(e.definitions@), 0).len() == 0 {
                    TaskPhase::Failed
                } else {
                    TaskPhase::Ranking
                }),
                None => final(self).phase == TaskPhase::Failed,
            },
    {
        match entry {
            Some(e) => {
                let pairs = collect_example_pairs(&e.definitions);
                proof {
                    assert(pairs_view(pairs@).len() == pairs@.len());
                }
                let empty = pairs.len() == 0;
                self.pairs = pairs;
                if empty {
                    self.phase = TaskPhase::Failed;
                } else {
                    self.phase = TaskPhase::Ranking;
                }
            },
            None => {
                self.phase = TaskPhase::Failed;
            },
        }
    }

    /// The definition labels to score against the word, in order.
    pub fn labels(&self) -> (r: Vec<String>)
        ensures
            r@.len() == self.pairs@.len(),
            forall|i: int| 0 <= i < r@.len() ==> r@[i]@ == #[trigger] self.pairs@[i].0@,
    {
        let mut r: Vec<String> = Vec::new();
        let mut i: usize = 0;
        while i < self.pairs.len()
            invariant
                i <= self.pairs@.len(),
                r@.len() == i,
                forall|k: int| 0 <= k < i ==> r@[k]@ == #[trigger] self.pairs@[k].0@,
            decreases self.pairs@.len() - i,
        {
            let pair: &(String, String) = &self.pairs[i];
            r.push(pair.0.clone());
            i = i + 1;
        }
        r
    }

    /// Accounts the ranking scores, one per pair: the top-scored pair's
    /// example is kept; a word where no score clears the threshold, or
    /// whose best example is empty, fails here. The ranking rule is the
    /// one of [`rank_scores`] with a cut of one and a threshold of zero.
    pub fn on_scores(&mut self, scores: Vec<i64>)
        requires
            old(self).phase == TaskPhase::Ranking,
            scores@.len() == old(self).pairs@.len(),
            task_inv(*old(self)),
        ensures
            task_inv(*final(self)),
            final(self).card == old(self).card,
            final(self).images == old(self).images,
            final(self).pairs == old(self).pairs,
            ({
                let ranked = spec_rank(scores@, 1, 0);
                if ranked.len() == 0 {
                    final(self).phase == TaskPhase::Failed
                } else {
                    {
                        let top = ranked[0].0;
                        let chosen = old(self).pairs@[top].1@;
                        if chosen.len() == 0 {
                            final(self).phase == TaskPhase::Failed
                        } else {
                            final(self).phase == TaskPhase::PickingImage && (final(self).example matches Some(e) && e@ == chosen)
                        }
                    }
                }
            }),
    {
        let ranked = rank_scores(&scores, 1, 0);
        proof {
            lemma_rank_members(scores@, 1, 0);
            assert(rcs_view(ranked@).len() == ranked@.len());
        }
        if ranked.len() == 0 {
            self.phase = TaskPhase::Failed;
        } else {
            let top: usize = ranked[0].index;
            proof {
                assert(rcs_view(ranked@)[0] == (ranked@[0].index as int, ranked@[0].score));
                assert(0 <= spec_rank(scores@, 1, 0)[0].0 < scores@.len());
            }
            let pair: &(String, String) = &self.pairs[top];
            let chosen = pair.1.clone();
            if chosen.unicode_len() == 0 {
                self.phase = TaskPhase::Failed;
            } else {
                self.example = Some(chosen);
                self.phase = TaskPhase::PickingImage;
            }
        }
    }

    /// The candidate to try next, drawn at random from those left.
    pub fn pick_candidate(&self) -> (r: Option<usize>)
        ensures
            match r {
                Some(i) => self.images@.len() > 0 && i < self.images@.len(),
                None => self.images@.len() == 0,
            },
    {
        if self.images.len() == 0 {
            None
        } else {
            let draw: u64 = rand::random();
            let len64 = self.images.len() as u64;
            let idx = (draw % len64) as usize;
            proof {
                assert(draw % len64 < len64);
            }
            Some(idx)
        }
    }

    /// Accounts one download attempt for the candidate at `idx`: bytes
    /// finish the task with the visual flashcard; a failed or empty
    /// download discards that candidate, and the last discarded
    /// candidate fails the task.
    pub fn on_image_result(&mut self, idx: usize, bytes: Option<Vec<u8>>)
        requires
            old(self).phase == TaskPhase::PickingImage,
            idx < old(self).images@.len(),
            task_inv(*old(self)),
        ensures
            task_inv(*final(self)),
            final(self).card == old(self).card,
            match bytes {
                Some(b) => if b@.len() > 0 {
                    final(self).phase == TaskPhase::Done && (final(self).result matches Some(c)
                        && c.word@ == old(self).card.word@ && c.definition@ == old(self).card.definition@ && c.image@ == b@ && Some(c.example) == old(self).example)
                } else {
                    final(self).phase == (
                    if old(self).images@.len() == 1 {
                        TaskPhase::Failed
                    } else {
                        TaskPhase::PickingImage
                    }) && final(self).images@ == old(self).images@.remove(idx as int)
                },
                None => final(self).phase == (
                if old(self).images@.len() == 1 {
                    TaskPhase::Failed
                } else {
                    TaskPhase::PickingImage
                }) && final(self).images@ == old(self).images@.remove(idx as int),
            },
    {
        let got = match &bytes {
            Some(b) => b.len() > 0,
            None => false,
        };
        if got {
            let b = match bytes {
                Some(b) => b,
                None => Vec::new(),
            };
            let example = match &self.example {
                Some(e) => e.clone(),
                None => String::new(),
            };
            self.result = Some(
                VisualFlashCard {
                    word: self.card.word.clone(),
                    definition: self.card.definition.clone(),
                    image: b,
                    example,
                },
            );
            self.phase = TaskPhase::Done;
        } else {
            self.images.remove(idx);
            if self.images.len() == 0 {
                self.phase = TaskPhase::Failed;
            }
        }
    }

    /// The finished record of a task that reached `Done`.
    pub fn into_result(self) -> (r: Option<VisualFlashCard>)
        requires
            task_inv(self),
        ensures
            r == self.result,
            self.phase == TaskPhase::Done ==> (r matches Some(c) && c.image@.len() > 0
                && c.example@.len() > 0),
    {
        self.result
    }
}

/// The shapes of an executable record list.
pub open spec fn vfcs_view(cs: Seq<VisualFlashCard>) -> Seq<VisualFlashCardView> {
    Seq::new(
        cs.len(),
        |i: int|
            if 0 <= i < cs.len() {
                cs[i]@
            } else {
                VisualFlashCardView {
                    word: Seq::empty(),
                    definition: Seq::empty(),
                    image: Seq::empty(),
                    example: Seq::empty(),
                }
            },
    )
}

/// Whether a record is the empty placeholder.
pub open spec fn spec_is_placeholder(c: VisualFlashCardView) -> bool {
    c.word.len() == 0 && c.definition.len() == 0 && c.image.len() == 0 && c.example.len() == 0
}

/// Joins the per-word outcomes back into one batch: one record per
/// input, in input order; a word whose task failed yields the empty
/// placeholder, and no failure touches any other word's record.
pub fn assemble_batch(outcomes: Vec<Option<VisualFlashCard>>) -> (r: Vec<VisualFlashCard>)
    ensures
        r@.len() == outcomes@.len(),
        forall|i: int|
            0 <= i < outcomes@.len() ==> match #[trigger] outcomes@[i] {
                Some(c) => vfcs_view(r@)[i] == c@,
                None => spec_is_placeholder(vfcs_view(r@)[i]),
            },
{
    let mut r: Vec<VisualFlashCard> = Vec::new();
    let mut i: usize = 0;
    let outcomes = outcomes;
    while i < outcomes.len()
        invariant
            i <= outcomes@.len(),
            r@.len() == i,
            forall|k: int|
                0 <= k < i ==> match #[trigger] outcomes@[k] {
                    Some(c) => r@[k]@ == c@,
                    None => spec_is_placeholder(r@[k]@),
                },
        decreases outcomes@.len() - i,
    {
        match &outcomes[i] {
            Some(c) => {
                r.push(c.duplicate());
            },
            None => {
                r.push(VisualFlashCard::default());
            },
        }
        proof {
            match outcomes@[i as int] {
                Some(c) => {
                    assert(r@[i as int]@ =~= c@);
                },
                None => {
                    assert(spec_is_placeholder(r@[i as int]@));
                },
            }
        }
        i = i + 1;
    }
    proof {
        assert(forall|k: int| 0 <= k < r@.len() ==> vfcs_view(r@)[k] == #[trigger] r@[k]@);
    }
    r
}

/// Picks `count` cards from `cards`, removing a random one each round,
/// as the stage does before enriching. Every picked card is one of the
/// given cards.
pub fn pick_words(cards: Vec<Flashcard>, count: usize) -> (r: Vec<Flashcard>)
    requires
        count <= cards@.len(),
    ensures
        r@.len() == count,
        forall|j: int| 0 <= j < r@.len() ==> cards@.contains(#[trigger] r@[j]),
{
    let ghost cards0 = cards@;
    let mut remaining = cards;
    let mut picked: Vec<Flashcard> = Vec::new();
    let mut n: usize = 0;
    while n < count
        invariant
            n <= count,
            picked@.len() == n,
            remaining@.len() == cards0.len() - n,
            count <= cards0.len(),
            forall|j: int| 0 <= j < remaining@.len() ==> cards0.contains(#[trigger] remaining@[j]),
            forall|j: int| 0 <= j < picked@.len() ==> cards0.contains(#[trigger] picked@[j]),
        decreases count - n,
    {
        let draw: u64 = rand::random();
        let len64 = remaining.len() as u64;
        let idx = (draw % len64) as usize;
        proof {
            assert(draw % len64 < len64);
        }
        let ghost before = remaining@;
        let card = remaining.remove(idx);
        proof {
            assert(cards0.contains(card)) by {
                assert(before[idx as int] == card);
            }
            assert(forall|j: int|
                0 <= j < remaining@.len() ==> cards0.contains(#[trigger] remaining@[j])) by {
                assert forall|j: int|
                    0 <= j < remaining@.len() implies cards0.contains(
                    #[trigger] remaining@[j],
                ) by {
                    if j < idx {
                        assert(remaining@[j] == before[j]);
                    } else {
                        assert(remaining@[j] == before[j + 1]);
                    }
                }
            }
        }
        picked.push(card);
        n = n + 1;
    }
    picked
}

} // verus!
