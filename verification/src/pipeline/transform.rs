//! Output shaping for the transform stage.
//!
//! The stage turns a flashcard batch into a document source: the page
//! template gets its layout markers filled in, and the cards are laid
//! out chunk by chunk, each chunk a front page and a back page.
//! Compiling and writing the document happen outside the library.

use vstd::prelude::*;
use vstd::string::StringExecFns;
use crate::pipeline::flashcard::{fcs_view, Flashcard, FlashcardView};
use crate::text::{
    chars_to_string, decimal_chars, find_from, spec_decimal, spec_find, str_chars, subvec,
};

verus! {

/// The file shapes the transform stage can emit.
#[derive(Debug, Copy, Clone, PartialEq, Eq, Structural)]
pub enum TransformOutputType {
    Yaml,
    Pdf,
    Json,
}

/// The configuration of the transform stage.
#[derive(Debug, Clone)]
pub struct TransformPipeline {
    pub name: Option<String>,
    pub output_type: TransformOutputType,
    pub row: u32,
    pub column: u32,
    pub fontsize: String,
}

/// The output file name: the configured one, or the default the output
/// shape carries.
pub fn output_name(name: &Option<String>, output_type: TransformOutputType) -> (r: String)
    ensures
        match name {
            Some(n) => r@ == n@,
            None => r@ == (match output_type {
                TransformOutputType::Yaml => "flashcard.yml"@,
                TransformOutputType::Json => "flashcard.json"@,
                TransformOutputType::Pdf => "flashcard.pdf"@,
            }),
        },
{
    match name {
        Some(n) => n.clone(),
        None => match output_type {
            TransformOutputType::Yaml => "flashcard.yml".to_owned(),
            TransformOutputType::Json => "flashcard.json".to_owned(),
            TransformOutputType::Pdf => "flashcard.pdf".to_owned(),
        },
    }
}

/// `s` with the first occurrence of `pat` replaced by `rep`; `s` itself
/// when `pat` does not occur.
pub open spec fn spec_replace_first(s: Seq<char>, pat: Seq<char>, rep: Seq<char>) -> Seq<char> {
    match spec_find(s, pat, 0) {
        None => s,
        Some(k) => s.take(k) + rep + s.skip(k + pat.len()),
    }
}

/// Replaces the first occurrence of `pat` in `text` by `rep`.
pub fn replace_first(text: &Vec<char>, pat: &Vec<char>, rep: &Vec<char>) -> (r: Vec<char>)
    requires
        pat@.len() > 0,
    ensures
        r@ == spec_replace_first(text@, pat@, rep@),
{
    match find_from(text, pat, 0) {
        None => {
            let mut r: Vec<char> = Vec::new();
            let mut i: usize = 0;
            while i < text.len()
                invariant
                    i <= text@.len(),
                    r@ == text@.take(i as int),
                decreases text@.len() - i,
            {
                r.push(text[i]);
                i = i + 1;
                proof {
                    assert(r@ =~= text@.take(i as int));
                }
            }
            proof {
                assert(text@.take(i as int) =~= text@);
            }
            r
        },
        Some(k) => {
            let tlen = text.len();
            proof {
                assert(text@.len() == tlen as int);
            }
            let mut r = subvec(text, 0, k);
            let mut mid = subvec(rep, 0, rep.len());
            let mut tail = subvec(text, k + pat.len(), text.len());
            r.append(&mut mid);
            r.append(&mut tail);
            proof {
                assert(rep@.subrange(0, rep@.len() as int) =~= rep@);
                assert(text@.subrange(0, k as int) =~= text@.take(k as int));
                assert(text@.subrange(k + pat@.len(), text@.len() as int) =~= text@.skip(
                    k + pat@.len(),
                ));
            }
            r
        },
    }
}

/// The front-page entry of one card.
pub open spec fn spec_front_item(c: FlashcardView) -> Seq<char> {
    "front["@ + c.word + "]"@
}

/// The back-page entry of one card.
pub open spec fn spec_back_item(c: FlashcardView) -> Seq<char> {
    "back["@ + c.definition + "]"@
}

/// The front-page entries of the cards in `[i, j)`, comma-joined.
pub open spec fn spec_fronts(cs: Seq<FlashcardView>, i: int, j: int) -> Seq<char>
    decreases j - i,
{
    if i < 0 || i >= j || j > cs.len() {
        Seq::empty()
    } else if i == j - 1 {
        spec_front_item(cs[i])
    } else {
        spec_front_item(cs[i]) + ",\n"@ + spec_fronts(cs, i + 1, j)
    }
}

/// The back-page entries of the cards in `[i, j)`, comma-joined.
pub open spec fn spec_backs(cs: Seq<FlashcardView>, i: int, j: int) -> Seq<char>
    decreases j - i,
{
    if i < 0 || i >= j || j > cs.len() {
        Seq::empty()
    } else if i == j - 1 {
        spec_back_item(cs[i])
    } else {
        spec_back_item(cs[i]) + ",\n"@ + spec_backs(cs, i + 1, j)
    }
}

/// One chunk's pages: the front layout, a page break, and the back
/// layout.
pub open spec fn spec_page(cs: Seq<FlashcardView>, i: int, j: int) -> Seq<char> {
    "#card_layout("@ + "\n"@ + spec_fronts(cs, i, j) + "\n"@ + ")"@ + "\n"@ + "#pagebreak()"@
        + "\n"@ + "#card_layout("@ + "\n"@ + spec_backs(cs, i, j) + "\n"@ + ")"@
}

/// The pages of the cards from position `i` on, `per` cards to a chunk,
/// newline-joined.
pub open spec fn spec_pages(cs: Seq<FlashcardView>, per: int, i: int) -> Seq<char>
    decreases cs.len() - i,
{
    if per <= 0 || i < 0 || i >= cs.len() {
        Seq::empty()
    } else {
        let j = if i + per < cs.len() {
            i + per
        } else {
            cs.len() as int
        };
        if j >= cs.len() {
            spec_page(cs, i, j)
        } else {
            spec_page(cs, i, j) + "\n"@ + spec_pages(cs, per, j)
        }
    }
}

fn fronts(cards: &Vec<Flashcard>, i: usize, j: usize) -> (r: String)
    requires
        i < j <= cards@.len(),
    ensures
        r@ == spec_fronts(fcs_view(cards@), i as int, j as int),
    decreases j - i,
{
    let ghost cv = fcs_view(cards@);
    proof {
        assert(cv[i as int] == cards@[i as int]@);
    }
    let mut s = "front[".to_owned();
    s.append(cards[i].word.as_str());
    s.append("]");
    if i + 1 < j {
        s.append(",\n");
        let rest = fronts(cards, i + 1, j);
        s.append(rest.as_str());
    }
    s
}

fn backs(cards: &Vec<Flashcard>, i: usize, j: usize) -> (r: String)
    requires
        i < j <= cards@.len(),
    ensures
        r@ == spec_backs(fcs_view(cards@), i as int, j as int),
    decreases j - i,
{
    let ghost cv = fcs_view(cards@);
    proof {
        assert(cv[i as int] == cards@[i as int]@);
    }
    let mut s = "back[".to_owned();
    s.append(cards[i].definition.as_str());
    s.append("]");
    if i + 1 < j {
        s.append(",\n");
        let rest = backs(cards, i + 1, j);
        s.append(rest.as_str());
    }
    s
}

fn pages(cards: &Vec<Flashcard>, per: usize, i: usize) -> (r: String)
    requires
        per > 0,
        i < cards@.len(),
    ensures
        r@ == spec_pages(fcs_view(cards@), per as int, i as int),
    decreases cards@.len() - i,
{
    let j = if cards.len() - i > per {
        i + per
    } else {
        cards.len()
    };
    let mut s = "#card_layout(".to_owned();
    s.append("\n");
    let f = fronts(cards, i, j);
    s.append(f.as_str());
    s.append("\n");
    s.append(")");
    s.append("\n");
    s.append("#pagebreak()");
    s.append("\n");
    s.append("#card_layout(");
    s.append("\n");
    let b = backs(cards, i, j);
    s.append(b.as_str());
    s.append("\n");
    s.append(")");
    if j < cards.len() {
        s.append("\n");
        let rest = pages(cards, per, j);
        s.append(rest.as_str());
    }
    s
}

/// The whole card layout source: the template with its row, column and
/// font-size markers filled in, followed by the cards' pages, `per_page`
/// cards to a chunk.
pub open spec fn spec_flashcard_source(
    template: Seq<char>,
    row: int,
    column: int,
    fontsize: Seq<char>,
    cs: Seq<FlashcardView>,
    per: int,
) -> Seq<char> {
    spec_replace_first(
        spec_replace_first(
            spec_replace_first(template, "<ROW>"@, spec_decimal(row)),
            "<COLUMN>"@,
            spec_decimal(column),
        ),
        "<FONT_SIZE>"@,
        fontsize,
    ) + spec_pages(cs, per, 0)
}

/// Renders the document source for a flashcard batch: the template's
/// `<ROW>`, `<COLUMN>` and `<FONT_SIZE>` markers filled in, then the
/// pages, `row * column` cards to a chunk.
pub fn render_flashcard_source(
    template: &str,
    row: u32,
    column: u32,
    fontsize: &str,
    cards: &Vec<Flashcard>,
) -> (r: String)
    requires
        row * column > 0,
        row * column <= usize::MAX,
    ensures
        r@ == spec_flashcard_source(
            template@,
            row as int,
            column as int,
            fontsize@,
            fcs_view(cards@),
            row as int * column as int,
        ),
{
    proof {
        reveal_strlit("<ROW>");
        reveal_strlit("<COLUMN>");
        reveal_strlit("<FONT_SIZE>");
    }
    let tv = str_chars(template);
    let row_marker = str_chars("<ROW>");
    let col_marker = str_chars("<COLUMN>");
    let font_marker = str_chars("<FONT_SIZE>");
    let step1 = replace_first(&tv, &row_marker, &decimal_chars(row));
    let step2 = replace_first(&step1, &col_marker, &decimal_chars(column));
    let fsv = str_chars(fontsize);
    let step3 = replace_first(&step2, &font_marker, &fsv);
    let mut out = chars_to_string(&step3);
    let per = (row as usize) * (column as usize);
    if cards.len() > 0 {
        let p = pages(cards, per, 0);
        out.append(p.as_str());
    } else {
        proof {
            assert(spec_pages(fcs_view(cards@), row as int * column as int, 0) =~= Seq::<
                char,
            >::empty());
            assert(out@ + Seq::<char>::empty() =~= out@);
        }
    }
    out
}

} // verus!
