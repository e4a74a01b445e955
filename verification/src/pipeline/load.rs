//! Loading rules for on-disk vocabulary files.
//!
//! Reading the files is I/O and stays outside the library; the rules that
//! say which loader a file gets and which table cells become flashcards
//! live here.

use vstd::prelude::*;
use vstd::string::StrSliceExecFns;
use crate::pipeline::flashcard::Flashcard;
use crate::text::{chars_to_string, lower_of, lowercase, str_chars, str_eq};

verus! {

/// The file shapes a vocabulary list can be loaded from.
#[derive(Debug, Copy, Clone, PartialEq, Eq, Structural)]
pub enum VocabFileType {
    Yaml,
    Json,
    Docx,
}

impl VocabFileType {
    /// The loader a file extension selects, if any.
    pub fn from_extension(ext: &str) -> (r: Option<VocabFileType>)
        ensures
            r == Some(VocabFileType::Yaml) <==> (ext@ == "yml"@ || ext@ == "yaml"@),
            r == Some(VocabFileType::Json) <==> ext@ == "json"@,
            r == Some(VocabFileType::Docx) <==> ext@ == "docx"@,
            r is None <==> !(ext@ == "yml"@ || ext@ == "yaml"@ || ext@ == "json"@ || ext@
                == "docx"@),
    {
        proof {
            reveal_strlit("yml");
            reveal_strlit("yaml");
            reveal_strlit("json");
            reveal_strlit("docx");
            assert("yml"@.len() == 3 && "json"@.len() == 4 && "docx"@.len() == 4);
            assert("yaml"@[0] == 'y' && "json"@[0] == 'j' && "docx"@[0] == 'd');
        }
        if str_eq(ext, "yml") || str_eq(ext, "yaml") {
            Some(VocabFileType::Yaml)
        } else if str_eq(ext, "json") {
            Some(VocabFileType::Json)
        } else if str_eq(ext, "docx") {
            Some(VocabFileType::Docx)
        } else {
            None
        }
    }
}

/// The configuration of the loading stage: the file to load and, when
/// the extension is not to decide, the loader to use.
#[derive(Debug, Clone)]
pub struct LoadPipeline {
    pub path: String,
    pub filetype: Option<VocabFileType>,
}

/// The cleaned form of a table-cell text: each `->` becomes an arrow,
/// curly double quotes become plain ones, and diaeresis marks are
/// dropped.
pub open spec fn spec_normalize(s: Seq<char>) -> Seq<char>
    decreases s.len(),
{
    if s.len() == 0 {
        Seq::empty()
    } else if s.len() >= 2 && s[0] == '-' && s[1] == '>' {
        seq!['→'] + spec_normalize(s.skip(2))
    } else if s[0] == '“' || s[0] == '”' {
        seq!['"'] + spec_normalize(s.skip(1))
    } else if s[0] == '¨' {
        spec_normalize(s.skip(1))
    } else {
        seq![s[0]] + spec_normalize(s.skip(1))
    }
}

fn normalize_from(s: &Vec<char>, i: usize) -> (r: Vec<char>)
    requires
        i <= s@.len(),
    ensures
        r@ == spec_normalize(s@.skip(i as int)),
    decreases s@.len() - i,
{
    let ghost tail = s@.skip(i as int);
    if i >= s.len() {
        let r: Vec<char> = Vec::new();
        proof {
            assert(tail =~= Seq::<char>::empty());
        }
        r
    } else {
        proof {
            assert(tail.len() == s@.len() - i);
            assert(tail[0] == s@[i as int]);
            if tail.len() >= 2 {
                assert(tail[1] == s@[i as int + 1]);
            }
            assert(tail.skip(1) =~= s@.skip(i as int + 1));
            if i + 2 <= s@.len() {
                assert(tail.skip(2) =~= s@.skip(i as int + 2));
            }
        }
        if i + 1 < s.len() && s[i] == '-' && s[i + 1] == '>' {
            let mut rest = normalize_from(s, i + 2);
            let ghost restv = rest@;
            let mut r: Vec<char> = Vec::new();
            r.push('→');
            r.append(&mut rest);
            proof {
                assert(r@ =~= seq!['→'] + restv);
            }
            r
        } else if s[i] == '“' || s[i] == '”' {
            let mut rest = normalize_from(s, i + 1);
            let ghost restv = rest@;
            let mut r: Vec<char> = Vec::new();
            r.push('"');
            r.append(&mut rest);
            proof {
                assert(r@ =~= seq!['"'] + restv);
            }
            r
        } else if s[i] == '¨' {
            normalize_from(s, i + 1)
        } else {
            let c = s[i];
            let mut rest = normalize_from(s, i + 1);
            let ghost restv = rest@;
            let mut r: Vec<char> = Vec::new();
            r.push(c);
            r.append(&mut rest);
            proof {
                assert(r@ =~= seq![c] + restv);
            }
            r
        }
    }
}

/// Cleans one cell text.
pub fn normalize_cell(s: &str) -> (r: String)
    ensures
        r@ == spec_normalize(s@),
{
    let cs = str_chars(s);
    let normalized = normalize_from(&cs, 0);
    proof {
        assert(cs@.skip(0) =~= cs@);
    }
    chars_to_string(&normalized)
}

/// The flashcard a two-cell table row yields, if any: both cells must
/// hold text and the cells must differ once lowercased; the kept texts
/// are cleaned. Rows failing the test are skipped, not an error.
pub fn flashcard_from_cells(word: &str, definition: &str) -> (r: Option<Flashcard>)
    ensures
        match r {
            Some(c) => word@.len() > 0 && definition@.len() > 0 && lower_of(word@) != lower_of(
                definition@,
            ) && c.word@ == spec_normalize(word@) && c.definition@ == spec_normalize(definition@),
            None => !(word@.len() > 0 && definition@.len() > 0 && lower_of(word@) != lower_of(
                definition@,
            )),
        },
{
    if word.unicode_len() == 0 || definition.unicode_len() == 0 {
        return None;
    }
    let lw = lowercase(word);
    let ld = lowercase(definition);
    if lw == ld {
        return None;
    }
    Some(Flashcard { word: normalize_cell(word), definition: normalize_cell(definition) })
}

} // verus!
