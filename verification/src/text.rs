//! Character-level text utilities.
//!
//! The extractors work on character vectors; the two conversions to and
//! from `String` are the only trusted steps. Substring search and decimal
//! rendering are verified here.

use vstd::prelude::*;

verus! {

/// Relies on std's `str::chars`: the iterator yields exactly the
/// characters of `s`, in order.
#[verifier::external_body]
pub fn str_chars(s: &str) -> (r: Vec<char>)
    ensures
        r@ == s@,
{
    s.chars().collect()
}

/// Relies on std's `FromIterator` for `String`: collecting characters
/// builds the string holding exactly those characters, in order.
#[verifier::external_body]
pub fn chars_to_string(v: &Vec<char>) -> (r: String)
    ensures
        r@ == v@,
{
    v.iter().collect()
}

/// Whether two character vectors hold the same characters.
pub fn chars_eq(a: &Vec<char>, b: &Vec<char>) -> (r: bool)
    ensures
        r == (a@ == b@),
{
    if a.len() != b.len() {
        return false;
    }
    let mut i: usize = 0;
    while i < a.len()
        invariant
            i <= a@.len(),
            a@.len() == b@.len(),
            forall|j: int| 0 <= j < i ==> a@[j] == b@[j],
        decreases a@.len() - i,
    {
        if a[i] != b[i] {
            return false;
        }
        i = i + 1;
    }
    proof {
        assert(a@ =~= b@);
    }
    true
}

/// Whether two strings hold the same characters.
pub fn str_eq(a: &str, b: &str) -> (r: bool)
    ensures
        r == (a@ == b@),
{
    let av = str_chars(a);
    let bv = str_chars(b);
    chars_eq(&av, &bv)
}

/// What std's `str::to_lowercase` returns: a function of the characters
/// alone.
pub uninterp spec fn lower_of(s: Seq<char>) -> Seq<char>;

/// Relies on std's `str::to_lowercase`: the lowercased text depends on
/// the characters alone, and an empty string stays empty.
#[verifier::external_body]
pub fn lowercase(s: &str) -> (r: String)
    ensures
        r@ == lower_of(s@),
        s@.len() == 0 ==> r@.len() == 0,
{
    s.to_lowercase()
}

/// Whether `needle` occurs in `hay` starting at `i`.
pub open spec fn match_at(hay: Seq<char>, needle: Seq<char>, i: int) -> bool {
    0 <= i && i + needle.len() <= hay.len() && hay.subrange(i, i + needle.len()) == needle
}

/// The first position at or after `from` where `needle` occurs in `hay`.
pub open spec fn spec_find(hay: Seq<char>, needle: Seq<char>, from: int) -> Option<int>
    decreases hay.len() - from + 1,
{
    if from < 0 || from + needle.len() > hay.len() {
        None
    } else if match_at(hay, needle, from) {
        Some(from)
    } else {
        spec_find(hay, needle, from + 1)
    }
}

/// Whether `needle` occurs anywhere in `hay`.
pub open spec fn spec_contains(hay: Seq<char>, needle: Seq<char>) -> bool {
    spec_find(hay, needle, 0) is Some
}

fn match_at_exec(hay: &Vec<char>, needle: &Vec<char>, i: usize) -> (r: bool)
    requires
        i + needle@.len() <= hay@.len(),
        needle@.len() > 0,
    ensures
        r == match_at(hay@, needle@, i as int),
{
    let hlen = hay.len();
    let mut k: usize = 0;
    while k < needle.len()
        invariant
            k <= needle@.len(),
            i + needle@.len() <= hay@.len(),
            hlen == hay@.len(),
            forall|j: int| 0 <= j < k ==> hay@[i + j] == needle@[j],
        decreases needle@.len() - k,
    {
        if hay[i + k] != needle[k] {
            proof {
                assert(hay@.subrange(i as int, i + needle@.len())[k as int] != needle@[k as int]);
            }
            return false;
        }
        k = k + 1;
    }
    proof {
        assert(hay@.subrange(i as int, i + needle@.len()) =~= needle@);
    }
    true
}

/// Finds the first occurrence of `needle` in `hay` at or after `from`.
pub fn find_from(hay: &Vec<char>, needle: &Vec<char>, from: usize) -> (r: Option<usize>)
    requires
        needle@.len() > 0,
    ensures
        match r {
            Some(i) => spec_find(hay@, needle@, from as int) == Some(i as int) && i
                + needle@.len() <= hay@.len() && from <= i,
            None => spec_find(hay@, needle@, from as int) is None,
        },
{
    let hlen = hay.len();
    let nlen = needle.len();
    if nlen > hlen {
        proof {
            assert(spec_find(hay@, needle@, from as int) is None);
        }
        return None;
    }
    if from > hlen - nlen {
        proof {
            assert(spec_find(hay@, needle@, from as int) is None);
        }
        return None;
    }
    let mut i: usize = from;
    while i <= hlen - nlen
        invariant
            from <= i,
            i <= hlen,
            hlen == hay@.len(),
            nlen == needle@.len(),
            0 < needle@.len() <= hay@.len(),
            spec_find(hay@, needle@, from as int) == spec_find(hay@, needle@, i as int),
        decreases hay@.len() - i,
    {
        if match_at_exec(hay, needle, i) {
            return Some(i);
        }
        i = i + 1;
    }
    None
}

/// Whether `needle` occurs anywhere in `hay`.
pub fn contains_sub(hay: &Vec<char>, needle: &Vec<char>) -> (r: bool)
    requires
        needle@.len() > 0,
    ensures
        r == spec_contains(hay@, needle@),
{
    match find_from(hay, needle, 0) {
        Some(_) => true,
        None => false,
    }
}

/// Copies the characters of `v` from `a` (inclusive) to `b` (exclusive).
pub fn subvec(v: &Vec<char>, a: usize, b: usize) -> (r: Vec<char>)
    requires
        a <= b <= v@.len(),
    ensures
        r@ == v@.subrange(a as int, b as int),
{
    let mut r: Vec<char> = Vec::new();
    let mut i: usize = a;
    proof {
        assert(r@ =~= v@.subrange(a as int, a as int));
    }
    while i < b
        invariant
            a <= i <= b <= v@.len(),
            r@ == v@.subrange(a as int, i as int),
        decreases b - i,
    {
        r.push(v[i]);
        i = i + 1;
        proof {
            assert(r@ =~= v@.subrange(a as int, i as int));
        }
    }
    r
}

/// The decimal digit character for `d`.
pub open spec fn spec_digit_char(d: int) -> char {
    if d == 0 {
        '0'
    } else if d == 1 {
        '1'
    } else if d == 2 {
        '2'
    } else if d == 3 {
        '3'
    } else if d == 4 {
        '4'
    } else if d == 5 {
        '5'
    } else if d == 6 {
        '6'
    } else if d == 7 {
        '7'
    } else if d == 8 {
        '8'
    } else {
        '9'
    }
}

/// The decimal rendering of a non-negative number, most significant digit
/// first.
pub open spec fn spec_decimal(n: int) -> Seq<char>
    decreases n,
{
    if n < 10 {
        seq![spec_digit_char(n)]
    } else {
        spec_decimal(n / 10) + seq![spec_digit_char(n % 10)]
    }
}

fn digit_char(d: u32) -> (r: char)
    requires
        d < 10,
    ensures
        r == spec_digit_char(d as int),
{
    if d == 0 {
        '0'
    } else if d == 1 {
        '1'
    } else if d == 2 {
        '2'
    } else if d == 3 {
        '3'
    } else if d == 4 {
        '4'
    } else if d == 5 {
        '5'
    } else if d == 6 {
        '6'
    } else if d == 7 {
        '7'
    } else if d == 8 {
        '8'
    } else {
        '9'
    }
}

/// Renders `n` in decimal.
pub fn decimal_chars(n: u32) -> (r: Vec<char>)
    ensures
        r@ == spec_decimal(n as int),
    decreases n,
{
    if n < 10 {
        let mut r: Vec<char> = Vec::new();
        r.push(digit_char(n));
        proof {
            assert(r@ =~= seq![spec_digit_char(n as int)]);
        }
        r
    } else {
        let mut r = decimal_chars(n / 10);
        r.push(digit_char(n % 10));
        proof {
            assert(r@ =~= spec_decimal(n as int / 10) + seq![spec_digit_char(n as int % 10)]);
        }
        r
    }
}

} // verus!
