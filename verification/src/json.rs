//! A lenient JSON-like value model and parser.
//!
//! Result pages embed their render-time data as a JavaScript-object-like
//! literal: trailing commas, single-quoted strings and unquoted keys are all
//! in use, so a relaxed grammar is accepted rather than strict JSON.
//! Numbers are kept as their raw lexemes; the record walk never reads them.

use vstd::prelude::*;
use crate::text::chars_eq;

verus! {

/// A parsed lenient-JSON value.
///
/// Object member order is preserved: the payload walk relies on "the first
/// key of this object", so an order-keeping pair list is used, not a map.
#[derive(Debug)]
pub enum JsonValue {
    Null,
    Bool(bool),
    /// The raw lexeme of a numeric literal.
    Num(Vec<char>),
    Str(Vec<char>),
    Arr(Vec<JsonValue>),
    Obj(Vec<(Vec<char>, JsonValue)>),
}

/// The mathematical shape of a [`JsonValue`].
#[verifier::ext_equal]
pub enum JsonSpec {
    Null,
    Bool(bool),
    Num(Seq<char>),
    Str(Seq<char>),
    Arr(Seq<JsonSpec>),
    Obj(Seq<(Seq<char>, JsonSpec)>),
}

/// The shape of an executable item list, item by item.
pub open spec fn items_view(vs: Seq<JsonValue>) -> Seq<JsonSpec>
    decreases vs, 0int,
{
    Seq::new(
        vs.len(),
        |i: int|
            if 0 <= i < vs.len() {
                vs[i]@
            } else {
                JsonSpec::Null
            },
    )
}

/// The shape of an executable member list, member by member.
pub open spec fn members_view(ms: Seq<(Vec<char>, JsonValue)>) -> Seq<(Seq<char>, JsonSpec)>
    decreases ms, 0int,
{
    Seq::new(
        ms.len(),
        |i: int|
            if 0 <= i < ms.len() {
                (ms[i].0@, ms[i].1@)
            } else {
                (Seq::<char>::empty(), JsonSpec::Null)
            },
    )
}

impl View for JsonValue {
    type V = JsonSpec;

    open spec fn view(&self) -> JsonSpec
        decreases self, 1int,
    {
        match self {
            JsonValue::Null => JsonSpec::Null,
            JsonValue::Bool(b) => JsonSpec::Bool(*b),
            JsonValue::Num(s) => JsonSpec::Num(s@),
            JsonValue::Str(s) => JsonSpec::Str(s@),
            JsonValue::Arr(items) => JsonSpec::Arr(items_view(items@)),
            JsonValue::Obj(members) => JsonSpec::Obj(members_view(members@)),
        }
    }
}

/// First value of the members whose key is `key`; `Null` when no member
/// carries the key.
pub open spec fn spec_member_lookup(ms: Seq<(Seq<char>, JsonSpec)>, key: Seq<char>) -> JsonSpec
    decreases ms.len(),
{
    if ms.len() == 0 {
        JsonSpec::Null
    } else if ms[0].0 == key {
        ms[0].1
    } else {
        spec_member_lookup(ms.drop_first(), key)
    }
}

impl JsonSpec {
    /// Array indexing as the payload walk uses it: anything but an array,
    /// or an index out of range, yields `Null`.
    pub open spec fn idx(self, i: int) -> JsonSpec {
        match self {
            JsonSpec::Arr(vs) => if 0 <= i < vs.len() {
                vs[i]
            } else {
                JsonSpec::Null
            },
            _ => JsonSpec::Null,
        }
    }

    /// Object lookup by key; `Null` when `self` is no object or the key is
    /// absent.
    pub open spec fn member(self, key: Seq<char>) -> JsonSpec {
        match self {
            JsonSpec::Obj(ms) => spec_member_lookup(ms, key),
            _ => JsonSpec::Null,
        }
    }
}

impl JsonValue {
    /// The element at `i` of an array value.
    pub fn try_idx(&self, i: usize) -> (r: Option<&JsonValue>)
        ensures
            match r {
                Some(v) => v@ == self@.idx(i as int) && (self@ matches JsonSpec::Arr(vs) && i
                    < vs.len()),
                None => self@.idx(i as int) == JsonSpec::Null,
            },
    {
        match self {
            JsonValue::Arr(vs) => {
                if i < vs.len() {
                    Some(&vs[i])
                } else {
                    None
                }
            },
            _ => None,
        }
    }

    /// The value of the first member carrying `key` in an object value.
    pub fn get_member(&self, key: &Vec<char>) -> (r: Option<&JsonValue>)
        ensures
            match r {
                Some(v) => v@ == self@.member(key@),
                None => self@.member(key@) == JsonSpec::Null,
            },
    {
        match self {
            JsonValue::Obj(ms) => {
                let mut i: usize = 0;
                proof {
                    assert(self@ == JsonSpec::Obj(members_view(ms@)));
                    assert(members_view(ms@).skip(0) =~= members_view(ms@));
                }
                while i < ms.len()
                    invariant
                        i <= ms@.len(),
                        self@ == JsonSpec::Obj(members_view(ms@)),
                        spec_member_lookup(members_view(ms@), key@) == spec_member_lookup(
                            members_view(ms@).skip(i as int),
                            key@,
                        ),
                    decreases ms@.len() - i,
                {
                    let ghost s = members_view(ms@).skip(i as int);
                    proof {
                        assert(s.len() == ms@.len() - i);
                        assert(s[0] == members_view(ms@)[i as int]);
                        assert(s[0] == (ms@[i as int].0@, ms@[i as int].1@));
                        assert(s.drop_first() =~= members_view(ms@).skip(i as int + 1));
                    }
                    if chars_eq(&ms[i].0, key) {
                        let pair: &(Vec<char>, JsonValue) = &ms[i];
                        proof {
                            assert(spec_member_lookup(s, key@) == s[0].1);
                            assert(pair.1@ == ms@[i as int].1@);
                            assert(self@.member(key@) == pair.1@);
                        }
                        return Some(&pair.1);
                    }
                    proof {
                        assert(spec_member_lookup(s, key@) == spec_member_lookup(
                            s.drop_first(),
                            key@,
                        ));
                    }
                    i = i + 1;
                }
                proof {
                    assert(members_view(ms@).skip(i as int) =~= Seq::<
                        (Seq<char>, JsonSpec),
                    >::empty());
                }
                None
            },
            _ => None,
        }
    }

    /// The characters of a string value.
    pub fn str_chars_ref(&self) -> (r: Option<&Vec<char>>)
        ensures
            match r {
                Some(t) => self@ == JsonSpec::Str(t@),
                None => !(self@ is Str),
            },
    {
        match self {
            JsonValue::Str(t) => Some(t),
            _ => None,
        }
    }

    /// The items of an array value.
    pub fn arr_items(&self) -> (r: Option<&Vec<JsonValue>>)
        ensures
            match r {
                Some(vs) => self@ == JsonSpec::Arr(items_view(vs@)),
                None => !(self@ is Arr),
            },
    {
        match self {
            JsonValue::Arr(vs) => Some(vs),
            _ => None,
        }
    }

    /// The members of an object value.
    pub fn obj_members(&self) -> (r: Option<&Vec<(Vec<char>, JsonValue)>>)
        ensures
            match r {
                Some(ms) => self@ == JsonSpec::Obj(members_view(ms@)),
                None => !(self@ is Obj),
            },
    {
        match self {
            JsonValue::Obj(ms) => Some(ms),
            _ => None,
        }
    }
}

/// Whitespace accepted between tokens.
pub open spec fn is_json_ws(c: char) -> bool {
    c == ' ' || c == '\t' || c == '\n' || c == '\r'
}

/// Decimal digit.
pub open spec fn is_json_digit(c: char) -> bool {
    '0' <= c && c <= '9'
}

/// Characters that may appear in a numeric lexeme. The lexeme is kept raw,
/// so signs, fractions and exponents are all accepted without shape checks.
pub open spec fn is_json_num_char(c: char) -> bool {
    is_json_digit(c) || c == '-' || c == '+' || c == '.' || c == 'e' || c == 'E'
}

/// First character of an unquoted object key.
pub open spec fn is_json_ident_start(c: char) -> bool {
    ('a' <= c && c <= 'z') || ('A' <= c && c <= 'Z') || c == '_' || c == '$'
}

/// Later character of an unquoted object key.
pub open spec fn is_json_ident_char(c: char) -> bool {
    is_json_ident_start(c) || is_json_digit(c)
}

/// What a backslash escape inside a string denotes. Unicode escapes are kept
/// verbatim (backslash included); any other escaped character denotes itself.
pub open spec fn spec_unescaped(c: char) -> Seq<char> {
    if c == 'n' {
        seq!['\n']
    } else if c == 't' {
        seq!['\t']
    } else if c == 'r' {
        seq!['\r']
    } else if c == 'b' {
        seq!['\u{0008}']
    } else if c == 'f' {
        seq!['\u{000c}']
    } else if c == 'u' {
        seq!['\\', 'u']
    } else {
        seq![c]
    }
}

/// Index of the first non-whitespace character at or after `pos`.
pub open spec fn spec_skip_ws(s: Seq<char>, pos: int) -> int
    decreases s.len() - pos,
{
    if 0 <= pos && pos < s.len() && is_json_ws(s[pos]) {
        spec_skip_ws(s, pos + 1)
    } else {
        pos
    }
}

/// Index just past the maximal run of numeric-lexeme characters.
pub open spec fn spec_scan_num(s: Seq<char>, pos: int) -> int
    decreases s.len() - pos,
{
    if 0 <= pos && pos < s.len() && is_json_num_char(s[pos]) {
        spec_scan_num(s, pos + 1)
    } else {
        pos
    }
}

/// Index just past the maximal run of identifier characters.
pub open spec fn spec_scan_ident(s: Seq<char>, pos: int) -> int
    decreases s.len() - pos,
{
    if 0 <= pos && pos < s.len() && is_json_ident_char(s[pos]) {
        spec_scan_ident(s, pos + 1)
    } else {
        pos
    }
}

/// Parses the remainder of a string literal whose opening quote `q` stands
/// just before `pos`. Returns the decoded content and the index just past
/// the closing quote.
pub open spec fn spec_parse_string(s: Seq<char>, pos: int, q: char) -> Option<(Seq<char>, int)>
    decreases s.len() - pos,
{
    if pos < 0 || pos >= s.len() {
        None
    } else if s[pos] == q {
        Some((Seq::empty(), pos + 1))
    } else if s[pos] == '\\' {
        if pos + 2 > s.len() {
            None
        } else {
            match spec_parse_string(s, pos + 2, q) {
                None => None,
                Some((t, e)) => Some((spec_unescaped(s[pos + 1]) + t, e)),
            }
        }
    } else {
        match spec_parse_string(s, pos + 1, q) {
            None => None,
            Some((t, e)) => Some((seq![s[pos]] + t, e)),
        }
    }
}

/// Parses one value starting at `pos`, leading whitespace allowed.
/// Returns the value and the index just past it.
pub open spec fn spec_parse_value(s: Seq<char>, pos: int) -> Option<(JsonSpec, int)>
    decreases s.len() - pos, 1int,
{
    if pos < 0 {
        None
    } else {
        let p = spec_skip_ws(s, pos);
        if p < pos || p >= s.len() {
            None
        } else if s[p] == '{' {
            match spec_parse_members(s, p + 1) {
                None => None,
                Some((ms, e)) => Some((JsonSpec::Obj(ms), e)),
            }
        } else if s[p] == '[' {
            match spec_parse_items(s, p + 1) {
                None => None,
                Some((vs, e)) => Some((JsonSpec::Arr(vs), e)),
            }
        } else if s[p] == '"' || s[p] == '\'' {
            match spec_parse_string(s, p + 1, s[p]) {
                None => None,
                Some((t, e)) => Some((JsonSpec::Str(t), e)),
            }
        } else if s[p] == 't' {
            if p + 4 <= s.len() && s[p + 1] == 'r' && s[p + 2] == 'u' && s[p + 3] == 'e' {
                Some((JsonSpec::Bool(true), p + 4))
            } else {
                None
            }
        } else if s[p] == 'f' {
            if p + 5 <= s.len() && s[p + 1] == 'a' && s[p + 2] == 'l' && s[p + 3] == 's'
                && s[p + 4] == 'e' {
                Some((JsonSpec::Bool(false), p + 5))
            } else {
                None
            }
        } else if s[p] == 'n' {
            if p + 4 <= s.len() && s[p + 1] == 'u' && s[p + 2] == 'l' && s[p + 3] == 'l' {
                Some((JsonSpec::Null, p + 4))
            } else {
                None
            }
        } else if s[p] == '-' || is_json_digit(s[p]) {
            let e = spec_scan_num(s, p);
            if p < e && e <= s.len() {
                Some((JsonSpec::Num(s.subrange(p, e)), e))
            } else {
                None
            }
        } else {
            None
        }
    }
}

/// Parses the items of an array whose `[` stands just before `pos`.
/// A trailing comma before the `]` is accepted.
pub open spec fn spec_parse_items(s: Seq<char>, pos: int) -> Option<(Seq<JsonSpec>, int)>
    decreases s.len() - pos, 2int,
{
    if pos < 0 {
        None
    } else {
        let p = spec_skip_ws(s, pos);
        if p < pos || p >= s.len() {
            None
        } else if s[p] == ']' {
            Some((Seq::empty(), p + 1))
        } else {
            match spec_parse_value(s, p) {
                None => None,
                Some((v, p2)) => {
                    if p2 <= p || p2 > s.len() {
                        None
                    } else {
                        let p3 = spec_skip_ws(s, p2);
                        if p3 < p2 || p3 >= s.len() {
                            None
                        } else if s[p3] == ',' {
                            match spec_parse_items(s, p3 + 1) {
                                None => None,
                                Some((rest, e)) => Some((seq![v] + rest, e)),
                            }
                        } else if s[p3] == ']' {
                            Some((seq![v], p3 + 1))
                        } else {
                            None
                        }
                    }
                },
            }
        }
    }
}

/// Parses the members of an object whose `{` stands just before `pos`.
/// Keys may be quoted strings or bare identifiers; a trailing comma is
/// accepted.
pub open spec fn spec_parse_members(s: Seq<char>, pos: int) -> Option<
    (Seq<(Seq<char>, JsonSpec)>, int),
>
    decreases s.len() - pos, 2int,
{
    if pos < 0 {
        None
    } else {
        let p = spec_skip_ws(s, pos);
        if p < pos || p >= s.len() {
            None
        } else if s[p] == '}' {
            Some((Seq::empty(), p + 1))
        } else {
            let key = if s[p] == '"' || s[p] == '\'' {
                spec_parse_string(s, p + 1, s[p])
            } else if is_json_ident_start(s[p]) {
                let e = spec_scan_ident(s, p);
                if p < e && e <= s.len() {
                    Some((s.subrange(p, e), e))
                } else {
                    None
                }
            } else {
                None
            };
            match key {
                None => None,
                Some((k, p2)) => {
                    if p2 <= p || p2 > s.len() {
                        None
                    } else {
                        let p3 = spec_skip_ws(s, p2);
                        if p3 < p2 || p3 >= s.len() || s[p3] != ':' {
                            None
                        } else {
                            match spec_parse_value(s, p3 + 1) {
                                None => None,
                                Some((v, p4)) => {
                                    if p4 <= p3 || p4 > s.len() {
                                        None
                                    } else {
                                        let p5 = spec_skip_ws(s, p4);
                                        if p5 < p4 || p5 >= s.len() {
                                            None
                                        } else if s[p5] == ',' {
                                            match spec_parse_members(s, p5 + 1) {
                                                None => None,
                                                Some((rest, e)) => Some(
                                                    (seq![(k, v)] + rest, e),
                                                ),
                                            }
                                        } else if s[p5] == '}' {
                                            Some((seq![(k, v)], p5 + 1))
                                        } else {
                                            None
                                        }
                                    }
                                },
                            }
                        }
                    }
                },
            }
        }
    }
}

proof fn lemma_items_view_insert_front(vs: Seq<JsonValue>, x: JsonValue)
    ensures
        items_view(vs.insert(0, x)) == seq![x@] + items_view(vs),
{
    assert(items_view(vs.insert(0, x)) =~= seq![x@] + items_view(vs));
}

proof fn lemma_members_view_insert_front(ms: Seq<(Vec<char>, JsonValue)>, k: Vec<char>, v: JsonValue)
    ensures
        members_view(ms.insert(0, (k, v))) == seq![(k@, v@)] + members_view(ms),
{
    assert(members_view(ms.insert(0, (k, v))) =~= seq![(k@, v@)] + members_view(ms));
}

/// The meaning of a whole lenient-JSON text: one value, with nothing but
/// whitespace around it.
pub open spec fn spec_parse_json(s: Seq<char>) -> Option<JsonSpec> {
    match spec_parse_value(s, 0) {
        None => None,
        Some((v, e)) => {
            if spec_skip_ws(s, e) == s.len() {
                Some(v)
            } else {
                None
            }
        },
    }
}

fn is_ws_char(c: char) -> (b: bool)
    ensures
        b == is_json_ws(c),
{
    c == ' ' || c == '\t' || c == '\n' || c == '\r'
}

fn is_digit_char(c: char) -> (b: bool)
    ensures
        b == is_json_digit(c),
{
    '0' <= c && c <= '9'
}

fn is_num_char(c: char) -> (b: bool)
    ensures
        b == is_json_num_char(c),
{
    is_digit_char(c) || c == '-' || c == '+' || c == '.' || c == 'e' || c == 'E'
}

fn is_ident_start_char(c: char) -> (b: bool)
    ensures
        b == is_json_ident_start(c),
{
    ('a' <= c && c <= 'z') || ('A' <= c && c <= 'Z') || c == '_' || c == '$'
}

fn is_ident_char(c: char) -> (b: bool)
    ensures
        b == is_json_ident_char(c),
{
    is_ident_start_char(c) || is_digit_char(c)
}

fn skip_ws(s: &Vec<char>, pos: usize) -> (r: usize)
    requires
        pos <= s@.len(),
    ensures
        r as int == spec_skip_ws(s@, pos as int),
        pos <= r <= s@.len(),
    decreases s@.len() - pos,
{
    if pos < s.len() && is_ws_char(s[pos]) {
        skip_ws(s, pos + 1)
    } else {
        pos
    }
}

fn scan_num(s: &Vec<char>, pos: usize) -> (r: usize)
    requires
        pos <= s@.len(),
    ensures
        r as int == spec_scan_num(s@, pos as int),
        pos <= r <= s@.len(),
    decreases s@.len() - pos,
{
    if pos < s.len() && is_num_char(s[pos]) {
        scan_num(s, pos + 1)
    } else {
        pos
    }
}

fn scan_ident(s: &Vec<char>, pos: usize) -> (r: usize)
    requires
        pos <= s@.len(),
    ensures
        r as int == spec_scan_ident(s@, pos as int),
        pos <= r <= s@.len(),
    decreases s@.len() - pos,
{
    if pos < s.len() && is_ident_char(s[pos]) {
        scan_ident(s, pos + 1)
    } else {
        pos
    }
}

fn unescaped_chars(c: char) -> (r: Vec<char>)
    ensures
        r@ == spec_unescaped(c),
{
    let mut r: Vec<char> = Vec::new();
    if c == 'n' {
        r.push('\n');
    } else if c == 't' {
        r.push('\t');
    } else if c == 'r' {
        r.push('\r');
    } else if c == 'b' {
        r.push('\u{0008}');
    } else if c == 'f' {
        r.push('\u{000c}');
    } else if c == 'u' {
        r.push('\\');
        r.push('u');
    } else {
        r.push(c);
    }
    proof {
        assert(r@ =~= spec_unescaped(c));
    }
    r
}

fn parse_string_tail(s: &Vec<char>, pos: usize, q: char) -> (r: Option<(Vec<char>, usize)>)
    requires
        pos <= s@.len(),
    ensures
        ({
            let sp = spec_parse_string(s@, pos as int, q);
            match r {
                Some((t, e)) => sp matches Some(spv) && t@ == spv.0 && e as int == spv.1 && pos < e
                    <= s@.len(),
                None => sp is None,
            }
        }),
    decreases s@.len() - pos,
{
    if pos >= s.len() {
        None
    } else {
        let c = s[pos];
        if c == q {
            Some((Vec::new(), pos + 1))
        } else if c == '\\' {
            if s.len() - pos < 2 {
                None
            } else {
                let esc = s[pos + 1];
                match parse_string_tail(s, pos + 2, q) {
                    None => None,
                    Some((t, e)) => {
                        let ghost t0 = t@;
                        let mut t = t;
                        let mut u = unescaped_chars(esc);
                        u.append(&mut t);
                        proof {
                            assert(u@ == spec_unescaped(esc) + t0);
                        }
                        Some((u, e))
                    },
                }
            }
        } else {
            match parse_string_tail(s, pos + 1, q) {
                None => None,
                Some((t, e)) => {
                    let ghost t0 = t@;
                    let mut t = t;
                    let mut u: Vec<char> = Vec::new();
                    u.push(c);
                    proof {
                        assert(u@ =~= seq![c]);
                    }
                    u.append(&mut t);
                    proof {
                        assert(u@ == seq![c] + t0);
                    }
                    Some((u, e))
                },
            }
        }
    }
}

fn parse_value(s: &Vec<char>, pos: usize) -> (r: Option<(JsonValue, usize)>)
    requires
        pos <= s@.len(),
    ensures
        ({
            let sp = spec_parse_value(s@, pos as int);
            match r {
                Some((v, e)) => sp matches Some(spv) && v@ == spv.0 && e as int == spv.1 && pos < e
                    <= s@.len(),
                None => sp is None,
            }
        }),
    decreases s@.len() - pos, 1int,
{
    let p = skip_ws(s, pos);
    if p >= s.len() {
        None
    } else {
        let c = s[p];
        if c == '{' {
            match parse_members(s, p + 1) {
                None => None,
                Some((ms, e)) => Some((JsonValue::Obj(ms), e)),
            }
        } else if c == '[' {
            match parse_items(s, p + 1) {
                None => None,
                Some((vs, e)) => Some((JsonValue::Arr(vs), e)),
            }
        } else if c == '"' || c == '\'' {
            match parse_string_tail(s, p + 1, c) {
                None => None,
                Some((t, e)) => Some((JsonValue::Str(t), e)),
            }
        } else if c == 't' {
            if s.len() - p >= 4 && s[p + 1] == 'r' && s[p + 2] == 'u' && s[p + 3] == 'e' {
                Some((JsonValue::Bool(true), p + 4))
            } else {
                None
            }
        } else if c == 'f' {
            if s.len() - p >= 5 && s[p + 1] == 'a' && s[p + 2] == 'l' && s[p + 3] == 's' && s[p
                + 4] == 'e' {
                Some((JsonValue::Bool(false), p + 5))
            } else {
                None
            }
        } else if c == 'n' {
            if s.len() - p >= 4 && s[p + 1] == 'u' && s[p + 2] == 'l' && s[p + 3] == 'l' {
                Some((JsonValue::Null, p + 4))
            } else {
                None
            }
        } else if c == '-' || is_digit_char(c) {
            let e = scan_num(s, p);
            if p < e {
                let mut lexeme: Vec<char> = Vec::new();
                let mut i: usize = p;
                while i < e
                    invariant
                        p <= i <= e <= s@.len(),
                        lexeme@ == s@.subrange(p as int, i as int),
                    decreases e - i,
                {
                    lexeme.push(s[i]);
                    i = i + 1;
                    proof {
                        assert(lexeme@ =~= s@.subrange(p as int, i as int));
                    }
                }
                Some((JsonValue::Num(lexeme), e))
            } else {
                None
            }
        } else {
            None
        }
    }
}

fn parse_items(s: &Vec<char>, pos: usize) -> (r: Option<(Vec<JsonValue>, usize)>)
    requires
        pos <= s@.len(),
    ensures
        ({
            let sp = spec_parse_items(s@, pos as int);
            match r {
                Some((vs, e)) => sp matches Some(spv) && items_view(vs@) == spv.0 && e as int
                    == spv.1 && pos < e <= s@.len(),
                None => sp is None,
            }
        }),
    decreases s@.len() - pos, 2int,
{
    let p = skip_ws(s, pos);
    if p >= s.len() {
        None
    } else if s[p] == ']' {
        proof {
            assert(items_view(Seq::<JsonValue>::empty()) =~= Seq::<JsonSpec>::empty());
        }
        Some((Vec::new(), p + 1))
    } else {
        match parse_value(s, p) {
            None => None,
            Some((v, p2)) => {
                let p3 = skip_ws(s, p2);
                if p3 >= s.len() {
                    None
                } else if s[p3] == ',' {
                    match parse_items(s, p3 + 1) {
                        None => None,
                        Some((rest, e)) => {
                            let mut rest = rest;
                            proof {
                                lemma_items_view_insert_front(rest@, v);
                            }
                            rest.insert(0, v);
                            Some((rest, e))
                        },
                    }
                } else if s[p3] == ']' {
                    let mut one: Vec<JsonValue> = Vec::new();
                    proof {
                        lemma_items_view_insert_front(Seq::<JsonValue>::empty(), v);
                        assert(items_view(Seq::<JsonValue>::empty()) =~= Seq::<JsonSpec>::empty());
                        assert(seq![v@] + Seq::<JsonSpec>::empty() =~= seq![v@]);
                    }
                    one.insert(0, v);
                    Some((one, p3 + 1))
                } else {
                    None
                }
            },
        }
    }
}

fn parse_members(s: &Vec<char>, pos: usize) -> (r: Option<(Vec<(Vec<char>, JsonValue)>, usize)>)
    requires
        pos <= s@.len(),
    ensures
        ({
            let sp = spec_parse_members(s@, pos as int);
            match r {
                Some((ms, e)) => sp matches Some(spv) && members_view(ms@) == spv.0 && e as int
                    == spv.1 && pos < e <= s@.len(),
                None => sp is None,
            }
        }),
    decreases s@.len() - pos, 2int,
{
    let p = skip_ws(s, pos);
    if p >= s.len() {
        None
    } else if s[p] == '}' {
        proof {
            assert(members_view(Seq::<(Vec<char>, JsonValue)>::empty()) =~= Seq::<
                (Seq<char>, JsonSpec),
            >::empty());
        }
        Some((Vec::new(), p + 1))
    } else {
        let c = s[p];
        let key: Option<(Vec<char>, usize)> = if c == '"' || c == '\'' {
            parse_string_tail(s, p + 1, c)
        } else if is_ident_start_char(c) {
            let e = scan_ident(s, p);
            if p < e {
                let mut lexeme: Vec<char> = Vec::new();
                let mut i: usize = p;
                while i < e
                    invariant
                        p <= i <= e <= s@.len(),
                        lexeme@ == s@.subrange(p as int, i as int),
                    decreases e - i,
                {
                    lexeme.push(s[i]);
                    i = i + 1;
                    proof {
                        assert(lexeme@ =~= s@.subrange(p as int, i as int));
                    }
                }
                Some((lexeme, e))
            } else {
                None
            }
        } else {
            None
        };
        match key {
            None => None,
            Some((k, p2)) => {
                let p3 = skip_ws(s, p2);
                if p3 >= s.len() {
                    None
                } else if s[p3] != ':' {
                    None
                } else {
                    match parse_value(s, p3 + 1) {
                        None => None,
                        Some((v, p4)) => {
                            let p5 = skip_ws(s, p4);
                            if p5 >= s.len() {
                                None
                            } else if s[p5] == ',' {
                                match parse_members(s, p5 + 1) {
                                    None => None,
                                    Some((rest, e)) => {
                                        let mut rest = rest;
                                        proof {
                                            lemma_members_view_insert_front(rest@, k, v);
                                        }
                                        rest.insert(0, (k, v));
                                        Some((rest, e))
                                    },
                                }
                            } else if s[p5] == '}' {
                                let mut one: Vec<(Vec<char>, JsonValue)> = Vec::new();
                                proof {
                                    lemma_members_view_insert_front(
                                        Seq::<(Vec<char>, JsonValue)>::empty(),
                                        k,
                                        v,
                                    );
                                    assert(members_view(Seq::<(Vec<char>, JsonValue)>::empty())
                                        =~= Seq::<(Seq<char>, JsonSpec)>::empty());
                                    assert(seq![(k@, v@)] + Seq::<(Seq<char>, JsonSpec)>::empty()
                                        =~= seq![(k@, v@)]);
                                }
                                one.insert(0, (k, v));
                                Some((one, p5 + 1))
                            } else {
                                None
                            }
                        },
                    }
                }
            },
        }
    }
}

/// Parses one lenient-JSON text. Returns the value exactly when the text is
/// one value surrounded by nothing but whitespace.
pub fn parse_json(s: &Vec<char>) -> (r: Option<JsonValue>)
    ensures
        match r {
            Some(v) => spec_parse_json(s@) == Some(v@),
            None => spec_parse_json(s@) is None,
        },
{
    match parse_value(s, 0) {
        None => None,
        Some((v, e)) => {
            let rest = skip_ws(s, e);
            if rest == s.len() {
                Some(v)
            } else {
                None
            }
        },
    }
}

} // verus!
