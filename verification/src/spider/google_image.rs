//! Image-record extraction from an image-search results page.
//!
//! The results page embeds its render-time data in inline script blocks.
//! The relevant block is recognised by a name marker and a pair of
//! internal markers; a prefix/suffix delimiter pair brackets a lenient
//! JSON literal inside it. A fixed index path reaches the raw result
//! entries; each entry is walked by position, with the page URL and title
//! recovered by scanning for the first nested array holding a string that
//! begins with `http`. Entries that break any step of the walk are
//! dropped, not fatal.

use vstd::prelude::*;
use crate::json::{
    items_view, members_view, spec_parse_json, JsonSpec, JsonValue, parse_json,
};
use crate::text::{
    chars_to_string, decimal_chars, find_from, spec_decimal, spec_find, str_chars, contains_sub,
    spec_contains, subvec,
};
use crate::spider::{encode_query_pairs, form_urlencoded_pairs, pairs_view};

verus! {

/// An image reference: location and alternative text.
#[derive(Debug, Clone)]
pub struct Image {
    pub src: String,
    pub alt: String,
}

/// The shape of an [`Image`].
#[verifier::ext_equal]
pub struct ImageView {
    pub src: Seq<char>,
    pub alt: Seq<char>,
}

impl View for Image {
    type V = ImageView;

    open spec fn view(&self) -> ImageView {
        ImageView { src: self.src@, alt: self.alt@ }
    }
}

/// One recovered image-search result.
#[derive(Debug, Clone)]
pub struct GoogleImage {
    pub thumb: Image,
    pub full: Image,
    pub title: String,
    pub url: String,
}

/// The shape of a [`GoogleImage`].
#[verifier::ext_equal]
pub struct GoogleImageView {
    pub thumb: ImageView,
    pub full: ImageView,
    pub title: Seq<char>,
    pub url: Seq<char>,
}

impl View for GoogleImage {
    type V = GoogleImageView;

    open spec fn view(&self) -> GoogleImageView {
        GoogleImageView { thumb: self.thumb@, full: self.full@, title: self.title@, url: self.url@ }
    }
}

/// Whether a string begins with `http`.
pub open spec fn spec_starts_with_http(s: Seq<char>) -> bool {
    s.len() >= 4 && s[0] == 'h' && s[1] == 't' && s[2] == 't' && s[3] == 'p'
}

fn starts_with_http(s: &Vec<char>) -> (r: bool)
    ensures
        r == spec_starts_with_http(s@),
{
    s.len() >= 4 && s[0] == 'h' && s[1] == 't' && s[2] == 't' && s[3] == 'p'
}

/// Whether one of the values is a string beginning with `http`.
pub open spec fn spec_seq_has_http(vs: Seq<JsonSpec>) -> bool {
    exists|j: int|
        0 <= j < vs.len() && ((#[trigger] vs[j]) matches JsonSpec::Str(t)
            && spec_starts_with_http(t))
}

fn seq_has_http(xs: &Vec<JsonValue>) -> (r: bool)
    ensures
        r == spec_seq_has_http(items_view(xs@)),
{
    let ghost iv = items_view(xs@);
    let mut j: usize = 0;
    while j < xs.len()
        invariant
            j <= xs@.len(),
            iv == items_view(xs@),
            forall|k: int|
                0 <= k < j ==> !((#[trigger] iv[k]) matches JsonSpec::Str(t)
                    && spec_starts_with_http(t)),
        decreases xs@.len() - j,
    {
        match xs[j].str_chars_ref() {
            Some(t) => {
                if starts_with_http(t) {
                    proof {
                        assert(iv[j as int] matches JsonSpec::Str(u) && spec_starts_with_http(u));
                    }
                    return true;
                }
            },
            None => {},
        }
        j = j + 1;
    }
    false
}

/// The members of the first object among the values, if any.
pub open spec fn spec_first_obj(vs: Seq<JsonSpec>, i: int) -> Option<Seq<(Seq<char>, JsonSpec)>>
    decreases vs.len() - i,
{
    if i < 0 || i >= vs.len() {
        None
    } else {
        match vs[i] {
            JsonSpec::Obj(ms) => Some(ms),
            _ => spec_first_obj(vs, i + 1),
        }
    }
}

fn find_first_obj<'a>(items: &'a Vec<JsonValue>) -> (r: Option<&'a Vec<(Vec<char>, JsonValue)>>)
    ensures
        match r {
            Some(ms) => spec_first_obj(items_view(items@), 0) == Some(members_view(ms@)),
            None => spec_first_obj(items_view(items@), 0) is None,
        },
{
    let ghost iv = items_view(items@);
    let mut i: usize = 0;
    while i < items.len()
        invariant
            i <= items@.len(),
            iv == items_view(items@),
            spec_first_obj(iv, 0) == spec_first_obj(iv, i as int),
        decreases items@.len() - i,
    {
        match items[i].obj_members() {
            Some(ms) => {
                proof {
                    assert(iv[i as int] == JsonSpec::Obj(members_view(ms@)));
                }
                return Some(ms);
            },
            None => {
                proof {
                    assert(!(iv[i as int] is Obj));
                }
            },
        }
        i = i + 1;
    }
    None
}

/// The items of the first member value that is an array holding a string
/// beginning with `http`, if any.
pub open spec fn spec_first_http_arr(ms: Seq<(Seq<char>, JsonSpec)>, i: int) -> Option<
    Seq<JsonSpec>,
>
    decreases ms.len() - i,
{
    if i < 0 || i >= ms.len() {
        None
    } else {
        match ms[i].1 {
            JsonSpec::Arr(xs) => if spec_seq_has_http(xs) {
                Some(xs)
            } else {
                spec_first_http_arr(ms, i + 1)
            },
            _ => spec_first_http_arr(ms, i + 1),
        }
    }
}

fn find_first_http_arr<'a>(ms: &'a Vec<(Vec<char>, JsonValue)>) -> (r: Option<&'a Vec<JsonValue>>)
    ensures
        match r {
            Some(xs) => spec_first_http_arr(members_view(ms@), 0) == Some(items_view(xs@)),
            None => spec_first_http_arr(members_view(ms@), 0) is None,
        },
{
    let ghost mv = members_view(ms@);
    let mut i: usize = 0;
    while i < ms.len()
        invariant
            i <= ms@.len(),
            mv == members_view(ms@),
            spec_first_http_arr(mv, 0) == spec_first_http_arr(mv, i as int),
        decreases ms@.len() - i,
    {
        let pair: &(Vec<char>, JsonValue) = &ms[i];
        proof {
            assert(mv[i as int] == (ms@[i as int].0@, ms@[i as int].1@));
        }
        match pair.1.arr_items() {
            Some(xs) => {
                if seq_has_http(xs) {
                    return Some(xs);
                }
            },
            None => {},
        }
        i = i + 1;
    }
    None
}

/// The image record recovered from one raw result entry, when every step
/// of the positional walk holds: the record data sits under the first key
/// of the object at `[0][0]`; its field `1` is an array whose first object
/// holds, under some key, an array with the page URL at `2` and the title
/// at `3`; the thumbnail and full-image URLs sit at `[1][2][0]` and
/// `[1][3][0]`.
pub open spec fn spec_entry_image(x: JsonSpec) -> Option<GoogleImageView> {
    let inner = x.idx(0).idx(0);
    match inner {
        JsonSpec::Obj(ms) => if ms.len() == 0 {
            None
        } else {
            let l = ms[0].1;
            match l.idx(1) {
                JsonSpec::Arr(l1) => match spec_first_obj(l1, 0) {
                    None => None,
                    Some(srcobj) => match spec_first_http_arr(srcobj, 0) {
                        None => None,
                        Some(src) => {
                            let url_v = JsonSpec::Arr(src).idx(2);
                            let title_v = JsonSpec::Arr(src).idx(3);
                            let thumb_v = l.idx(1).idx(2).idx(0);
                            let full_v = l.idx(1).idx(3).idx(0);
                            match (url_v, title_v, thumb_v, full_v) {
                                (
                                    JsonSpec::Str(url),
                                    JsonSpec::Str(title),
                                    JsonSpec::Str(thumb),
                                    JsonSpec::Str(full),
                                ) => Some(
                                    GoogleImageView {
                                        thumb: ImageView { src: thumb, alt: title },
                                        full: ImageView { src: full, alt: title },
                                        title: title,
                                        url: url,
                                    },
                                ),
                                _ => None,
                            }
                        },
                    },
                },
                _ => None,
            }
        },
        _ => None,
    }
}

/// Recovers one image record from one raw result entry; entries that
/// break the positional walk yield nothing.
pub fn parse_google_image(x: &JsonValue) -> (r: Option<GoogleImage>)
    ensures
        match r {
            Some(g) => spec_entry_image(x@) == Some(g@),
            None => spec_entry_image(x@) is None,
        },
{
    let x0 = match x.try_idx(0) {
        Some(v) => v,
        None => {
            return None;
        },
    };
    let x00 = match x0.try_idx(0) {
        Some(v) => v,
        None => {
            return None;
        },
    };
    let ms = match x00.obj_members() {
        Some(ms) => ms,
        None => {
            return None;
        },
    };
    if ms.len() == 0 {
        return None;
    }
    let first: &(Vec<char>, JsonValue) = &ms[0];
    let l = &first.1;
    proof {
        assert(members_view(ms@)[0] == (ms@[0].0@, ms@[0].1@));
    }
    let l1v = match l.try_idx(1) {
        Some(v) => v,
        None => {
            return None;
        },
    };
    let l1 = match l1v.arr_items() {
        Some(items) => items,
        None => {
            return None;
        },
    };
    let srcobj = match find_first_obj(l1) {
        Some(ms) => ms,
        None => {
            return None;
        },
    };
    let src = match find_first_http_arr(srcobj) {
        Some(xs) => xs,
        None => {
            return None;
        },
    };
    let url_chars = if src.len() > 2 {
        match src[2].str_chars_ref() {
            Some(t) => t,
            None => {
                return None;
            },
        }
    } else {
        return None;
    };
    let title_chars = if src.len() > 3 {
        match src[3].str_chars_ref() {
            Some(t) => t,
            None => {
                return None;
            },
        }
    } else {
        proof {
            assert(JsonSpec::Arr(items_view(src@)).idx(3) == JsonSpec::Null);
        }
        return None;
    };
    let thumb_chars = match l1v.try_idx(2) {
        Some(v) => match v.try_idx(0) {
            Some(w) => match w.str_chars_ref() {
                Some(t) => t,
                None => {
                    return None;
                },
            },
            None => {
                return None;
            },
        },
        None => {
            return None;
        },
    };
    let full_chars = match l1v.try_idx(3) {
        Some(v) => match v.try_idx(0) {
            Some(w) => match w.str_chars_ref() {
                Some(t) => t,
                None => {
                    return None;
                },
            },
            None => {
                return None;
            },
        },
        None => {
            return None;
        },
    };
    let title = chars_to_string(title_chars);
    let url = chars_to_string(url_chars);
    let thumb = Image { src: chars_to_string(thumb_chars), alt: title.clone() };
    let full = Image { src: chars_to_string(full_chars), alt: title.clone() };
    Some(GoogleImage { thumb, full, title, url })
}

/// Why the page-level extraction failed: either no script block carries
/// the payload markers, or the identified block breaks a structural
/// assumption (missing delimiters, unparseable literal, or a data path
/// that does not end in an array).
#[derive(Debug, Clone, Copy, PartialEq, Eq, Structural)]
pub enum ExtractError {
    PayloadNotFound,
    PayloadMalformed,
}

/// The texts of an executable script list.
pub open spec fn strs_view(ss: Seq<String>) -> Seq<Seq<char>> {
    Seq::new(
        ss.len(),
        |i: int|
            if 0 <= i < ss.len() {
                ss[i]@
            } else {
                Seq::<char>::empty()
            },
    )
}

/// The shapes of an executable image list.
pub open spec fn gis_view(gs: Seq<GoogleImage>) -> Seq<GoogleImageView> {
    Seq::new(
        gs.len(),
        |i: int|
            if 0 <= i < gs.len() {
                gs[i]@
            } else {
                GoogleImageView {
                    thumb: ImageView { src: Seq::empty(), alt: Seq::empty() },
                    full: ImageView { src: Seq::empty(), alt: Seq::empty() },
                    title: Seq::empty(),
                    url: Seq::empty(),
                }
            },
    )
}

/// Whether a script text is the payload block: it carries the callback
/// name marker and the second dataset marker while the first dataset
/// marker is absent.
pub open spec fn spec_is_payload_script(s: Seq<char>) -> bool {
    spec_contains(s, "AF_initDataCallback"@) && !spec_contains(s, "ds:0"@) && spec_contains(
        s,
        "ds:1"@,
    )
}

/// The first script text carrying the payload markers, if any.
pub open spec fn spec_first_payload_script(ss: Seq<Seq<char>>, i: int) -> Option<Seq<char>>
    decreases ss.len() - i,
{
    if i < 0 || i >= ss.len() {
        None
    } else if spec_is_payload_script(ss[i]) {
        Some(ss[i])
    } else {
        spec_first_payload_script(ss, i + 1)
    }
}

/// The lenient-JSON literal bracketed by the callback-call prefix and the
/// closing `});` suffix, closing brace included.
pub open spec fn spec_payload_fragment(sc: Seq<char>) -> Option<Seq<char>> {
    match spec_find(sc, "AF_initDataCallback("@, 0) {
        None => None,
        Some(st) => {
            let body = st + "AF_initDataCallback("@.len();
            match spec_find(sc, "});"@, body) {
                None => None,
                Some(e) => Some(sc.subrange(body, e + 1)),
            }
        },
    }
}

/// The image records of the raw result entries, kept in entry order;
/// entries that break the walk contribute nothing.
pub open spec fn spec_images_of_entries(es: Seq<JsonSpec>, i: int) -> Seq<GoogleImageView>
    decreases es.len() - i,
{
    if i < 0 || i >= es.len() {
        Seq::empty()
    } else {
        match spec_entry_image(es[i]) {
            Some(g) => seq![g] + spec_images_of_entries(es, i + 1),
            None => spec_images_of_entries(es, i + 1),
        }
    }
}

/// What extraction recovers from the script texts of one results page.
pub open spec fn spec_extract_images(scripts: Seq<Seq<char>>) -> Result<
    Seq<GoogleImageView>,
    ExtractError,
> {
    match spec_first_payload_script(scripts, 0) {
        None => Err(ExtractError::PayloadNotFound),
        Some(sc) => match spec_payload_fragment(sc) {
            None => Err(ExtractError::PayloadMalformed),
            Some(frag) => match spec_parse_json(frag) {
                None => Err(ExtractError::PayloadMalformed),
                Some(v) => match v.member("data"@).idx(56).idx(1).idx(0).idx(0).idx(1).idx(0) {
                    JsonSpec::Arr(es) => Ok(spec_images_of_entries(es, 0)),
                    _ => Err(ExtractError::PayloadMalformed),
                },
            },
        },
    }
}

fn is_payload_script(sc: &Vec<char>) -> (r: bool)
    ensures
        r == spec_is_payload_script(sc@),
{
    proof {
        reveal_strlit("AF_initDataCallback");
        reveal_strlit("ds:0");
        reveal_strlit("ds:1");
    }
    let name_marker = str_chars("AF_initDataCallback");
    let first_marker = str_chars("ds:0");
    let second_marker = str_chars("ds:1");
    contains_sub(sc, &name_marker) && !contains_sub(sc, &first_marker) && contains_sub(
        sc,
        &second_marker,
    )
}

fn find_payload_script(scripts: &Vec<String>) -> (r: Option<Vec<char>>)
    ensures
        match r {
            Some(sc) => spec_first_payload_script(strs_view(scripts@), 0) == Some(sc@),
            None => spec_first_payload_script(strs_view(scripts@), 0) is None,
        },
{
    let ghost sv = strs_view(scripts@);
    let mut i: usize = 0;
    while i < scripts.len()
        invariant
            i <= scripts@.len(),
            sv == strs_view(scripts@),
            spec_first_payload_script(sv, 0) == spec_first_payload_script(sv, i as int),
        decreases scripts@.len() - i,
    {
        let sc = str_chars(&scripts[i]);
        proof {
            assert(sv[i as int] == scripts@[i as int]@);
        }
        if is_payload_script(&sc) {
            return Some(sc);
        }
        i = i + 1;
    }
    None
}

fn payload_fragment(sc: &Vec<char>) -> (r: Option<Vec<char>>)
    ensures
        match r {
            Some(frag) => spec_payload_fragment(sc@) == Some(frag@),
            None => spec_payload_fragment(sc@) is None,
        },
{
    proof {
        reveal_strlit("AF_initDataCallback(");
        reveal_strlit("});");
    }
    let prefix = str_chars("AF_initDataCallback(");
    let suffix = str_chars("});");
    let sclen = sc.len();
    proof {
        assert(sc@.len() == sclen as int);
    }
    let st = match find_from(sc, &prefix, 0) {
        Some(st) => st,
        None => {
            return None;
        },
    };
    let body = st + prefix.len();
    let e = match find_from(sc, &suffix, body) {
        Some(e) => e,
        None => {
            return None;
        },
    };
    Some(subvec(sc, body, e + 1))
}

/// Recovers the image records embedded in the script texts of one results
/// page. `Err(PayloadNotFound)` exactly when no script carries the payload
/// markers; `Err(PayloadMalformed)` exactly when the marked script lacks
/// the delimiters, its literal does not parse, or the data path does not
/// end in an array.
pub fn extract_images(scripts: &Vec<String>) -> (r: Result<Vec<GoogleImage>, ExtractError>)
    ensures
        match r {
            Ok(gs) => spec_extract_images(strs_view(scripts@)) == Ok::<_, ExtractError>(
                gis_view(gs@),
            ),
            Err(e) => spec_extract_images(strs_view(scripts@)) == Err::<
                Seq<GoogleImageView>,
                _,
            >(e),
        },
{
    let sc = match find_payload_script(scripts) {
        Some(sc) => sc,
        None => {
            return Err(ExtractError::PayloadNotFound);
        },
    };
    let frag = match payload_fragment(&sc) {
        Some(frag) => frag,
        None => {
            return Err(ExtractError::PayloadMalformed);
        },
    };
    let parsed = match parse_json(&frag) {
        Some(v) => v,
        None => {
            return Err(ExtractError::PayloadMalformed);
        },
    };
    proof {
        reveal_strlit("data");
    }
    let data_key = str_chars("data");
    let d0 = match parsed.get_member(&data_key) {
        Some(v) => v,
        None => {
            return Err(ExtractError::PayloadMalformed);
        },
    };
    let d1 = match d0.try_idx(56) {
        Some(v) => v,
        None => {
            return Err(ExtractError::PayloadMalformed);
        },
    };
    let d2 = match d1.try_idx(1) {
        Some(v) => v,
        None => {
            return Err(ExtractError::PayloadMalformed);
        },
    };
    let d3 = match d2.try_idx(0) {
        Some(v) => v,
        None => {
            return Err(ExtractError::PayloadMalformed);
        },
    };
    let d4 = match d3.try_idx(0) {
        Some(v) => v,
        None => {
            return Err(ExtractError::PayloadMalformed);
        },
    };
    let d5 = match d4.try_idx(1) {
        Some(v) => v,
        None => {
            return Err(ExtractError::PayloadMalformed);
        },
    };
    let d6 = match d5.try_idx(0) {
        Some(v) => v,
        None => {
            return Err(ExtractError::PayloadMalformed);
        },
    };
    let es = match d6.arr_items() {
        Some(es) => es,
        None => {
            return Err(ExtractError::PayloadMalformed);
        },
    };
    let ghost esv = items_view(es@);
    let mut images: Vec<GoogleImage> = Vec::new();
    let mut i: usize = 0;
    proof {
        assert(gis_view(images@) =~= Seq::<GoogleImageView>::empty());
    }
    while i < es.len()
        invariant
            i <= es@.len(),
            esv == items_view(es@),
            spec_images_of_entries(esv, 0) == gis_view(images@) + spec_images_of_entries(
                esv,
                i as int,
            ),
        decreases es@.len() - i,
    {
        proof {
            assert(esv[i as int] == es@[i as int]@);
        }
        let ghost before = gis_view(images@);
        match parse_google_image(&es[i]) {
            Some(g) => {
                let ghost gv = g@;
                images.push(g);
                proof {
                    assert(gis_view(images@) =~= before + seq![gv]);
                    assert((before + seq![gv]) + spec_images_of_entries(esv, i as int + 1)
                        =~= before + (seq![gv] + spec_images_of_entries(esv, i as int + 1)));
                }
            },
            None => {},
        }
        i = i + 1;
    }
    proof {
        assert(spec_images_of_entries(esv, i as int) =~= Seq::<GoogleImageView>::empty());
        assert(gis_view(images@) + Seq::<GoogleImageView>::empty() =~= gis_view(images@));
    }
    Ok(images)
}

/// The query pairs of one image-search request: image-search mode, the
/// query, the result offset, and the page number the offset falls in.
pub open spec fn spec_image_search_pairs(query: Seq<char>, offset: int) -> Seq<
    (Seq<char>, Seq<char>),
> {
    seq![
        ("tbm"@, "isch"@),
        ("q"@, query),
        ("start"@, spec_decimal(offset)),
        ("ijn"@, spec_decimal(offset / 100)),
    ]
}

/// Builds the image-search request URL for a query and result offset.
pub fn image_search_url(query: &str, offset: u32) -> (r: String)
    ensures
        r@ == "https://www.google.com/search?"@ + form_urlencoded_pairs(
            spec_image_search_pairs(query@, offset as int),
        ),
{
    let mut pairs: Vec<(String, String)> = Vec::new();
    pairs.push(("tbm".to_owned(), "isch".to_owned()));
    pairs.push(("q".to_owned(), query.to_owned()));
    pairs.push(("start".to_owned(), chars_to_string(&decimal_chars(offset))));
    pairs.push(("ijn".to_owned(), chars_to_string(&decimal_chars(offset / 100))));
    proof {
        assert(pairs_view(pairs@) =~= spec_image_search_pairs(query@, offset as int));
    }
    let params = encode_query_pairs(&pairs);
    let mut url = "https://www.google.com/search?".to_owned();
    url.append(params.as_str());
    url
}

/// One paged image search being accumulated up to a requested count.
///
/// The offset advances by the number of records each page actually
/// yielded, so the record count always equals the offset; an empty page
/// marks the search exhausted and a fetch failure marks it failed.
pub struct SearchSession {
    pub query: String,
    pub max: u32,
    pub offset: u32,
    pub images: Vec<GoogleImage>,
    pub exhausted: bool,
    pub failed: bool,
}

/// The accumulated record count always equals the offset reached.
pub open spec fn session_inv(s: SearchSession) -> bool {
    s.images@.len() == s.offset as int
}

impl SearchSession {
    /// Starts a search for `query` aiming at up to `max` records.
    pub fn new(query: &str, max: u32) -> (r: Self)
        ensures
            r.query@ == query@,
            r.max == max,
            r.offset == 0,
            r.images@.len() == 0,
            !r.exhausted,
            !r.failed,
            session_inv(r),
    {
        SearchSession {
            query: query.to_owned(),
            max,
            offset: 0,
            images: Vec::new(),
            exhausted: false,
            failed: false,
        }
    }

    /// Whether another page should be fetched, at [`Self::next_offset`].
    pub fn wants_more(&self) -> (r: bool)
        ensures
            r == (self.offset < self.max && !self.exhausted && !self.failed),
    {
        self.offset < self.max && !self.exhausted && !self.failed
    }

    /// The offset the next page must be fetched at.
    pub fn next_offset(&self) -> (r: u32)
        ensures
            r == self.offset,
    {
        self.offset
    }

    /// Accounts one fetched page: an empty page marks the search
    /// exhausted; otherwise the records are appended and the offset
    /// advances by exactly the page's record count.
    pub fn feed_page(&mut self, page: Vec<GoogleImage>)
        requires
            session_inv(*old(self)),
            old(self).offset + page@.len() <= u32::MAX,
        ensures
            session_inv(*final(self)),
            final(self).query == old(self).query,
            final(self).max == old(self).max,
            final(self).failed == old(self).failed,
            page@.len() == 0 ==> (final(self).exhausted && final(self).images@ == old(self).images@
                && final(self).offset == old(self).offset),
            page@.len() > 0 ==> (final(self).images@ == old(self).images@ + page@
                && final(self).offset == old(self).offset + page@.len()
                && final(self).exhausted == old(self).exhausted),
    {
        if page.len() == 0 {
            self.exhausted = true;
        } else {
            let mut page = page;
            let n = page.len();
            self.images.append(&mut page);
            self.offset = self.offset + n as u32;
        }
    }

    /// Notes that a page fetch failed; the search stops.
    pub fn fail(&mut self)
        requires
            session_inv(*old(self)),
        ensures
            session_inv(*final(self)),
            *final(self) == (SearchSession { failed: true, ..*old(self) }),
    {
        self.failed = true;
    }

    /// The accumulated records, cut to at most `max`. Never more than
    /// `max` records come back, and fewer than `max` only when the search
    /// was exhausted or a fetch failed.
    pub fn finish(self) -> (r: Vec<GoogleImage>)
        requires
            session_inv(self),
            !(self.offset < self.max && !self.exhausted && !self.failed),
        ensures
            r@.len() <= self.max as int,
            r@.len() < self.max as int ==> self.exhausted || self.failed,
            self.images@.len() > self.max as int ==> r@ == self.images@.take(self.max as int),
            self.images@.len() <= self.max as int ==> r@ == self.images@,
    {
        let mut images = self.images;
        if images.len() > self.max as usize {
            images.truncate(self.max as usize);
        }
        images
    }
}

} // verus!
