//! Fetch-side extractors: shared error type and request-URL building.
//!
//! The HTTP traffic itself stays outside the library; these modules build
//! the request URLs and recover structured records from what came back.

pub mod dom;
pub mod google_image;
pub mod spanish_dict;

use vstd::prelude::*;
use url::form_urlencoded;

verus! {

/// An error raised while recovering records from a remote page.
#[derive(Debug)]
pub struct SpiderError {
    message: String,
}

impl View for SpiderError {
    type V = Seq<char>;

    closed spec fn view(&self) -> Seq<char> {
        self.message@
    }
}

impl SpiderError {
    /// Builds an error carrying the given message.
    pub fn new(message: &str) -> (r: Self)
        ensures
            r@ == message@,
    {
        SpiderError { message: message.to_owned() }
    }

    /// The message the error was built with.
    pub fn message(&self) -> (r: &str)
        ensures
            r@ == self@,
    {
        self.message.as_str()
    }
}

/// What the form-urlencoded serializer produces for a list of name/value
/// pairs: a deterministic function of the pairs alone.
pub uninterp spec fn form_urlencoded_pairs(pairs: Seq<(Seq<char>, Seq<char>)>) -> Seq<char>;

/// What the form-urlencoded serializer produces for one bare name.
pub uninterp spec fn form_urlencoded_key(key: Seq<char>) -> Seq<char>;

/// The name/value pairs of an executable pair list.
pub open spec fn pairs_view(ps: Seq<(String, String)>) -> Seq<(Seq<char>, Seq<char>)> {
    Seq::new(
        ps.len(),
        |i: int|
            if 0 <= i < ps.len() {
                (ps[i].0@, ps[i].1@)
            } else {
                (Seq::<char>::empty(), Seq::<char>::empty())
            },
    )
}

/// Relies on url's `form_urlencoded::Serializer`: `append_pair` for each
/// pair then `finish` percent-encodes the pairs into one query string,
/// determined by the pairs alone.
#[verifier::external_body]
pub(crate) fn encode_query_pairs(pairs: &Vec<(String, String)>) -> (r: String)
    ensures
        r@ == form_urlencoded_pairs(pairs_view(pairs@)),
{
    let mut s = form_urlencoded::Serializer::new(String::new());
    for (k, v) in pairs.iter() {
        s.append_pair(k, v);
    }
    s.finish()
}

/// Relies on url's `form_urlencoded::Serializer::append_key_only`:
/// percent-encodes one bare name, determined by the name alone.
#[verifier::external_body]
pub(crate) fn encode_key_only(key: &str) -> (r: String)
    ensures
        r@ == form_urlencoded_key(key@),
{
    let mut s = form_urlencoded::Serializer::new(String::new());
    s.append_key_only(key);
    s.finish()
}

} // verus!
