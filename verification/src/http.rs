//! Simple HTTP requests and responses.
//!
//! Sending a request is the backend's work; this module builds requests and
//! reads responses.

use vstd::prelude::*;
use vstd::utf8::{decode_utf8, encode_utf8, valid_utf8};

pub use crate::headers::HeaderMap;

verus! {

/// A simple http request.
pub struct Request {
    /// "GET", …
    pub method: String,
    /// https://…
    pub url: String,
    /// The raw bytes.
    pub body: Vec<u8>,
    /// ("Accept", "*/*"), …
    pub headers: HeaderMap,
}

/// The name and value of each pair, as character sequences.
pub open spec fn pair_views(pairs: Seq<(&str, &str)>) -> Seq<(Seq<char>, Seq<char>)> {
    pairs.map_values(|p: (&str, &str)| (p.0@, p.1@))
}

/// The map that results from storing each pair in turn, so that a later pair
/// replaces the value of an earlier one with the same name.
pub open spec fn header_pairs_map(pairs: Seq<(Seq<char>, Seq<char>)>) -> Map<Seq<char>, Seq<char>>
    decreases pairs.len(),
{
    if pairs.len() == 0 {
        Map::empty()
    } else {
        header_pairs_map(pairs.drop_last()).insert(pairs.last().0, pairs.last().1)
    }
}

/// In the map built from pairs, a name is present exactly when some pair
/// carries it, and its value is that of the last such pair.
pub proof fn lemma_last_pair_wins(pairs: Seq<(Seq<char>, Seq<char>)>, k: Seq<char>)
    ensures
        header_pairs_map(pairs).contains_key(k) <==> exists|i: int|
            0 <= i < pairs.len() && #[trigger] pairs[i].0 == k,
        forall|i: int|
            0 <= i < pairs.len() && #[trigger] pairs[i].0 == k && (forall|j: int|
                i < j < pairs.len() ==> #[trigger] pairs[j].0 != k) ==> header_pairs_map(
                pairs,
            )[k] == pairs[i].1,
    decreases pairs.len(),
{
    if pairs.len() > 0 {
        let init = pairs.drop_last();
        lemma_last_pair_wins(init, k);
        if pairs.last().0 != k {
            if exists|i: int| 0 <= i < pairs.len() && #[trigger] pairs[i].0 == k {
                let i = choose|i: int| 0 <= i < pairs.len() && #[trigger] pairs[i].0 == k;
                assert(init[i].0 == k);
            }
            assert forall|i: int|
                0 <= i < pairs.len() && #[trigger] pairs[i].0 == k && (forall|j: int|
                    i < j < pairs.len() ==> #[trigger] pairs[j].0 != k) implies header_pairs_map(
                pairs,
            )[k] == pairs[i].1 by {
                assert(init[i].0 == k);
                assert forall|j: int| i < j < init.len() implies #[trigger] init[j].0 != k by {
                    assert(pairs[j].0 != k);
                }
            }
        } else {
            assert(pairs[pairs.len() - 1].0 == k);
        }
    }
}

/// A response that carries the body of a `POST` request reads back as the
/// text that the request was made with: `Response::text` undoes the
/// encoding of `Request::post`.
pub proof fn lemma_text_reads_post_body(body: Seq<char>)
    ensures
        valid_utf8(encode_utf8(body)),
        decode_utf8(encode_utf8(body)) == body,
{
    vstd::utf8::encode_utf8_valid_utf8(body);
    vstd::utf8::encode_utf8_decode_utf8(body);
}

/// The headers that `Request::get` sends.
pub open spec fn get_headers() -> Map<Seq<char>, Seq<char>> {
    Map::empty().insert("Accept"@, "*/*"@)
}

/// The headers that `Request::post` sends.
pub open spec fn post_headers() -> Map<Seq<char>, Seq<char>> {
    Map::empty().insert("Accept"@, "*/*"@).insert("Content-Type"@, "text/plain; charset=utf-8"@)
}

impl Request {
    /// A header map holding the given pairs; where a name occurs more than
    /// once, the last pair with that name gives its value.
    pub fn create_headers_map(headers: &[(&str, &str)]) -> (m: HeaderMap)
        ensures
            m@ == header_pairs_map(pair_views(headers@)),
    {
        let mut m = HeaderMap::new();
        let n = headers.len();
        let mut i: usize = 0;
        while i < n
            invariant
                n == headers@.len(),
                0 <= i <= n,
                m@ == header_pairs_map(pair_views(headers@.take(i as int))),
            decreases n - i,
        {
            let (name, value) = headers[i];
            m.insert(name.to_owned(), value.to_owned());
            assert(pair_views(headers@.take(i + 1)).drop_last() =~= pair_views(
                headers@.take(i as int),
            ));
            i = i + 1;
        }
        assert(headers@.take(n as int) =~= headers@);
        m
    }

    /// Create a `GET` request with the given url.
    pub fn get(url: &str) -> (r: Request)
        ensures
            r.method@ == "GET"@,
            r.url@ == url@,
            r.body@ == Seq::<u8>::empty(),
            r.headers@ == get_headers(),
    {
        let pairs: &[(&str, &str)] = &[("Accept", "*/*")];
        let headers = Request::create_headers_map(pairs);
        proof {
            let pv = pair_views(pairs@);
            reveal_with_fuel(header_pairs_map, 2);
            assert(pv.drop_last() =~= Seq::<(Seq<char>, Seq<char>)>::empty());
            assert(header_pairs_map(pv) =~= get_headers());
        }
        Request { method: "GET".to_owned(), url: url.to_owned(), body: Vec::new(), headers }
    }

    /// Create a `POST` request with the given url and body.
    pub fn post(url: &str, body: &str) -> (r: Request)
        ensures
            r.method@ == "POST"@,
            r.url@ == url@,
            r.body@ == encode_utf8(body@),
            r.headers@ == post_headers(),
    {
        let pairs: &[(&str, &str)] = &[
            ("Accept", "*/*"),
            ("Content-Type", "text/plain; charset=utf-8"),
        ];
        let headers = Request::create_headers_map(pairs);
        proof {
            let pv = pair_views(pairs@);
            reveal_with_fuel(header_pairs_map, 3);
            assert(pv.drop_last().drop_last() =~= Seq::<(Seq<char>, Seq<char>)>::empty());
            assert(header_pairs_map(pv.drop_last()) =~= get_headers());
            assert(header_pairs_map(pv) =~= post_headers());
        }
        Request {
            method: "POST".to_owned(),
            url: url.to_owned(),
            body: vstd::slice::slice_to_vec(body.as_bytes()),
            headers,
        }
    }
}

/// Response from a completed HTTP request.
pub struct Response {
    /// The URL we ended up at. This can differ from the request url when we have followed redirects.
    pub url: String,
    /// Did we get a 2xx response code?
    pub ok: bool,
    /// Status code (e.g. `404` for "File not found").
    pub status: u16,
    /// Status text (e.g. "File not found" for status code `404`).
    pub status_text: String,
    /// The raw bytes.
    pub bytes: Vec<u8>,
    pub headers: HeaderMap,
}

#[verifier::external_type_specification]
#[verifier::external_body]
pub struct ExFromUtf8Error(std::string::FromUtf8Error);

/// Calls std's `String::from_utf8`. Its documentation promises an error
/// exactly when `bytes` is not valid UTF-8, and otherwise the string whose
/// UTF-8 encoding is `bytes`; the contract states both over vstd's model of
/// UTF-8 (`valid_utf8`, `decode_utf8`). Nothing is claimed of the error value.
#[verifier::external_body]
fn string_from_utf8(bytes: Vec<u8>) -> (r: Result<String, std::string::FromUtf8Error>)
    ensures
        r is Ok <==> valid_utf8(bytes@),
        r matches Ok(s) ==> s@ == decode_utf8(bytes@),
{
    String::from_utf8(bytes)
}

/// The name under which a response states its content type.
pub open spec fn content_type_key() -> Seq<char> {
    "content-type"@
}

impl Response {
    /// The body as text: `Some` exactly when the bytes are valid UTF-8, and
    /// then the text whose UTF-8 encoding they are.
    pub fn text(&self) -> (r: Option<String>)
        ensures
            r is Some <==> valid_utf8(self.bytes@),
            r matches Some(s) ==> s@ == decode_utf8(self.bytes@) && encode_utf8(s@)
                == self.bytes@,
    {
        let bytes = self.bytes.clone();
        assert(bytes@ =~= self.bytes@);
        match string_from_utf8(bytes) {
            Ok(s) => {
                proof {
                    vstd::utf8::decode_utf8_encode_utf8(self.bytes@);
                }
                Some(s)
            },
            Err(_) => None,
        }
    }

    /// The value of the `content-type` header, if the response has one.
    pub fn content_type(&self) -> (r: Option<String>)
        ensures
            match r {
                Some(v) => self.headers@.contains_key(content_type_key()) && v@
                    == self.headers@[content_type_key()],
                None => !self.headers@.contains_key(content_type_key()),
            },
    {
        match self.headers.get("content-type") {
            Some(v) => Some(v.clone()),
            None => None,
        }
    }
}

/// Possible errors does NOT include e.g. 404, which is NOT considered an error.
pub type Error = String;

} // verus!
