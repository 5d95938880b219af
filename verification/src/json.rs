//! JSON documents in canonical form.
//!
//! A [`Json`] value holds the canonical serialization of a JSON document:
//! the bytes that parsing the document and serializing it again produce,
//! with object keys ordered. Two documents that differ only in key order or
//! whitespace have the same canonical form, so equality of [`Json`] values
//! is equality of documents.

use crate::input::MatchInput;
use vstd::prelude::*;

verus! {

/// The canonical serialization of the JSON document a byte string holds, or
/// nothing if the bytes are not a JSON document.
pub uninterp spec fn json_canon(bytes: Seq<u8>) -> Option<Seq<u8>>;

/// Relies on serde_json::from_slice followed by serde_json::to_vec: whether
/// bytes parse as JSON, and the canonical bytes they re-serialize to, depend
/// on the input alone; object keys come out in sorted order.
#[verifier::external_body]
fn json_canonical(b: &[u8]) -> (r: Option<Vec<u8>>)
    ensures
        r is Some <==> json_canon(b@) is Some,
        r matches Some(v) ==> json_canon(b@) == Some(v@),
{
    match serde_json::from_slice::<serde_json::Value>(b) {
        Ok(v) => serde_json::to_vec(&v).ok(),
        Err(_) => None,
    }
}

/// A JSON document, held in canonical form.
pub struct Json {
    /// The canonical serialization of the document.
    pub canon: Vec<u8>,
}

impl Json {
    /// Parse a JSON document from text. Returns `None` iff the text is not
    /// JSON.
    pub fn parse(text: &str) -> (r: Option<Json>)
        ensures
            r is Some <==> json_canon(vstd::utf8::encode_utf8(text@)) is Some,
            r matches Some(j) ==> Some(j.canon@) == json_canon(vstd::utf8::encode_utf8(text@)),
    {
        match json_canonical(text.as_bytes()) {
            Some(canon) => Some(Json { canon }),
            None => None,
        }
    }

    /// Parse a JSON document from bytes. Returns `None` iff the bytes are
    /// not JSON.
    pub fn parse_bytes(bytes: &[u8]) -> (r: Option<Json>)
        ensures
            r is Some <==> json_canon(bytes@) is Some,
            r matches Some(j) ==> Some(j.canon@) == json_canon(bytes@),
    {
        match json_canonical(bytes) {
            Some(canon) => Some(Json { canon }),
            None => None,
        }
    }
}

impl MatchInput for Json {
    type Repr = Seq<u8>;

    open spec fn repr(&self) -> Seq<u8> {
        self.canon@
    }

    fn eq_input(&self, other: &Self) -> (r: bool) {
        crate::input::bytes_eq(self.canon.as_slice(), other.canon.as_slice())
    }

    fn dup(&self) -> (r: Self) {
        let c = self.canon.dup();
        proof {
            crate::input::lemma_bytes_repr_is_view(&c);
            crate::input::lemma_bytes_repr_is_view(&self.canon);
        }
        Json { canon: c }
    }

    open spec fn spec_describe(&self) -> Seq<char> {
        crate::urlenc::read_utf8(self.canon@)
    }

    fn describe(&self) -> (r: String) {
        crate::urlenc::utf8_lossy(self.canon.as_slice())
    }
}

} // verus!
