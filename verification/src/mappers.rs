//! Mapper implementations.
//!
//! This module contains mappers for composing a set of operations. A mapper
//! turns an input into an output; the common case is a boolean that says
//! whether the input satisfies a condition. Every mapper carries a
//! specification-level account of what it computes, stated over the
//! mathematical value of its input.

use crate::input::MatchInput;
use vstd::prelude::*;

pub mod request;
pub mod response;
pub mod sequence;

pub use crate::matchers::KV;

verus! {

/// The core trait. A mapper turns an input value into an output value;
/// `spec_map` is the mathematical statement of that computation, and `map`
/// is the executable form, proved to agree with it.
pub trait Mapper<IN: MatchInput> {
    /// The output type.
    type Out;

    /// Well-formedness: what must hold of this mapper for its output to be
    /// meaningful. `true` for every mapper that has no construction-time
    /// obligations.
    spec fn wf(&self) -> bool;

    /// What the mapper computes for the given input value.
    spec fn spec_map(&self, input: IN::Repr) -> Self::Out;

    /// Map an input to output.
    fn map(&self, input: &IN) -> (r: Self::Out)
        requires
            self.wf(),
        ensures
            r == self.spec_map(input.repr()),
    ;
}

/// Always true.
pub fn any() -> (r: Any)
    ensures
        r == (Any),
{
    Any
}

/// The `Any` mapper returned by [any()](fn.any.html).
pub struct Any;

impl<IN: MatchInput> Mapper<IN> for Any {
    type Out = bool;

    open spec fn wf(&self) -> bool {
        true
    }

    open spec fn spec_map(&self, input: IN::Repr) -> bool {
        true
    }

    fn map(&self, input: &IN) -> (r: bool) {
        true
    }
}

/// True iff the input is equal to the held value.
pub fn eq<T: MatchInput>(value: T) -> (r: Eq<T>)
    ensures
        r.0.repr() == value.repr(),
{
    Eq(value)
}

/// The `Eq` mapper returned by [eq()](fn.eq.html).
pub struct Eq<T>(pub T);

impl<T: MatchInput> Mapper<T> for Eq<T> {
    type Out = bool;

    open spec fn wf(&self) -> bool {
        true
    }

    open spec fn spec_map(&self, input: T::Repr) -> bool {
        input == self.0.repr()
    }

    fn map(&self, input: &T) -> (r: bool) {
        self.0.eq_input(input)
    }
}

/// A `String` equality mapper also matches byte inputs whose bytes are the
/// UTF-8 encoding of the held string.
impl Mapper<Vec<u8>> for Eq<String> {
    type Out = bool;

    open spec fn wf(&self) -> bool {
        true
    }

    open spec fn spec_map(&self, input: Seq<u8>) -> bool {
        input == vstd::utf8::encode_utf8(self.0@)
    }

    fn map(&self, input: &Vec<u8>) -> (r: bool) {
        let r = crate::input::bytes_eq(self.0.as_str().as_bytes(), input.as_slice());
        proof {
            crate::input::lemma_bytes_repr_is_view(input);
        }
        r
    }
}

/// True iff the input matches the regex provided. Returns `None` iff the
/// pattern does not compile.
pub fn matches(pattern: &str) -> (r: Option<Matches>)
    ensures
        r is Some <==> crate::matchers::regex_valid(pattern@),
        r matches Some(m) ==> m.0.pattern@ == pattern@,
{
    match crate::matchers::matches(pattern) {
        Some(m) => Some(Matches(m)),
        None => None,
    }
}

/// The `Matches` mapper returned by [matches()](fn.matches.html).
pub struct Matches(pub crate::matchers::Matches);

impl Mapper<String> for Matches {
    type Out = bool;

    open spec fn wf(&self) -> bool {
        crate::matchers::regex_valid(self.0.pattern@)
    }

    open spec fn spec_map(&self, input: Seq<char>) -> bool {
        crate::matchers::regex_match(self.0.pattern@, vstd::utf8::encode_utf8(input))
    }

    fn map(&self, input: &String) -> (r: bool) {
        let mut ctx = crate::matchers::ExecutionContext::new();
        crate::matchers::Matcher::<String>::matches(&self.0, input, &mut ctx)
    }
}

impl Mapper<Vec<u8>> for Matches {
    type Out = bool;

    open spec fn wf(&self) -> bool {
        crate::matchers::regex_valid(self.0.pattern@)
    }

    open spec fn spec_map(&self, input: Seq<u8>) -> bool {
        crate::matchers::regex_match(self.0.pattern@, input)
    }

    fn map(&self, input: &Vec<u8>) -> (r: bool) {
        let mut ctx = crate::matchers::ExecutionContext::new();
        crate::matchers::Matcher::<Vec<u8>>::matches(&self.0, input, &mut ctx)
    }
}

/// Invert the result of the inner mapper.
pub fn not<M>(inner: M) -> (r: Not<M>)
    ensures
        r.0 == inner,
{
    Not(inner)
}

/// The `Not` mapper returned by [not()](fn.not.html).
pub struct Not<M>(pub M);

impl<IN: MatchInput, M: Mapper<IN, Out = bool>> Mapper<IN> for Not<M> {
    type Out = bool;

    open spec fn wf(&self) -> bool {
        self.0.wf()
    }

    open spec fn spec_map(&self, input: IN::Repr) -> bool {
        !self.0.spec_map(input)
    }

    fn map(&self, input: &IN) -> (r: bool) {
        !self.0.map(input)
    }
}

/// True iff every provided mapper returns true; vacuously true of an empty
/// list.
pub fn all_of<M>(inner: Vec<M>) -> (r: AllOf<M>)
    ensures
        r.0 == inner,
{
    AllOf(inner)
}

/// The `AllOf` mapper returned by [all_of()](fn.all_of.html).
pub struct AllOf<M>(pub Vec<M>);

impl<IN: MatchInput, M: Mapper<IN, Out = bool>> Mapper<IN> for AllOf<M> {
    type Out = bool;

    open spec fn wf(&self) -> bool {
        forall|i: int| 0 <= i < self.0@.len() ==> #[trigger] self.0@[i].wf()
    }

    open spec fn spec_map(&self, input: IN::Repr) -> bool {
        forall|i: int| 0 <= i < self.0@.len() ==> #[trigger] self.0@[i].spec_map(input)
    }

    fn map(&self, input: &IN) -> (r: bool) {
        let mut i: usize = 0;
        while i < self.0.len()
            invariant
                self.wf(),
                0 <= i <= self.0@.len(),
                forall|j: int| 0 <= j < i ==> #[trigger] self.0@[j].spec_map(input.repr()),
            decreases self.0@.len() - i,
        {
            if !self.0[i].map(input) {
                return false;
            }
            i += 1;
        }
        true
    }
}

/// True iff at least one provided mapper returns true; vacuously false of
/// an empty list.
pub fn any_of<M>(inner: Vec<M>) -> (r: AnyOf<M>)
    ensures
        r.0 == inner,
{
    AnyOf(inner)
}

/// The `AnyOf` mapper returned by [any_of()](fn.any_of.html).
pub struct AnyOf<M>(pub Vec<M>);

impl<IN: MatchInput, M: Mapper<IN, Out = bool>> Mapper<IN> for AnyOf<M> {
    type Out = bool;

    open spec fn wf(&self) -> bool {
        forall|i: int| 0 <= i < self.0@.len() ==> #[trigger] self.0@[i].wf()
    }

    open spec fn spec_map(&self, input: IN::Repr) -> bool {
        exists|i: int| 0 <= i < self.0@.len() && #[trigger] self.0@[i].spec_map(input)
    }

    fn map(&self, input: &IN) -> (r: bool) {
        let mut i: usize = 0;
        while i < self.0.len()
            invariant
                self.wf(),
                0 <= i <= self.0@.len(),
                forall|j: int| 0 <= j < i ==> !#[trigger] self.0@[j].spec_map(input.repr()),
            decreases self.0@.len() - i,
        {
            if self.0[i].map(input) {
                return true;
            }
            i += 1;
        }
        false
    }
}

/// Url-decode the input and pass the resulting list of key-value pairs to
/// the inner mapper.
pub fn url_decoded<M>(inner: M) -> (r: UrlDecoded<M>)
    ensures
        r.0 == inner,
{
    UrlDecoded(inner)
}

/// The `UrlDecoded` mapper returned by [url_decoded()](fn.url_decoded.html).
pub struct UrlDecoded<M>(pub M);

impl<M: Mapper<Vec<KV<String, String>>, Out = bool>> Mapper<String> for UrlDecoded<M> {
    type Out = bool;

    open spec fn wf(&self) -> bool {
        self.0.wf()
    }

    open spec fn spec_map(&self, input: Seq<char>) -> bool {
        self.0.spec_map(crate::urlenc::url_decode_spec(vstd::utf8::encode_utf8(input)))
    }

    fn map(&self, input: &String) -> (r: bool) {
        let decoded = crate::urlenc::url_decode(input.as_str().as_bytes());
        self.0.map(&decoded)
    }
}

impl<M: Mapper<Vec<KV<String, String>>, Out = bool>> Mapper<Vec<u8>> for UrlDecoded<M> {
    type Out = bool;

    open spec fn wf(&self) -> bool {
        self.0.wf()
    }

    open spec fn spec_map(&self, input: Seq<u8>) -> bool {
        self.0.spec_map(crate::urlenc::url_decode_spec(input))
    }

    fn map(&self, input: &Vec<u8>) -> (r: bool) {
        let decoded = crate::urlenc::url_decode(input.as_slice());
        let r = self.0.map(&decoded);
        proof {
            crate::input::lemma_bytes_repr_is_view(input);
        }
        r
    }
}

/// Json-decode the input and pass the resulting document to the inner
/// mapper. Input that is not JSON maps to false.
pub fn json_decoded<M>(inner: M) -> (r: JsonDecoded<M>)
    ensures
        r.0 == inner,
{
    JsonDecoded(inner)
}

/// The `JsonDecoded` mapper returned by [json_decoded()](fn.json_decoded.html).
pub struct JsonDecoded<M>(pub M);

impl<M: Mapper<crate::json::Json, Out = bool>> Mapper<String> for JsonDecoded<M> {
    type Out = bool;

    open spec fn wf(&self) -> bool {
        self.0.wf()
    }

    open spec fn spec_map(&self, input: Seq<char>) -> bool {
        match crate::json::json_canon(vstd::utf8::encode_utf8(input)) {
            Some(canon) => self.0.spec_map(canon),
            None => false,
        }
    }

    fn map(&self, input: &String) -> (r: bool) {
        match crate::json::Json::parse(input.as_str()) {
            Some(doc) => self.0.map(&doc),
            None => false,
        }
    }
}

impl<M: Mapper<crate::json::Json, Out = bool>> Mapper<Vec<u8>> for JsonDecoded<M> {
    type Out = bool;

    open spec fn wf(&self) -> bool {
        self.0.wf()
    }

    open spec fn spec_map(&self, input: Seq<u8>) -> bool {
        match crate::json::json_canon(input) {
            Some(canon) => self.0.spec_map(canon),
            None => false,
        }
    }

    fn map(&self, input: &Vec<u8>) -> (r: bool) {
        proof {
            crate::input::lemma_bytes_repr_is_view(input);
        }
        match crate::json::Json::parse_bytes(input.as_slice()) {
            Some(doc) => self.0.map(&doc),
            None => false,
        }
    }
}

/// Lowercase the input and pass it to the inner mapper.
pub fn lowercase<M>(inner: M) -> (r: Lowercase<M>)
    ensures
        r.0 == inner,
{
    Lowercase(inner)
}

/// The `Lowercase` mapper returned by [lowercase()](fn.lowercase.html).
pub struct Lowercase<M>(pub M);

impl<M: Mapper<Vec<u8>>> Mapper<String> for Lowercase<M> {
    type Out = M::Out;

    open spec fn wf(&self) -> bool {
        self.0.wf()
    }

    open spec fn spec_map(&self, input: Seq<char>) -> M::Out {
        self.0.spec_map(crate::matchers::lower_of(vstd::utf8::encode_utf8(input)))
    }

    fn map(&self, input: &String) -> (r: M::Out) {
        let lowered = crate::matchers::bytes_to_lowercase(input.as_str().as_bytes());
        let r = self.0.map(&lowered);
        proof {
            crate::input::lemma_bytes_repr_is_view(&lowered);
        }
        r
    }
}

impl<M: Mapper<Vec<u8>>> Mapper<Vec<u8>> for Lowercase<M> {
    type Out = M::Out;

    open spec fn wf(&self) -> bool {
        self.0.wf()
    }

    open spec fn spec_map(&self, input: Seq<u8>) -> M::Out {
        self.0.spec_map(crate::matchers::lower_of(input))
    }

    fn map(&self, input: &Vec<u8>) -> (r: M::Out) {
        let lowered = crate::matchers::bytes_to_lowercase(input.as_slice());
        let r = self.0.map(&lowered);
        proof {
            crate::input::lemma_bytes_repr_is_view(&lowered);
            crate::input::lemma_bytes_repr_is_view(input);
        }
        r
    }
}

/// True iff the inner mapper returns true for at least one element of the
/// input vector, in order, stopping at the first match.
pub fn contains<M>(inner: M) -> (r: Contains<M>)
    ensures
        r.0 == inner,
{
    Contains(inner)
}

/// The `Contains` mapper returned by [contains()](fn.contains.html).
pub struct Contains<M>(pub M);

impl<E: MatchInput, M: Mapper<E, Out = bool>> Mapper<Vec<E>> for Contains<M> {
    type Out = bool;

    open spec fn wf(&self) -> bool {
        self.0.wf()
    }

    open spec fn spec_map(&self, input: Seq<E::Repr>) -> bool {
        exists|i: int| 0 <= i < input.len() && self.0.spec_map(#[trigger] input[i])
    }

    fn map(&self, input: &Vec<E>) -> (r: bool) {
        let mut i: usize = 0;
        while i < input.len()
            invariant
                self.wf(),
                0 <= i <= input@.len(),
                forall|j: int| 0 <= j < i ==> !self.0.spec_map(#[trigger] input.repr()[j]),
            decreases input@.len() - i,
        {
            if self.0.map(&input[i]) {
                assert(self.0.spec_map(input.repr()[i as int]));
                return true;
            }
            i += 1;
        }
        false
    }
}

/// Extract the key from a key-value pair and hand it to the inner mapper.
pub fn key<M>(inner: M) -> (r: Key<M>)
    ensures
        r.0 == inner,
{
    Key(inner)
}

/// The `Key` mapper returned by [key()](fn.key.html).
pub struct Key<M>(pub M);

impl<K: MatchInput, V: MatchInput, M: Mapper<K>> Mapper<KV<K, V>> for Key<M> {
    type Out = M::Out;

    open spec fn wf(&self) -> bool {
        self.0.wf()
    }

    open spec fn spec_map(&self, input: (K::Repr, V::Repr)) -> M::Out {
        self.0.spec_map(input.0)
    }

    fn map(&self, input: &KV<K, V>) -> (r: M::Out) {
        self.0.map(&input.k)
    }
}

/// Extract the value from a key-value pair and hand it to the inner mapper.
pub fn value<M>(inner: M) -> (r: Value<M>)
    ensures
        r.0 == inner,
{
    Value(inner)
}

/// The `Value` mapper returned by [value()](fn.value.html).
pub struct Value<M>(pub M);

impl<K: MatchInput, V: MatchInput, M: Mapper<V>> Mapper<KV<K, V>> for Value<M> {
    type Out = M::Out;

    open spec fn wf(&self) -> bool {
        self.0.wf()
    }

    open spec fn spec_map(&self, input: (K::Repr, V::Repr)) -> M::Out {
        self.0.spec_map(input.1)
    }

    fn map(&self, input: &KV<K, V>) -> (r: M::Out) {
        self.0.map(&input.v)
    }
}

/// A pair of mappers maps a key-value pair to true iff the first maps the
/// key to true and the second maps the value to true; the value side is
/// skipped when the key side fails.
impl<K: MatchInput, V: MatchInput, KM: Mapper<K, Out = bool>, VM: Mapper<V, Out = bool>> Mapper<
    KV<K, V>,
> for (KM, VM) {
    type Out = bool;

    open spec fn wf(&self) -> bool {
        self.0.wf() && self.1.wf()
    }

    open spec fn spec_map(&self, input: (K::Repr, V::Repr)) -> bool {
        self.0.spec_map(input.0) && self.1.spec_map(input.1)
    }

    fn map(&self, input: &KV<K, V>) -> (r: bool) {
        self.0.map(&input.k) && self.1.map(&input.v)
    }
}

/// Extract the length of the input and hand it to the inner mapper.
pub fn len<M>(inner: M) -> (r: Len<M>)
    ensures
        r.0 == inner,
{
    Len(inner)
}

/// The `Len` mapper returned by [len()](fn.len.html).
pub struct Len<M>(pub M);

impl<E: MatchInput, M: Mapper<usize>> Mapper<Vec<E>> for Len<M> {
    type Out = M::Out;

    open spec fn wf(&self) -> bool {
        self.0.wf()
    }

    open spec fn spec_map(&self, input: Seq<E::Repr>) -> M::Out {
        self.0.spec_map(input.len() as usize)
    }

    fn map(&self, input: &Vec<E>) -> (r: M::Out) {
        self.0.map(&input.len())
    }
}

/// The length of a string input is its length in bytes of UTF-8 encoding,
/// matching what `str::len` reports.
impl<M: Mapper<usize>> Mapper<String> for Len<M> {
    type Out = M::Out;

    open spec fn wf(&self) -> bool {
        self.0.wf()
    }

    open spec fn spec_map(&self, input: Seq<char>) -> M::Out {
        self.0.spec_map(vstd::utf8::encode_utf8(input).len() as usize)
    }

    fn map(&self, input: &String) -> (r: M::Out) {
        self.0.map(&input.as_str().len())
    }
}

/// Hand the input to the inner mapper unchanged; a point to which
/// diagnostics can be attached.
pub fn inspect<M>(inner: M) -> (r: Inspect<M>)
    ensures
        r.0 == inner,
{
    Inspect(inner)
}

/// The `Inspect` mapper returned by [inspect()](fn.inspect.html).
pub struct Inspect<M>(pub M);

impl<IN: MatchInput, M: Mapper<IN>> Mapper<IN> for Inspect<M> {
    type Out = M::Out;

    open spec fn wf(&self) -> bool {
        self.0.wf()
    }

    open spec fn spec_map(&self, input: IN::Repr) -> M::Out {
        self.0.spec_map(input)
    }

    fn map(&self, input: &IN) -> (r: M::Out) {
        self.0.map(input)
    }
}

/// The negation law: a `Not` mapper accepts exactly the inputs its inner
/// mapper rejects.
pub proof fn lemma_not_inverts<IN: MatchInput, M: Mapper<IN, Out = bool>>(m: M, input: IN::Repr)
    ensures
        Not(m).spec_map(input) == !m.spec_map(input),
{
}

/// The empty-conjunction law: `AllOf` of an empty list accepts every input.
pub proof fn lemma_all_of_empty<IN: MatchInput, M: Mapper<IN, Out = bool>>(
    a: AllOf<M>,
    input: IN::Repr,
)
    requires
        a.0@.len() == 0,
    ensures
        a.spec_map(input),
{
}

/// The empty-disjunction law: `AnyOf` of an empty list rejects every input.
pub proof fn lemma_any_of_empty<IN: MatchInput, M: Mapper<IN, Out = bool>>(
    a: AnyOf<M>,
    input: IN::Repr,
)
    requires
        a.0@.len() == 0,
    ensures
        !a.spec_map(input),
{
}

/// The binary-conjunction law: `AllOf` of two mappers accepts exactly the
/// inputs both accept.
pub proof fn lemma_all_of_pair<IN: MatchInput, M: Mapper<IN, Out = bool>>(
    a: AllOf<M>,
    input: IN::Repr,
)
    requires
        a.0@.len() == 2,
    ensures
        a.spec_map(input) == (a.0@[0].spec_map(input) && a.0@[1].spec_map(input)),
{
    if a.0@[0].spec_map(input) && a.0@[1].spec_map(input) {
        assert forall|i: int| 0 <= i < a.0@.len() implies #[trigger] a.0@[i].spec_map(input) by {
            if i == 0 {
            } else {
                assert(i == 1);
            }
        }
    }
}

/// The binary-disjunction law: `AnyOf` of two mappers accepts exactly the
/// inputs at least one accepts.
pub proof fn lemma_any_of_pair<IN: MatchInput, M: Mapper<IN, Out = bool>>(
    a: AnyOf<M>,
    input: IN::Repr,
)
    requires
        a.0@.len() == 2,
    ensures
        a.spec_map(input) == (a.0@[0].spec_map(input) || a.0@[1].spec_map(input)),
{
    if a.spec_map(input) {
        let i = choose|i: int| 0 <= i < a.0@.len() && #[trigger] a.0@[i].spec_map(input);
        if i == 0 {
        } else {
            assert(i == 1);
        }
    }
}

} // verus!
