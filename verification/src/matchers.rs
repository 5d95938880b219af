//! Matcher implementations.
//!
//! This module contains matchers for composing a set of operations. The
//! result of the composition is a boolean: whether the input satisfies the
//! composed condition. Every matcher carries a specification-level account of
//! what it decides, stated over the mathematical value of its input.

use crate::input::MatchInput;
use vstd::prelude::*;
use vstd::string::StringExecFns;

pub mod request;

verus! {

/// One record of a sub-match: which matcher was tried, how deeply nested it
/// was, and whether it matched.
pub struct TraceEntry {
    /// The nesting depth the sub-match ran at; direct children of the
    /// evaluated matcher run at depth one.
    pub depth: usize,
    /// The printable name of the matcher that was tried.
    pub name: String,
    /// Whether the sub-match passed.
    pub matched: bool,
}

/// An ExecutionContext tracks how matchers are chained together. Composite
/// matchers hand their inner matchers to [`ExecutionContext::chain`], which
/// tracks the nesting depth of the evaluation and records one trace entry
/// per sub-match; the context has no effect on any matcher's decision.
pub struct ExecutionContext {
    /// How deeply nested the current evaluation is.
    pub stack_depth: usize,
    /// The recorded sub-matches, in completion order.
    pub trace: Vec<TraceEntry>,
}

impl ExecutionContext {
    /// A fresh context at depth zero with an empty trace.
    pub fn new() -> (r: ExecutionContext)
        ensures
            r.stack_depth == 0,
            r.trace@.len() == 0,
    {
        ExecutionContext { stack_depth: 0, trace: Vec::new() }
    }

    /// Evaluate the given matcher with the provided input, starting a fresh
    /// context at depth zero.
    pub fn evaluate<IN: MatchInput, M: Matcher<IN>>(matcher: &M, input: &IN) -> (r: bool)
        requires
            matcher.wf(),
        ensures
            r == matcher.spec_matches(input.repr()),
    {
        let mut ctx = ExecutionContext::new();
        matcher.matches(input, &mut ctx)
    }

    /// Invoke the provided matcher with the provided input. This is
    /// equivalent to invoking `matcher.matches(input, ..)` directly, but lets
    /// the context track the nesting depth of the evaluation and record the
    /// sub-match: when the call returns, the last trace entry names this
    /// matcher and holds its decision.
    pub fn chain<IN: MatchInput, M: Matcher<IN>>(&mut self, matcher: &M, input: &IN) -> (r: bool)
        requires
            matcher.wf(),
        ensures
            r == matcher.spec_matches(input.repr()),
            final(self).stack_depth == old(self).stack_depth,
            final(self).trace@.len() > 0,
            final(self).trace@.last().name@ == matcher.spec_describe(),
            final(self).trace@.last().matched == r,
            final(self).trace@.last().depth == if old(self).stack_depth < usize::MAX {
                (old(self).stack_depth + 1) as usize
            } else {
                old(self).stack_depth
            },
    {
        let saved: usize = self.stack_depth;
        let run_depth: usize = if saved < usize::MAX {
            saved + 1
        } else {
            saved
        };
        self.stack_depth = run_depth;
        let x = matcher.matches(input, self);
        let entry = TraceEntry { depth: run_depth, name: matcher.describe(), matched: x };
        self.trace.push(entry);
        self.stack_depth = saved;
        x
    }
}

/// The core trait. A matcher decides whether an input satisfies a condition;
/// `spec_matches` is the mathematical statement of that decision, and
/// `matches` is the executable form, proved to agree with it.
pub trait Matcher<IN: MatchInput> {
    /// Well-formedness: what must hold of this matcher for its decision to be
    /// meaningful. `true` for every matcher that has no construction-time
    /// obligations.
    spec fn wf(&self) -> bool;

    /// What the matcher decides for the given input value.
    spec fn spec_matches(&self, input: IN::Repr) -> bool;

    /// Decide whether the input matches.
    fn matches(&self, input: &IN, ctx: &mut ExecutionContext) -> (r: bool)
        requires
            self.wf(),
        ensures
            r == self.spec_matches(input.repr()),
    ;

    /// The matcher's printable name, for diagnostics.
    spec fn spec_describe(&self) -> Seq<char>;

    /// Render the matcher's printable name, for diagnostics.
    fn describe(&self) -> (r: String)
        ensures
            r@ == self.spec_describe(),
    ;
}

/// The printable names of a list of matchers, comma separated.
pub open spec fn spec_describe_list<IN: MatchInput, M: Matcher<IN>>(s: Seq<M>) -> Seq<char>
    decreases s.len(),
{
    if s.len() == 0 {
        Seq::empty()
    } else if s.len() == 1 {
        s[0].spec_describe()
    } else {
        s[0].spec_describe() + ", "@ + spec_describe_list(s.drop_first())
    }
}

/// Render the printable names of a list of matchers, comma separated.
fn describe_list<IN: MatchInput, M: Matcher<IN>>(v: &Vec<M>) -> (r: String)
    ensures
        r@ == spec_describe_list::<IN, M>(v@),
{
    proof {
        reveal_strlit(", ");
    }
    let ghost full = v@;
    let mut s = String::new();
    let mut i: usize = 0;
    while i < v.len()
        invariant
            v@ == full,
            0 <= i <= full.len(),
            i == 0 ==> s@.len() == 0,
            0 < i < full.len() ==> spec_describe_list::<IN, M>(full) =~= s@ + ", "@
                + spec_describe_list::<IN, M>(full.skip(i as int)),
            i == full.len() && i > 0 ==> spec_describe_list::<IN, M>(full) =~= s@,
        decreases full.len() - i,
    {
        if i > 0 {
            s.append(", ");
        }
        let name = v[i].describe();
        s.append(name.as_str());
        proof {
            let rest = full.skip(i as int);
            assert(rest[0] == full[i as int]);
            assert(rest.drop_first() =~= full.skip(i + 1));
            if i + 1 < full.len() {
                assert(spec_describe_list::<IN, M>(rest) =~= rest[0].spec_describe() + ", "@
                    + spec_describe_list::<IN, M>(rest.drop_first()));
            } else {
                assert(rest.len() == 1);
            }
        }
        i += 1;
    }
    proof {
        if full.len() == 0 {
            assert(spec_describe_list::<IN, M>(full) =~= Seq::<char>::empty());
        }
        assert(full.skip(0) =~= full);
    }
    s
}

/// Always true.
pub fn any() -> (r: Any)
    ensures
        r == (Any),
{
    Any
}

/// The `Any` matcher returned by [any()](fn.any.html). It matches every
/// input of every input type.
pub struct Any;

impl<IN: MatchInput> Matcher<IN> for Any {
    open spec fn wf(&self) -> bool {
        true
    }

    open spec fn spec_matches(&self, input: IN::Repr) -> bool {
        true
    }

    open spec fn spec_describe(&self) -> Seq<char> {
        "Any"@
    }

    fn describe(&self) -> (r: String) {
        "Any".to_owned()
    }

    fn matches(&self, input: &IN, ctx: &mut ExecutionContext) -> (r: bool) {
        true
    }
}

/// True iff the input is equal to the held value.
pub fn eq<T: MatchInput>(value: T) -> (r: Eq<T>)
    ensures
        r.0.repr() == value.repr(),
{
    Eq(value)
}

/// The `Eq` matcher returned by [eq()](fn.eq.html).
pub struct Eq<T>(pub T);

impl<T: MatchInput> Matcher<T> for Eq<T> {
    open spec fn wf(&self) -> bool {
        true
    }

    open spec fn spec_matches(&self, input: T::Repr) -> bool {
        input == self.0.repr()
    }

    open spec fn spec_describe(&self) -> Seq<char> {
        "Eq("@ + self.0.spec_describe() + ")"@
    }

    fn describe(&self) -> (r: String) {
        let mut s = String::new();
        s.append("Eq(");
        let inner = self.0.describe();
        s.append(inner.as_str());
        s.append(")");
        proof {
            reveal_strlit("Eq(");
            reveal_strlit(")");
            assert(s@ =~= "Eq("@ + self.0.spec_describe() + ")"@);
        }
        s
    }

    fn matches(&self, input: &T, ctx: &mut ExecutionContext) -> (r: bool) {
        self.0.eq_input(input)
    }
}

/// A `String` equality matcher also matches byte inputs whose bytes are the
/// UTF-8 encoding of the held string.
impl Matcher<Vec<u8>> for Eq<String> {
    open spec fn wf(&self) -> bool {
        true
    }

    open spec fn spec_matches(&self, input: Seq<u8>) -> bool {
        input == vstd::utf8::encode_utf8(self.0@)
    }

    open spec fn spec_describe(&self) -> Seq<char> {
        "Eq("@ + self.0.spec_describe() + ")"@
    }

    fn describe(&self) -> (r: String) {
        let mut s = String::new();
        s.append("Eq(");
        let inner = self.0.describe();
        s.append(inner.as_str());
        s.append(")");
        proof {
            reveal_strlit("Eq(");
            reveal_strlit(")");
            assert(s@ =~= "Eq("@ + self.0.spec_describe() + ")"@);
        }
        s
    }

    fn matches(&self, input: &Vec<u8>, ctx: &mut ExecutionContext) -> (r: bool) {
        let r = crate::input::bytes_eq(self.0.as_str().as_bytes(), input.as_slice());
        proof {
            crate::input::lemma_bytes_repr_is_view(input);
        }
        r
    }
}

/// Whether a pattern is accepted by the regular-expression compiler.
pub uninterp spec fn regex_valid(pattern: Seq<char>) -> bool;

/// Whether a byte string matches a (valid) regular-expression pattern.
pub uninterp spec fn regex_match(pattern: Seq<char>, input: Seq<u8>) -> bool;

/// Relies on regex::bytes::Regex::new: whether a pattern compiles depends on
/// the pattern alone.
#[verifier::external_body]
fn regex_compiles(pattern: &str) -> (r: bool)
    ensures
        r == regex_valid(pattern@),
{
    regex::bytes::Regex::new(pattern).is_ok()
}

/// Relies on regex::bytes::Regex::new followed by Regex::is_match: whether a
/// byte string matches a valid pattern depends on the pattern and the input
/// alone.
#[verifier::external_body]
fn regex_is_match(pattern: &str, input: &[u8]) -> (r: bool)
    requires
        regex_valid(pattern@),
    ensures
        r == regex_match(pattern@, input@),
{
    regex::bytes::Regex::new(pattern).expect("pattern was checked at construction").is_match(
        input,
    )
}

/// True iff the input matches the regex provided. Returns `None` iff the
/// pattern does not compile.
pub fn matches(pattern: &str) -> (r: Option<Matches>)
    ensures
        r is Some <==> regex_valid(pattern@),
        r matches Some(m) ==> m.pattern@ == pattern@,
{
    if regex_compiles(pattern) {
        Some(Matches { pattern: pattern.to_owned() })
    } else {
        None
    }
}

/// The `Matches` matcher returned by [matches()](fn.matches.html). It holds
/// the pattern it was built from; well-formedness records that the pattern
/// compiles.
pub struct Matches {
    /// The regular-expression pattern.
    pub pattern: String,
}

impl Matcher<String> for Matches {
    open spec fn wf(&self) -> bool {
        regex_valid(self.pattern@)
    }

    open spec fn spec_matches(&self, input: Seq<char>) -> bool {
        regex_match(self.pattern@, vstd::utf8::encode_utf8(input))
    }

    open spec fn spec_describe(&self) -> Seq<char> {
        "Matches("@ + self.pattern@ + ")"@
    }

    fn describe(&self) -> (r: String) {
        let mut s = String::new();
        s.append("Matches(");
        s.append(self.pattern.as_str());
        s.append(")");
        proof {
            reveal_strlit("Matches(");
            reveal_strlit(")");
            assert(s@ =~= "Matches("@ + self.pattern@ + ")"@);
        }
        s
    }

    fn matches(&self, input: &String, ctx: &mut ExecutionContext) -> (r: bool) {
        regex_is_match(self.pattern.as_str(), input.as_str().as_bytes())
    }
}

impl Matcher<Vec<u8>> for Matches {
    open spec fn wf(&self) -> bool {
        regex_valid(self.pattern@)
    }

    open spec fn spec_matches(&self, input: Seq<u8>) -> bool {
        regex_match(self.pattern@, input)
    }

    open spec fn spec_describe(&self) -> Seq<char> {
        "Matches("@ + self.pattern@ + ")"@
    }

    fn describe(&self) -> (r: String) {
        let mut s = String::new();
        s.append("Matches(");
        s.append(self.pattern.as_str());
        s.append(")");
        proof {
            reveal_strlit("Matches(");
            reveal_strlit(")");
            assert(s@ =~= "Matches("@ + self.pattern@ + ")"@);
        }
        s
    }

    fn matches(&self, input: &Vec<u8>, ctx: &mut ExecutionContext) -> (r: bool) {
        let r = regex_is_match(self.pattern.as_str(), input.as_slice());
        proof {
            crate::input::lemma_bytes_repr_is_view(input);
        }
        r
    }
}

/// Whether a byte string is the lowercased form of another, as the
/// lowercasing routine for possibly non-ASCII byte strings computes it.
pub uninterp spec fn lower_of(input: Seq<u8>) -> Seq<u8>;

/// Relies on bstr::ByteSlice::to_lowercase: the result depends on the input
/// bytes alone.
#[verifier::external_body]
pub(crate) fn bytes_to_lowercase(input: &[u8]) -> (r: Vec<u8>)
    ensures
        r@ == lower_of(input@),
{
    bstr::ByteSlice::to_lowercase(input)
}

/// Lowercase the input and pass it to the inner matcher.
pub fn lowercase<M>(inner: M) -> (r: Lowercase<M>)
    ensures
        r.0 == inner,
{
    Lowercase(inner)
}

/// The `Lowercase` matcher returned by [lowercase()](fn.lowercase.html).
pub struct Lowercase<M>(pub M);

impl<M: Matcher<Vec<u8>>> Matcher<String> for Lowercase<M> {
    open spec fn wf(&self) -> bool {
        self.0.wf()
    }

    open spec fn spec_matches(&self, input: Seq<char>) -> bool {
        self.0.spec_matches(lower_of(vstd::utf8::encode_utf8(input)))
    }

    open spec fn spec_describe(&self) -> Seq<char> {
        "Lowercase("@ + self.0.spec_describe() + ")"@
    }

    fn describe(&self) -> (r: String) {
        let mut s = String::new();
        s.append("Lowercase(");
        let inner = self.0.describe();
        s.append(inner.as_str());
        s.append(")");
        proof {
            reveal_strlit("Lowercase(");
            reveal_strlit(")");
            assert(s@ =~= "Lowercase("@ + self.0.spec_describe() + ")"@);
        }
        s
    }

    fn matches(&self, input: &String, ctx: &mut ExecutionContext) -> (r: bool) {
        let lowered = bytes_to_lowercase(input.as_str().as_bytes());
        let r = ctx.chain(&self.0, &lowered);
        proof {
            crate::input::lemma_bytes_repr_is_view(&lowered);
        }
        r
    }
}

impl<M: Matcher<Vec<u8>>> Matcher<Vec<u8>> for Lowercase<M> {
    open spec fn wf(&self) -> bool {
        self.0.wf()
    }

    open spec fn spec_matches(&self, input: Seq<u8>) -> bool {
        self.0.spec_matches(lower_of(input))
    }

    open spec fn spec_describe(&self) -> Seq<char> {
        "Lowercase("@ + self.0.spec_describe() + ")"@
    }

    fn describe(&self) -> (r: String) {
        let mut s = String::new();
        s.append("Lowercase(");
        let inner = self.0.describe();
        s.append(inner.as_str());
        s.append(")");
        proof {
            reveal_strlit("Lowercase(");
            reveal_strlit(")");
            assert(s@ =~= "Lowercase("@ + self.0.spec_describe() + ")"@);
        }
        s
    }

    fn matches(&self, input: &Vec<u8>, ctx: &mut ExecutionContext) -> (r: bool) {
        let lowered = bytes_to_lowercase(input.as_slice());
        let r = ctx.chain(&self.0, &lowered);
        proof {
            crate::input::lemma_bytes_repr_is_view(&lowered);
            crate::input::lemma_bytes_repr_is_view(input);
        }
        r
    }
}

/// Inverts the result of the inner matcher.
pub fn not<M>(inner: M) -> (r: Not<M>)
    ensures
        r.0 == inner,
{
    Not(inner)
}

/// The `Not` matcher returned by [not()](fn.not.html).
pub struct Not<M>(pub M);

impl<IN: MatchInput, M: Matcher<IN>> Matcher<IN> for Not<M> {
    open spec fn wf(&self) -> bool {
        self.0.wf()
    }

    open spec fn spec_matches(&self, input: IN::Repr) -> bool {
        !self.0.spec_matches(input)
    }

    open spec fn spec_describe(&self) -> Seq<char> {
        "Not("@ + self.0.spec_describe() + ")"@
    }

    fn describe(&self) -> (r: String) {
        let mut s = String::new();
        s.append("Not(");
        let inner = self.0.describe();
        s.append(inner.as_str());
        s.append(")");
        proof {
            reveal_strlit("Not(");
            reveal_strlit(")");
            assert(s@ =~= "Not("@ + self.0.spec_describe() + ")"@);
        }
        s
    }

    fn matches(&self, input: &IN, ctx: &mut ExecutionContext) -> (r: bool) {
        !ctx.chain(&self.0, input)
    }
}

/// True iff every provided matcher matches; vacuously true of an empty list.
pub fn all_of<M>(inner: Vec<M>) -> (r: AllOf<M>)
    ensures
        r.0 == inner,
{
    AllOf(inner)
}

/// The `AllOf` matcher returned by [all_of()](fn.all_of.html).
pub struct AllOf<M>(pub Vec<M>);

impl<IN: MatchInput, M: Matcher<IN>> Matcher<IN> for AllOf<M> {
    open spec fn wf(&self) -> bool {
        forall|i: int| 0 <= i < self.0@.len() ==> #[trigger] self.0@[i].wf()
    }

    open spec fn spec_matches(&self, input: IN::Repr) -> bool {
        forall|i: int| 0 <= i < self.0@.len() ==> #[trigger] self.0@[i].spec_matches(input)
    }

    open spec fn spec_describe(&self) -> Seq<char> {
        "AllOf["@ + spec_describe_list::<IN, M>(self.0@) + "]"@
    }

    fn describe(&self) -> (r: String) {
        let mut s = String::new();
        s.append("AllOf[");
        let inner = describe_list::<IN, M>(&self.0);
        s.append(inner.as_str());
        s.append("]");
        proof {
            reveal_strlit("AllOf[");
            reveal_strlit("]");
            assert(s@ =~= "AllOf["@ + spec_describe_list::<IN, M>(self.0@) + "]"@);
        }
        s
    }

    fn matches(&self, input: &IN, ctx: &mut ExecutionContext) -> (r: bool) {
        let mut i: usize = 0;
        while i < self.0.len()
            invariant
                self.wf(),
                0 <= i <= self.0@.len(),
                forall|j: int| 0 <= j < i ==> #[trigger] self.0@[j].spec_matches(input.repr()),
            decreases self.0@.len() - i,
        {
            if !ctx.chain(&self.0[i], input) {
                return false;
            }
            i += 1;
        }
        true
    }
}

/// True iff at least one provided matcher matches; vacuously false of an
/// empty list.
pub fn any_of<M>(inner: Vec<M>) -> (r: AnyOf<M>)
    ensures
        r.0 == inner,
{
    AnyOf(inner)
}

/// The `AnyOf` matcher returned by [any_of()](fn.any_of.html).
pub struct AnyOf<M>(pub Vec<M>);

impl<IN: MatchInput, M: Matcher<IN>> Matcher<IN> for AnyOf<M> {
    open spec fn wf(&self) -> bool {
        forall|i: int| 0 <= i < self.0@.len() ==> #[trigger] self.0@[i].wf()
    }

    open spec fn spec_matches(&self, input: IN::Repr) -> bool {
        exists|i: int| 0 <= i < self.0@.len() && #[trigger] self.0@[i].spec_matches(input)
    }

    open spec fn spec_describe(&self) -> Seq<char> {
        "AnyOf["@ + spec_describe_list::<IN, M>(self.0@) + "]"@
    }

    fn describe(&self) -> (r: String) {
        let mut s = String::new();
        s.append("AnyOf[");
        let inner = describe_list::<IN, M>(&self.0);
        s.append(inner.as_str());
        s.append("]");
        proof {
            reveal_strlit("AnyOf[");
            reveal_strlit("]");
            assert(s@ =~= "AnyOf["@ + spec_describe_list::<IN, M>(self.0@) + "]"@);
        }
        s
    }

    fn matches(&self, input: &IN, ctx: &mut ExecutionContext) -> (r: bool) {
        let mut i: usize = 0;
        while i < self.0.len()
            invariant
                self.wf(),
                0 <= i <= self.0@.len(),
                forall|j: int| 0 <= j < i ==> !#[trigger] self.0@[j].spec_matches(input.repr()),
            decreases self.0@.len() - i,
        {
            if ctx.chain(&self.0[i], input) {
                return true;
            }
            i += 1;
        }
        false
    }
}

/// A key-value pair.
pub struct KV<K: MatchInput, V: MatchInput> {
    /// The key.
    pub k: K,
    /// The value.
    pub v: V,
}

impl<K: MatchInput, V: MatchInput> KV<K, V> {
    /// Create a new KV. This copies the provided k and v.
    pub fn new(k: &K, v: &V) -> (r: Self)
        ensures
            r.k.repr() == k.repr(),
            r.v.repr() == v.repr(),
    {
        KV { k: k.dup(), v: v.dup() }
    }
}

impl<K: MatchInput, V: MatchInput> MatchInput for KV<K, V> {
    type Repr = (K::Repr, V::Repr);

    open spec fn repr(&self) -> (K::Repr, V::Repr) {
        (self.k.repr(), self.v.repr())
    }

    fn eq_input(&self, other: &Self) -> (r: bool) {
        self.k.eq_input(&other.k) && self.v.eq_input(&other.v)
    }

    fn dup(&self) -> (r: Self) {
        KV { k: self.k.dup(), v: self.v.dup() }
    }

    open spec fn spec_describe(&self) -> Seq<char> {
        "("@ + self.k.spec_describe() + ", "@ + self.v.spec_describe() + ")"@
    }

    fn describe(&self) -> (r: String) {
        let mut s = String::new();
        s.append("(");
        let k = self.k.describe();
        s.append(k.as_str());
        s.append(", ");
        let v = self.v.describe();
        s.append(v.as_str());
        s.append(")");
        proof {
            reveal_strlit("(");
            reveal_strlit(", ");
            reveal_strlit(")");
            assert(s@ =~= "("@ + self.k.spec_describe() + ", "@ + self.v.spec_describe()
                + ")"@);
        }
        s
    }
}

/// Extract the key from a key-value pair and hand it to the inner matcher.
pub fn key<M>(inner: M) -> (r: Key<M>)
    ensures
        r.0 == inner,
{
    Key(inner)
}

/// The `Key` matcher returned by [key()](fn.key.html).
pub struct Key<M>(pub M);

impl<K: MatchInput, V: MatchInput, M: Matcher<K>> Matcher<KV<K, V>> for Key<M> {
    open spec fn wf(&self) -> bool {
        self.0.wf()
    }

    open spec fn spec_matches(&self, input: (K::Repr, V::Repr)) -> bool {
        self.0.spec_matches(input.0)
    }

    open spec fn spec_describe(&self) -> Seq<char> {
        "Key("@ + self.0.spec_describe() + ")"@
    }

    fn describe(&self) -> (r: String) {
        let mut s = String::new();
        s.append("Key(");
        let inner = self.0.describe();
        s.append(inner.as_str());
        s.append(")");
        proof {
            reveal_strlit("Key(");
            reveal_strlit(")");
            assert(s@ =~= "Key("@ + self.0.spec_describe() + ")"@);
        }
        s
    }

    fn matches(&self, input: &KV<K, V>, ctx: &mut ExecutionContext) -> (r: bool) {
        ctx.chain(&self.0, &input.k)
    }
}

/// Extract the value from a key-value pair and hand it to the inner matcher.
pub fn value<M>(inner: M) -> (r: Value<M>)
    ensures
        r.0 == inner,
{
    Value(inner)
}

/// The `Value` matcher returned by [value()](fn.value.html).
pub struct Value<M>(pub M);

impl<K: MatchInput, V: MatchInput, M: Matcher<V>> Matcher<KV<K, V>> for Value<M> {
    open spec fn wf(&self) -> bool {
        self.0.wf()
    }

    open spec fn spec_matches(&self, input: (K::Repr, V::Repr)) -> bool {
        self.0.spec_matches(input.1)
    }

    open spec fn spec_describe(&self) -> Seq<char> {
        "Value("@ + self.0.spec_describe() + ")"@
    }

    fn describe(&self) -> (r: String) {
        let mut s = String::new();
        s.append("Value(");
        let inner = self.0.describe();
        s.append(inner.as_str());
        s.append(")");
        proof {
            reveal_strlit("Value(");
            reveal_strlit(")");
            assert(s@ =~= "Value("@ + self.0.spec_describe() + ")"@);
        }
        s
    }

    fn matches(&self, input: &KV<K, V>, ctx: &mut ExecutionContext) -> (r: bool) {
        ctx.chain(&self.0, &input.v)
    }
}

/// A pair of matchers matches a key-value pair iff the first matches the key
/// and the second matches the value. Evaluation is key first, then value,
/// and short-circuits when the key does not match.
impl<K: MatchInput, V: MatchInput, KM: Matcher<K>, VM: Matcher<V>> Matcher<KV<K, V>> for (
    KM,
    VM,
) {
    open spec fn wf(&self) -> bool {
        self.0.wf() && self.1.wf()
    }

    open spec fn spec_matches(&self, input: (K::Repr, V::Repr)) -> bool {
        self.0.spec_matches(input.0) && self.1.spec_matches(input.1)
    }

    open spec fn spec_describe(&self) -> Seq<char> {
        "("@ + self.0.spec_describe() + ", "@ + self.1.spec_describe() + ")"@
    }

    fn describe(&self) -> (r: String) {
        let mut s = String::new();
        s.append("(");
        let k = self.0.describe();
        s.append(k.as_str());
        s.append(", ");
        let v = self.1.describe();
        s.append(v.as_str());
        s.append(")");
        proof {
            reveal_strlit("(");
            reveal_strlit(", ");
            reveal_strlit(")");
            assert(s@ =~= "("@ + self.0.spec_describe() + ", "@ + self.1.spec_describe() + ")"@);
        }
        s
    }

    fn matches(&self, input: &KV<K, V>, ctx: &mut ExecutionContext) -> (r: bool) {
        ctx.chain(&self.0, &input.k) && ctx.chain(&self.1, &input.v)
    }
}

/// Url-decode the input and pass the resulting list of key-value pairs to
/// the inner matcher.
pub fn url_decoded<M>(inner: M) -> (r: UrlDecoded<M>)
    ensures
        r.0 == inner,
{
    UrlDecoded(inner)
}

/// The `UrlDecoded` matcher returned by [url_decoded()](fn.url_decoded.html).
pub struct UrlDecoded<M>(pub M);

impl<M: Matcher<Vec<KV<String, String>>>> Matcher<String> for UrlDecoded<M> {
    open spec fn wf(&self) -> bool {
        self.0.wf()
    }

    open spec fn spec_matches(&self, input: Seq<char>) -> bool {
        self.0.spec_matches(crate::urlenc::url_decode_spec(vstd::utf8::encode_utf8(input)))
    }

    open spec fn spec_describe(&self) -> Seq<char> {
        "UrlDecoded("@ + self.0.spec_describe() + ")"@
    }

    fn describe(&self) -> (r: String) {
        let mut s = String::new();
        s.append("UrlDecoded(");
        let inner = self.0.describe();
        s.append(inner.as_str());
        s.append(")");
        proof {
            reveal_strlit("UrlDecoded(");
            reveal_strlit(")");
            assert(s@ =~= "UrlDecoded("@ + self.0.spec_describe() + ")"@);
        }
        s
    }

    fn matches(&self, input: &String, ctx: &mut ExecutionContext) -> (r: bool) {
        let decoded = crate::urlenc::url_decode(input.as_str().as_bytes());
        ctx.chain(&self.0, &decoded)
    }
}

impl<M: Matcher<Vec<KV<String, String>>>> Matcher<Vec<u8>> for UrlDecoded<M> {
    open spec fn wf(&self) -> bool {
        self.0.wf()
    }

    open spec fn spec_matches(&self, input: Seq<u8>) -> bool {
        self.0.spec_matches(crate::urlenc::url_decode_spec(input))
    }

    open spec fn spec_describe(&self) -> Seq<char> {
        "UrlDecoded("@ + self.0.spec_describe() + ")"@
    }

    fn describe(&self) -> (r: String) {
        let mut s = String::new();
        s.append("UrlDecoded(");
        let inner = self.0.describe();
        s.append(inner.as_str());
        s.append(")");
        proof {
            reveal_strlit("UrlDecoded(");
            reveal_strlit(")");
            assert(s@ =~= "UrlDecoded("@ + self.0.spec_describe() + ")"@);
        }
        s
    }

    fn matches(&self, input: &Vec<u8>, ctx: &mut ExecutionContext) -> (r: bool) {
        let decoded = crate::urlenc::url_decode(input.as_slice());
        let r = ctx.chain(&self.0, &decoded);
        proof {
            crate::input::lemma_bytes_repr_is_view(input);
        }
        r
    }
}

/// Json-decode the input and pass the resulting document to the inner
/// matcher. Input that is not JSON does not match.
pub fn json_decoded<M>(inner: M) -> (r: JsonDecoded<M>)
    ensures
        r.0 == inner,
{
    JsonDecoded(inner)
}

/// The `JsonDecoded` matcher returned by [json_decoded()](fn.json_decoded.html).
pub struct JsonDecoded<M>(pub M);

impl<M: Matcher<crate::json::Json>> Matcher<String> for JsonDecoded<M> {
    open spec fn wf(&self) -> bool {
        self.0.wf()
    }

    open spec fn spec_matches(&self, input: Seq<char>) -> bool {
        match crate::json::json_canon(vstd::utf8::encode_utf8(input)) {
            Some(canon) => self.0.spec_matches(canon),
            None => false,
        }
    }

    open spec fn spec_describe(&self) -> Seq<char> {
        "JsonDecoded("@ + self.0.spec_describe() + ")"@
    }

    fn describe(&self) -> (r: String) {
        let mut s = String::new();
        s.append("JsonDecoded(");
        let inner = self.0.describe();
        s.append(inner.as_str());
        s.append(")");
        proof {
            reveal_strlit("JsonDecoded(");
            reveal_strlit(")");
            assert(s@ =~= "JsonDecoded("@ + self.0.spec_describe() + ")"@);
        }
        s
    }

    fn matches(&self, input: &String, ctx: &mut ExecutionContext) -> (r: bool) {
        match crate::json::Json::parse(input.as_str()) {
            Some(doc) => ctx.chain(&self.0, &doc),
            None => false,
        }
    }
}

impl<M: Matcher<crate::json::Json>> Matcher<Vec<u8>> for JsonDecoded<M> {
    open spec fn wf(&self) -> bool {
        self.0.wf()
    }

    open spec fn spec_matches(&self, input: Seq<u8>) -> bool {
        match crate::json::json_canon(input) {
            Some(canon) => self.0.spec_matches(canon),
            None => false,
        }
    }

    open spec fn spec_describe(&self) -> Seq<char> {
        "JsonDecoded("@ + self.0.spec_describe() + ")"@
    }

    fn describe(&self) -> (r: String) {
        let mut s = String::new();
        s.append("JsonDecoded(");
        let inner = self.0.describe();
        s.append(inner.as_str());
        s.append(")");
        proof {
            reveal_strlit("JsonDecoded(");
            reveal_strlit(")");
            assert(s@ =~= "JsonDecoded("@ + self.0.spec_describe() + ")"@);
        }
        s
    }

    fn matches(&self, input: &Vec<u8>, ctx: &mut ExecutionContext) -> (r: bool) {
        proof {
            crate::input::lemma_bytes_repr_is_view(input);
        }
        match crate::json::Json::parse_bytes(input.as_slice()) {
            Some(doc) => ctx.chain(&self.0, &doc),
            None => false,
        }
    }
}

/// True iff the inner matcher matches at least one element of the input
/// vector, in order, stopping at the first match.
pub fn contains<M>(inner: M) -> (r: Contains<M>)
    ensures
        r.0 == inner,
{
    Contains(inner)
}

/// The `Contains` matcher returned by [contains()](fn.contains.html).
pub struct Contains<M>(pub M);

impl<E: MatchInput, M: Matcher<E>> Matcher<Vec<E>> for Contains<M> {
    open spec fn wf(&self) -> bool {
        self.0.wf()
    }

    open spec fn spec_matches(&self, input: Seq<E::Repr>) -> bool {
        exists|i: int| 0 <= i < input.len() && self.0.spec_matches(#[trigger] input[i])
    }

    open spec fn spec_describe(&self) -> Seq<char> {
        "Contains("@ + self.0.spec_describe() + ")"@
    }

    fn describe(&self) -> (r: String) {
        let mut s = String::new();
        s.append("Contains(");
        let inner = self.0.describe();
        s.append(inner.as_str());
        s.append(")");
        proof {
            reveal_strlit("Contains(");
            reveal_strlit(")");
            assert(s@ =~= "Contains("@ + self.0.spec_describe() + ")"@);
        }
        s
    }

    fn matches(&self, input: &Vec<E>, ctx: &mut ExecutionContext) -> (r: bool) {
        let mut i: usize = 0;
        while i < input.len()
            invariant
                self.wf(),
                0 <= i <= input@.len(),
                forall|j: int| 0 <= j < i ==> !self.0.spec_matches(#[trigger] input.repr()[j]),
            decreases input@.len() - i,
        {
            if ctx.chain(&self.0, &input[i]) {
                assert(self.0.spec_matches(input.repr()[i as int]));
                return true;
            }
            i += 1;
        }
        false
    }
}

/// Extract the length of the input and hand it to the inner matcher.
pub fn len<M>(inner: M) -> (r: Len<M>)
    ensures
        r.0 == inner,
{
    Len(inner)
}

/// The `Len` matcher returned by [len()](fn.len.html).
pub struct Len<M>(pub M);

impl<E: MatchInput, M: Matcher<usize>> Matcher<Vec<E>> for Len<M> {
    open spec fn wf(&self) -> bool {
        self.0.wf()
    }

    open spec fn spec_matches(&self, input: Seq<E::Repr>) -> bool {
        self.0.spec_matches(input.len() as usize)
    }

    open spec fn spec_describe(&self) -> Seq<char> {
        "Len("@ + self.0.spec_describe() + ")"@
    }

    fn describe(&self) -> (r: String) {
        let mut s = String::new();
        s.append("Len(");
        let inner = self.0.describe();
        s.append(inner.as_str());
        s.append(")");
        proof {
            reveal_strlit("Len(");
            reveal_strlit(")");
            assert(s@ =~= "Len("@ + self.0.spec_describe() + ")"@);
        }
        s
    }

    fn matches(&self, input: &Vec<E>, ctx: &mut ExecutionContext) -> (r: bool) {
        ctx.chain(&self.0, &input.len())
    }
}

/// The length of a string input is its length in bytes of UTF-8 encoding,
/// matching what `str::len` reports.
impl<M: Matcher<usize>> Matcher<String> for Len<M> {
    open spec fn wf(&self) -> bool {
        self.0.wf()
    }

    open spec fn spec_matches(&self, input: Seq<char>) -> bool {
        self.0.spec_matches(vstd::utf8::encode_utf8(input).len() as usize)
    }

    open spec fn spec_describe(&self) -> Seq<char> {
        "Len("@ + self.0.spec_describe() + ")"@
    }

    fn describe(&self) -> (r: String) {
        let mut s = String::new();
        s.append("Len(");
        let inner = self.0.describe();
        s.append(inner.as_str());
        s.append(")");
        proof {
            reveal_strlit("Len(");
            reveal_strlit(")");
            assert(s@ =~= "Len("@ + self.0.spec_describe() + ")"@);
        }
        s
    }

    fn matches(&self, input: &String, ctx: &mut ExecutionContext) -> (r: bool) {
        ctx.chain(&self.0, &input.as_str().len())
    }
}

/// The negation law: a `Not` matcher accepts exactly the inputs its inner
/// matcher rejects.
pub proof fn lemma_not_inverts<IN: MatchInput, M: Matcher<IN>>(m: M, input: IN::Repr)
    ensures
        Not(m).spec_matches(input) == !m.spec_matches(input),
{
}

/// The empty-conjunction law: `AllOf` of an empty list accepts every input.
pub proof fn lemma_all_of_empty<IN: MatchInput, M: Matcher<IN>>(a: AllOf<M>, input: IN::Repr)
    requires
        a.0@.len() == 0,
    ensures
        a.spec_matches(input),
{
}

/// The empty-disjunction law: `AnyOf` of an empty list rejects every input.
pub proof fn lemma_any_of_empty<IN: MatchInput, M: Matcher<IN>>(a: AnyOf<M>, input: IN::Repr)
    requires
        a.0@.len() == 0,
    ensures
        !a.spec_matches(input),
{
}

/// The binary-conjunction law: `AllOf` of two matchers accepts exactly the
/// inputs both accept.
pub proof fn lemma_all_of_pair<IN: MatchInput, M: Matcher<IN>>(a: AllOf<M>, input: IN::Repr)
    requires
        a.0@.len() == 2,
    ensures
        a.spec_matches(input) == (a.0@[0].spec_matches(input) && a.0@[1].spec_matches(input)),
{
    if a.0@[0].spec_matches(input) && a.0@[1].spec_matches(input) {
        assert forall|i: int| 0 <= i < a.0@.len() implies #[trigger] a.0@[i].spec_matches(
            input,
        ) by {
            if i == 0 {
            } else {
                assert(i == 1);
            }
        }
    }
}

/// The binary-disjunction law: `AnyOf` of two matchers accepts exactly the
/// inputs at least one accepts.
pub proof fn lemma_any_of_pair<IN: MatchInput, M: Matcher<IN>>(a: AnyOf<M>, input: IN::Repr)
    requires
        a.0@.len() == 2,
    ensures
        a.spec_matches(input) == (a.0@[0].spec_matches(input) || a.0@[1].spec_matches(input)),
{
    if a.spec_matches(input) {
        let i = choose|i: int| 0 <= i < a.0@.len() && #[trigger] a.0@[i].spec_matches(input);
        if i == 0 {
        } else {
            assert(i == 1);
        }
    }
}

} // verus!
