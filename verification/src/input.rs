//! The value model shared by all matchers and mappers.
//!
//! Every type that can be fed to a matcher has a mathematical representation
//! (`Repr`) that contracts are stated over: a `String` is a sequence of
//! characters, a `Vec` is a sequence of its elements' representations, an
//! integer is itself. Equality of representations is decidable, which is what
//! the equality matcher builds on.

use vstd::prelude::*;
use vstd::string::StringExecFns;

verus! {

/// An input type that matchers can inspect, together with the mathematical
/// value that contracts are stated over.
pub trait MatchInput: Sized {
    /// The type of the mathematical value of this input.
    type Repr;

    /// The mathematical value of this input.
    spec fn repr(&self) -> Self::Repr;

    /// Decide whether two inputs have the same mathematical value.
    fn eq_input(&self, other: &Self) -> (r: bool)
        ensures
            r == (self.repr() == other.repr()),
    ;

    /// Produce a copy with the same mathematical value.
    fn dup(&self) -> (r: Self)
        ensures
            r.repr() == self.repr(),
    ;

    /// The printable form of this input value, for diagnostics.
    spec fn spec_describe(&self) -> Seq<char>;

    /// Render the printable form of this input value, for diagnostics.
    fn describe(&self) -> (r: String)
        ensures
            r@ == self.spec_describe(),
    ;
}

impl MatchInput for u8 {
    type Repr = u8;

    open spec fn repr(&self) -> u8 {
        *self
    }

    fn eq_input(&self, other: &Self) -> (r: bool) {
        *self == *other
    }

    fn dup(&self) -> (r: Self) {
        *self
    }

    open spec fn spec_describe(&self) -> Seq<char> {
        crate::times::dec_str(*self as nat)
    }

    fn describe(&self) -> (r: String) {
        crate::times::usize_to_string(*self as usize)
    }
}

impl MatchInput for u16 {
    type Repr = u16;

    open spec fn repr(&self) -> u16 {
        *self
    }

    fn eq_input(&self, other: &Self) -> (r: bool) {
        *self == *other
    }

    fn dup(&self) -> (r: Self) {
        *self
    }

    open spec fn spec_describe(&self) -> Seq<char> {
        crate::times::dec_str(*self as nat)
    }

    fn describe(&self) -> (r: String) {
        crate::times::usize_to_string(*self as usize)
    }
}

impl MatchInput for u64 {
    type Repr = u64;

    open spec fn repr(&self) -> u64 {
        *self
    }

    fn eq_input(&self, other: &Self) -> (r: bool) {
        *self == *other
    }

    fn dup(&self) -> (r: Self) {
        *self
    }

    open spec fn spec_describe(&self) -> Seq<char> {
        crate::times::dec_str(*self as nat)
    }

    fn describe(&self) -> (r: String) {
        let mut s = String::new();
        crate::times::push_u64(&mut s, *self);
        proof {
            assert(Seq::<char>::empty() + crate::times::dec_str(*self as nat)
                =~= crate::times::dec_str(*self as nat));
        }
        s
    }
}

impl MatchInput for usize {
    type Repr = usize;

    open spec fn repr(&self) -> usize {
        *self
    }

    fn eq_input(&self, other: &Self) -> (r: bool) {
        *self == *other
    }

    fn dup(&self) -> (r: Self) {
        *self
    }

    open spec fn spec_describe(&self) -> Seq<char> {
        crate::times::dec_str(*self as nat)
    }

    fn describe(&self) -> (r: String) {
        crate::times::usize_to_string(*self)
    }
}

impl MatchInput for i32 {
    type Repr = i32;

    open spec fn repr(&self) -> i32 {
        *self
    }

    fn eq_input(&self, other: &Self) -> (r: bool) {
        *self == *other
    }

    fn dup(&self) -> (r: Self) {
        *self
    }

    open spec fn spec_describe(&self) -> Seq<char> {
        if *self < 0 {
            "-"@ + crate::times::dec_str((0 - *self as int) as nat)
        } else {
            crate::times::dec_str(*self as nat)
        }
    }

    fn describe(&self) -> (r: String) {
        let mut s = String::new();
        if *self < 0 {
            s.append("-");
            let mag: u64 = (-(*self as i64)) as u64;
            assert(mag as nat == (0 - *self as int) as nat);
            crate::times::push_u64(&mut s, mag);
            proof {
                reveal_strlit("-");
                assert(s@ =~= "-"@ + crate::times::dec_str((0 - *self as int) as nat));
            }
        } else {
            crate::times::push_u64(&mut s, *self as u64);
            proof {
                assert(s@ =~= crate::times::dec_str(*self as nat));
            }
        }
        s
    }
}

impl MatchInput for String {
    type Repr = Seq<char>;

    open spec fn repr(&self) -> Seq<char> {
        self@
    }

    fn eq_input(&self, other: &Self) -> (r: bool) {
        let a: &str = self.as_str();
        let b: &str = other.as_str();
        let r = bytes_eq(a.as_bytes(), b.as_bytes());
        proof {
            vstd::utf8::encode_utf8_decode_utf8(a@);
            vstd::utf8::encode_utf8_decode_utf8(b@);
        }
        r
    }

    fn dup(&self) -> (r: Self) {
        self.clone()
    }

    open spec fn spec_describe(&self) -> Seq<char> {
        "\""@ + self@ + "\""@
    }

    fn describe(&self) -> (r: String) {
        let mut s = String::new();
        s.append("\"");
        s.append(self.as_str());
        s.append("\"");
        proof {
            reveal_strlit("\"");
            assert(s@ =~= "\""@ + self@ + "\""@);
        }
        s
    }
}

impl<E: MatchInput> MatchInput for Vec<E> {
    type Repr = Seq<E::Repr>;

    open spec fn repr(&self) -> Seq<E::Repr> {
        Seq::new(self@.len(), |i: int| self@[i].repr())
    }

    fn eq_input(&self, other: &Self) -> (r: bool) {
        if self.len() != other.len() {
            assert(self.repr().len() != other.repr().len());
            return false;
        }
        let mut i: usize = 0;
        while i < self.len()
            invariant
                0 <= i <= self@.len(),
                self@.len() == other@.len(),
                forall|j: int| 0 <= j < i ==> self.repr()[j] == other.repr()[j],
            decreases self@.len() - i,
        {
            if !self[i].eq_input(&other[i]) {
                assert(self.repr()[i as int] != other.repr()[i as int]);
                assert(self.repr() != other.repr());
                return false;
            }
            i += 1;
        }
        assert(self.repr() =~= other.repr());
        true
    }

    fn dup(&self) -> (r: Self) {
        let mut out: Vec<E> = Vec::new();
        let mut i: usize = 0;
        while i < self.len()
            invariant
                0 <= i <= self@.len(),
                out@.len() == i,
                forall|j: int| 0 <= j < i ==> out.repr()[j] == self.repr()[j],
            decreases self@.len() - i,
        {
            out.push(self[i].dup());
            i += 1;
        }
        assert(out.repr() =~= self.repr());
        out
    }

    open spec fn spec_describe(&self) -> Seq<char> {
        "[..]"@
    }

    fn describe(&self) -> (r: String) {
        "[..]".to_owned()
    }
}

/// A vector's representation is pointwise its elements' representations; for
/// bytes the representation is the view itself.
pub proof fn lemma_bytes_repr_is_view(v: &Vec<u8>)
    ensures
        v.repr() =~= v@,
{
}

/// Decide whether two byte slices hold the same bytes.
pub fn bytes_eq(a: &[u8], b: &[u8]) -> (r: bool)
    ensures
        r == (a@ == b@),
{
    if a.len() != b.len() {
        return false;
    }
    let mut i: usize = 0;
    while i < a.len()
        invariant
            0 <= i <= a@.len(),
            a@.len() == b@.len(),
            forall|j: int| 0 <= j < i ==> a@[j] == b@[j],
        decreases a@.len() - i,
    {
        if a[i] != b[i] {
            assert(a@ != b@);
            return false;
        }
        i += 1;
    }
    assert(a@ =~= b@);
    true
}

/// Copy a byte slice into an owned vector.
pub fn bytes_to_vec(s: &[u8]) -> (r: Vec<u8>)
    ensures
        r@ == s@,
{
    let mut out: Vec<u8> = Vec::new();
    let mut i: usize = 0;
    while i < s.len()
        invariant
            0 <= i <= s@.len(),
            out@ =~= s@.take(i as int),
        decreases s@.len() - i,
    {
        out.push(s[i]);
        proof {
            assert(s@.take(i + 1) =~= s@.take(i as int).push(s@[i as int]));
        }
        i += 1;
    }
    assert(s@.take(s@.len() as int) =~= s@);
    out
}

} // verus!
