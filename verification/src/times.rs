//! Cardinality bounds: how many times an expectation may match.
//!
//! A [`Times`] value is a pair of bounds over non-negative integers. The
//! default cardinality of an expectation is exactly one. Anything range-like
//! over `usize` converts into a [`Times`] through [`IntoTimes`].

use vstd::prelude::*;
use vstd::string::StringExecFns;

verus! {

/// One end of a cardinality bound.
#[derive(Clone, Copy, Debug, PartialEq, Eq, Structural)]
pub enum TimesBound {
    /// The bound includes this count.
    Included(usize),
    /// The bound excludes this count.
    Excluded(usize),
    /// No bound at this end.
    Unbounded,
}

/// The legal range of match counts for an expectation: a lower and an upper
/// bound.
#[derive(Clone, Copy, Debug, PartialEq, Eq, Structural)]
pub struct Times {
    /// The lower bound.
    pub lower: TimesBound,
    /// The upper bound.
    pub upper: TimesBound,
}

/// Whether a count lies within a cardinality bound.
pub open spec fn times_contains(t: Times, n: nat) -> bool {
    let lower_ok = match t.lower {
        TimesBound::Included(l) => n >= l,
        TimesBound::Excluded(l) => n > l,
        TimesBound::Unbounded => true,
    };
    let upper_ok = match t.upper {
        TimesBound::Included(u) => n <= u,
        TimesBound::Excluded(u) => n < u,
        TimesBound::Unbounded => true,
    };
    lower_ok && upper_ok
}

/// Whether a hit count lies beyond an upper bound.
pub open spec fn spec_times_exceeded(end_bound: TimesBound, hit_count: nat) -> bool {
    match end_bound {
        TimesBound::Included(limit) => hit_count > limit,
        TimesBound::Excluded(limit) => hit_count >= limit,
        TimesBound::Unbounded => false,
    }
}

/// Decide whether a hit count lies beyond an upper bound.
pub fn times_exceeded(end_bound: TimesBound, hit_count: usize) -> (r: bool)
    ensures
        r == spec_times_exceeded(end_bound, hit_count as nat),
{
    match end_bound {
        TimesBound::Included(limit) => hit_count > limit,
        TimesBound::Excluded(limit) => hit_count >= limit,
        TimesBound::Unbounded => false,
    }
}

/// Decide whether a final hit count satisfies a cardinality bound.
pub fn hit_count_is_valid(bounds: Times, hit_count: usize) -> (r: bool)
    ensures
        r == times_contains(bounds, hit_count as nat),
{
    let lower_ok = match bounds.lower {
        TimesBound::Included(l) => hit_count >= l,
        TimesBound::Excluded(l) => hit_count > l,
        TimesBound::Unbounded => true,
    };
    let upper_ok = match bounds.upper {
        TimesBound::Included(u) => hit_count <= u,
        TimesBound::Excluded(u) => hit_count < u,
        TimesBound::Unbounded => true,
    };
    lower_ok && upper_ok
}

/// How many times is an expectation expected to occur. Implemented for
/// `usize` and for ranges of `usize` values.
pub trait IntoTimes: Sized {
    /// The cardinality bound this value stands for.
    spec fn spec_times(&self) -> Times;

    /// Convert into a cardinality bound.
    fn into_times(self) -> (r: Times)
        ensures
            r == self.spec_times(),
    ;
}

impl IntoTimes for usize {
    open spec fn spec_times(&self) -> Times {
        Times { lower: TimesBound::Included(*self), upper: TimesBound::Included(*self) }
    }

    fn into_times(self) -> (r: Times) {
        Times { lower: TimesBound::Included(self), upper: TimesBound::Included(self) }
    }
}

impl IntoTimes for core::ops::Range<usize> {
    open spec fn spec_times(&self) -> Times {
        Times { lower: TimesBound::Included(self.start), upper: TimesBound::Excluded(self.end) }
    }

    fn into_times(self) -> (r: Times) {
        Times { lower: TimesBound::Included(self.start), upper: TimesBound::Excluded(self.end) }
    }
}

#[verifier::external_type_specification]
pub struct ExRangeFrom<Idx>(core::ops::RangeFrom<Idx>);

impl IntoTimes for core::ops::RangeFrom<usize> {
    open spec fn spec_times(&self) -> Times {
        Times { lower: TimesBound::Included(self.start), upper: TimesBound::Unbounded }
    }

    fn into_times(self) -> (r: Times) {
        Times { lower: TimesBound::Included(self.start), upper: TimesBound::Unbounded }
    }
}

#[verifier::external_type_specification]
pub struct ExRangeTo<Idx>(core::ops::RangeTo<Idx>);

impl IntoTimes for core::ops::RangeTo<usize> {
    open spec fn spec_times(&self) -> Times {
        Times { lower: TimesBound::Unbounded, upper: TimesBound::Excluded(self.end) }
    }

    fn into_times(self) -> (r: Times) {
        Times { lower: TimesBound::Unbounded, upper: TimesBound::Excluded(self.end) }
    }
}

#[verifier::external_type_specification]
pub struct ExRangeToInclusive<Idx>(core::ops::RangeToInclusive<Idx>);

impl IntoTimes for core::ops::RangeToInclusive<usize> {
    open spec fn spec_times(&self) -> Times {
        Times { lower: TimesBound::Unbounded, upper: TimesBound::Included(self.end) }
    }

    fn into_times(self) -> (r: Times) {
        Times { lower: TimesBound::Unbounded, upper: TimesBound::Included(self.end) }
    }
}

#[verifier::external_type_specification]
pub struct ExRangeFull(core::ops::RangeFull);

impl IntoTimes for core::ops::RangeFull {
    open spec fn spec_times(&self) -> Times {
        Times { lower: TimesBound::Unbounded, upper: TimesBound::Unbounded }
    }

    fn into_times(self) -> (r: Times) {
        Times { lower: TimesBound::Unbounded, upper: TimesBound::Unbounded }
    }
}

/// Relies on RangeInclusive::start: it returns the lower bound the range
/// was created with.
pub assume_specification<Idx>[ core::ops::RangeInclusive::<Idx>::start ](
    r: &core::ops::RangeInclusive<Idx>,
) -> (s: &Idx)
    ensures
        *s == r@.start,
;

/// Relies on RangeInclusive::end: it returns the upper bound the range was
/// created with.
pub assume_specification<Idx>[ core::ops::RangeInclusive::<Idx>::end ](
    r: &core::ops::RangeInclusive<Idx>,
) -> (e: &Idx)
    ensures
        *e == r@.end,
;

impl IntoTimes for core::ops::RangeInclusive<usize> {
    open spec fn spec_times(&self) -> Times {
        Times { lower: TimesBound::Included(self@.start), upper: TimesBound::Included(self@.end) }
    }

    fn into_times(self) -> (r: Times) {
        let lo: usize = *self.start();
        let hi: usize = *self.end();
        Times { lower: TimesBound::Included(lo), upper: TimesBound::Included(hi) }
    }
}

/// The decimal digit character for a value below ten.
pub open spec fn digit_char(d: nat) -> char {
    if d == 0 {
        '0'
    } else if d == 1 {
        '1'
    } else if d == 2 {
        '2'
    } else if d == 3 {
        '3'
    } else if d == 4 {
        '4'
    } else if d == 5 {
        '5'
    } else if d == 6 {
        '6'
    } else if d == 7 {
        '7'
    } else if d == 8 {
        '8'
    } else {
        '9'
    }
}

/// The decimal digits of a number, most significant first.
pub open spec fn dec_str(n: nat) -> Seq<char>
    decreases n,
{
    if n < 10 {
        seq![digit_char(n)]
    } else {
        dec_str(n / 10) + seq![digit_char(n % 10)]
    }
}

/// Append the decimal digit character for a value below ten.
fn push_digit(s: &mut String, d: usize)
    requires
        d < 10,
    ensures
        final(s)@ == old(s)@ + seq![digit_char(d as nat)],
{
    let t: &str = if d == 0 {
        "0"
    } else if d == 1 {
        "1"
    } else if d == 2 {
        "2"
    } else if d == 3 {
        "3"
    } else if d == 4 {
        "4"
    } else if d == 5 {
        "5"
    } else if d == 6 {
        "6"
    } else if d == 7 {
        "7"
    } else if d == 8 {
        "8"
    } else {
        "9"
    };
    proof {
        reveal_strlit("0");
        reveal_strlit("1");
        reveal_strlit("2");
        reveal_strlit("3");
        reveal_strlit("4");
        reveal_strlit("5");
        reveal_strlit("6");
        reveal_strlit("7");
        reveal_strlit("8");
        reveal_strlit("9");
    }
    s.append(t);
    proof {
        assert(t@ =~= seq![digit_char(d as nat)]);
    }
}

/// Append the decimal form of a number.
pub fn push_usize(s: &mut String, n: usize)
    ensures
        final(s)@ == old(s)@ + dec_str(n as nat),
    decreases n,
{
    if n < 10 {
        push_digit(s, n);
    } else {
        push_usize(s, n / 10);
        push_digit(s, n % 10);
        proof {
            assert(old(s)@ + dec_str((n / 10) as nat) + seq![digit_char((n % 10) as nat)]
                =~= old(s)@ + dec_str(n as nat));
        }
    }
}

/// Append the decimal form of a wide number.
pub fn push_u64(s: &mut String, n: u64)
    ensures
        final(s)@ == old(s)@ + dec_str(n as nat),
    decreases n,
{
    if n < 10 {
        push_digit(s, n as usize);
    } else {
        push_u64(s, n / 10);
        push_digit(s, (n % 10) as usize);
        proof {
            assert(old(s)@ + dec_str((n / 10) as nat) + seq![digit_char((n % 10) as nat)]
                =~= old(s)@ + dec_str(n as nat));
        }
    }
}

/// The decimal form of a number as a string.
pub fn usize_to_string(n: usize) -> (r: String)
    ensures
        r@ == dec_str(n as nat),
{
    let mut s = String::new();
    push_usize(&mut s, n);
    proof {
        assert(Seq::<char>::empty() + dec_str(n as nat) =~= dec_str(n as nat));
    }
    s
}

/// The inclusive form of a lower bound: the least count it admits, or
/// nothing when every count is admitted. An exclusive lower bound at the
/// largest machine count admits none; it is rendered at that count.
pub open spec fn lower_inclusive(b: TimesBound) -> Option<nat> {
    match b {
        TimesBound::Included(x) => Some(x as nat),
        TimesBound::Excluded(x) => if x == usize::MAX {
            Some(x as nat)
        } else {
            Some((x + 1) as nat)
        },
        TimesBound::Unbounded => None,
    }
}

/// The inclusive form of an upper bound: the greatest count it admits, or
/// nothing when it admits them all. An exclusive upper bound of zero admits
/// no count; it is rendered as if it admitted zero.
pub open spec fn upper_inclusive(b: TimesBound) -> Option<nat> {
    match b {
        TimesBound::Included(x) => Some(x as nat),
        TimesBound::Excluded(x) => if x == 0 {
            Some(0)
        } else {
            Some((x - 1) as nat)
        },
        TimesBound::Unbounded => None,
    }
}

/// The rendering of a cardinality bound: one of `AtLeast(n)`, `AtMost(n)`,
/// `Exactly(n)`, `Between(a..=b)` and `Any`.
pub open spec fn times_description(t: Times) -> Seq<char> {
    match (lower_inclusive(t.lower), upper_inclusive(t.upper)) {
        (Some(lo), None) => "AtLeast("@ + dec_str(lo) + ")"@,
        (None, Some(hi)) => "AtMost("@ + dec_str(hi) + ")"@,
        (Some(lo), Some(hi)) => if lo == hi {
            "Exactly("@ + dec_str(hi) + ")"@
        } else {
            "Between("@ + dec_str(lo) + "..="@ + dec_str(hi) + ")"@
        },
        (None, None) => "Any"@,
    }
}

/// Render a cardinality bound.
pub fn describe_times(t: Times) -> (r: String)
    ensures
        r@ == times_description(t),
{
    proof {
        reveal_strlit("AtLeast(");
        reveal_strlit("AtMost(");
        reveal_strlit("Exactly(");
        reveal_strlit("Between(");
        reveal_strlit("..=");
        reveal_strlit(")");
        reveal_strlit("Any");
    }
    let lo: Option<usize> = match t.lower {
        TimesBound::Included(x) => Some(x),
        TimesBound::Excluded(x) => {
            if x < usize::MAX {
                Some(x + 1)
            } else {
                Some(usize::MAX)
            }
        },
        TimesBound::Unbounded => None,
    };
    let hi: Option<usize> = match t.upper {
        TimesBound::Included(x) => Some(x),
        TimesBound::Excluded(x) => if x == 0 {
            Some(0)
        } else {
            Some(x - 1)
        },
        TimesBound::Unbounded => None,
    };
    let mut s = String::new();
    match (lo, hi) {
        (Some(a), None) => {
            s.append("AtLeast(");
            push_usize(&mut s, a);
            s.append(")");
        },
        (None, Some(b)) => {
            s.append("AtMost(");
            push_usize(&mut s, b);
            s.append(")");
        },
        (Some(a), Some(b)) => {
            if a == b {
                s.append("Exactly(");
                push_usize(&mut s, b);
                s.append(")");
            } else {
                s.append("Between(");
                push_usize(&mut s, a);
                s.append("..=");
                push_usize(&mut s, b);
                s.append(")");
            }
        },
        (None, None) => {
            s.append("Any");
        },
    }
    proof {
        assert(s@ =~= times_description(t));
    }
    s
}

} // verus!
