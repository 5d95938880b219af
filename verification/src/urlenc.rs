//! The `application/x-www-form-urlencoded` format.
//!
//! A sequence of key-value pairs is encoded as segments joined by `&`, each
//! segment holding a percent-encoded key and value joined by `=`. Decoding
//! splits on `&`, skips empty segments, splits each segment at its first `=`
//! (a segment without one has an empty value), percent-decodes both sides and
//! reads them as UTF-8. Encoding followed by decoding returns the original
//! pairs, which [`lemma_url_round_trip`] states and proves.

use crate::input::MatchInput;
use crate::matchers::KV;
use vstd::prelude::*;
use vstd::utf8::{decode_utf8, encode_utf8, valid_utf8};

verus! {

/// The byte `&`.
pub const B_AMP: u8 = 38;

/// The byte `=`.
pub const B_EQ: u8 = 61;

/// The byte `%`.
pub const B_PCT: u8 = 37;

/// The byte `+`.
pub const B_PLUS: u8 = 43;

/// The byte for a space.
pub const B_SPACE: u8 = 32;

/// The byte `0`.
pub const B_D0: u8 = 48;

/// The byte `9`.
pub const B_D9: u8 = 57;

/// The byte `a`.
pub const B_LA: u8 = 97;

/// The byte `f`.
pub const B_LF: u8 = 102;

/// The byte `z`.
pub const B_LZ: u8 = 122;

/// The byte `A`.
pub const B_UA: u8 = 65;

/// The byte `F`.
pub const B_UF: u8 = 70;

/// The byte `Z`.
pub const B_UZ: u8 = 90;

/// The byte `*`.
pub const B_STAR: u8 = 42;

/// The byte `-`.
pub const B_DASH: u8 = 45;

/// The byte `.`.
pub const B_DOT: u8 = 46;

/// The byte `_`.
pub const B_UND: u8 = 95;

/// Whether a byte is a hexadecimal digit.
pub open spec fn is_hex(b: u8) -> bool {
    (B_D0 <= b <= B_D9) || (B_LA <= b <= B_LF) || (B_UA <= b <= B_UF)
}

/// The numeric value of a hexadecimal digit.
pub open spec fn hex_val(b: u8) -> u8 {
    if B_D0 <= b <= B_D9 {
        (b - B_D0) as u8
    } else if B_LA <= b <= B_LF {
        (b - B_LA + 10) as u8
    } else if B_UA <= b <= B_UF {
        (b - B_UA + 10) as u8
    } else {
        0
    }
}

/// The uppercase hexadecimal digit for a value below sixteen.
pub open spec fn hex_char(n: u8) -> u8 {
    if n < 10 {
        (B_D0 + n) as u8
    } else {
        (B_UA + (n - 10)) as u8
    }
}

/// Whether a byte is written as itself in the urlencoded form: an ASCII
/// letter, a digit, or one of `*`, `-`, `.`, `_`.
pub open spec fn is_unreserved(b: u8) -> bool {
    (B_D0 <= b <= B_D9) || (B_LA <= b <= B_LZ) || (B_UA <= b <= B_UZ) || b == B_STAR || b == B_DASH
        || b == B_DOT || b == B_UND
}

/// The encoding of one byte: space becomes `+`, an unreserved byte stands as
/// itself, and every other byte becomes a percent escape.
pub open spec fn enc_byte(b: u8) -> Seq<u8> {
    if b == B_SPACE {
        seq![B_PLUS]
    } else if is_unreserved(b) {
        seq![b]
    } else {
        seq![B_PCT, hex_char(b / 16), hex_char(b % 16)]
    }
}

/// The percent-encoding of a byte string.
pub open spec fn enc_bytes(s: Seq<u8>) -> Seq<u8>
    decreases s.len(),
{
    if s.len() == 0 {
        Seq::empty()
    } else {
        enc_byte(s[0]) + enc_bytes(s.drop_first())
    }
}

/// The percent-decoding of a byte string: a `%` followed by two hexadecimal
/// digits yields that byte, a `+` yields a space, and anything else stands as
/// itself.
pub open spec fn dec_bytes(s: Seq<u8>) -> Seq<u8>
    decreases s.len(),
{
    if s.len() == 0 {
        Seq::empty()
    } else if s[0] == B_PCT && s.len() >= 3 && is_hex(s[1]) && is_hex(s[2]) {
        seq![(hex_val(s[1]) * 16 + hex_val(s[2])) as u8] + dec_bytes(s.skip(3))
    } else if s[0] == B_PLUS {
        seq![B_SPACE] + dec_bytes(s.drop_first())
    } else {
        seq![s[0]] + dec_bytes(s.drop_first())
    }
}

/// The segments of a byte string around a delimiter; a string without the
/// delimiter is one segment, and every delimiter ends a segment.
pub open spec fn split_on(s: Seq<u8>, d: u8) -> Seq<Seq<u8>>
    decreases s.len(),
{
    if s.len() == 0 {
        seq![Seq::<u8>::empty()]
    } else if s[0] == d {
        seq![Seq::<u8>::empty()] + split_on(s.drop_first(), d)
    } else {
        let rest = split_on(s.drop_first(), d);
        seq![seq![s[0]] + rest[0]] + rest.drop_first()
    }
}

/// A segment split at its first `=`: the part before it and the part after
/// it; a segment without `=` is all name and has an empty value.
pub open spec fn split_eq(seg: Seq<u8>) -> (Seq<u8>, Seq<u8>)
    decreases seg.len(),
{
    if seg.len() == 0 {
        (Seq::empty(), Seq::empty())
    } else if seg[0] == B_EQ {
        (Seq::empty(), seg.drop_first())
    } else {
        let (n, v) = split_eq(seg.drop_first());
        (seq![seg[0]] + n, v)
    }
}

/// The replacement-character reading of bytes that are not valid UTF-8.
pub uninterp spec fn lossy_chars(bytes: Seq<u8>) -> Seq<char>;

/// The characters a byte string reads as: UTF-8 where the bytes are valid
/// UTF-8, and the lossy reading with replacement characters where not.
pub open spec fn read_utf8(bytes: Seq<u8>) -> Seq<char> {
    if valid_utf8(bytes) {
        decode_utf8(bytes)
    } else {
        lossy_chars(bytes)
    }
}

/// Relies on String::from_utf8_lossy: the result depends on the bytes alone,
/// and valid UTF-8 input converts without loss.
#[verifier::external_body]
pub fn utf8_lossy(b: &[u8]) -> (r: String)
    ensures
        r@ == read_utf8(b@),
        !valid_utf8(b@) ==> r@ == lossy_chars(b@),
{
    String::from(String::from_utf8_lossy(b))
}

/// The key-value pair a nonempty segment decodes to.
pub open spec fn decode_pair(seg: Seq<u8>) -> (Seq<char>, Seq<char>) {
    let (n, v) = split_eq(seg);
    (read_utf8(dec_bytes(n)), read_utf8(dec_bytes(v)))
}

/// The pairs a list of segments decodes to; empty segments are skipped.
pub open spec fn decode_segs(segs: Seq<Seq<u8>>) -> Seq<(Seq<char>, Seq<char>)>
    decreases segs.len(),
{
    if segs.len() == 0 {
        Seq::empty()
    } else if segs[0].len() == 0 {
        decode_segs(segs.drop_first())
    } else {
        seq![decode_pair(segs[0])] + decode_segs(segs.drop_first())
    }
}

/// The key-value pairs a urlencoded byte string decodes to.
pub open spec fn url_decode_spec(s: Seq<u8>) -> Seq<(Seq<char>, Seq<char>)> {
    decode_segs(split_on(s, B_AMP))
}

/// The encoding of one key-value pair.
pub open spec fn enc_pair(p: (Seq<char>, Seq<char>)) -> Seq<u8> {
    enc_bytes(encode_utf8(p.0)) + seq![B_EQ] + enc_bytes(encode_utf8(p.1))
}

/// The urlencoded byte string a sequence of key-value pairs encodes to.
pub open spec fn url_encode_spec(pairs: Seq<(Seq<char>, Seq<char>)>) -> Seq<u8>
    decreases pairs.len(),
{
    if pairs.len() == 0 {
        Seq::empty()
    } else if pairs.len() == 1 {
        enc_pair(pairs[0])
    } else {
        enc_pair(pairs[0]) + seq![B_AMP] + url_encode_spec(pairs.drop_first())
    }
}

/// Every byte the encoding of one byte writes is a plus, an unreserved
/// byte, a percent sign or a hexadecimal digit.
pub proof fn lemma_enc_byte_no_delim(b: u8, d: u8)
    requires
        !is_unreserved(d),
        d != B_PLUS,
        d != B_PCT,
        !is_hex(d),
    ensures
        forall|j: int| 0 <= j < enc_byte(b).len() ==> enc_byte(b)[j] != d,
{
    if b == B_SPACE {
    } else if is_unreserved(b) {
    } else {
        assert(b / 16 < 16 && b % 16 < 16) by (nonlinear_arith);
        assert(is_hex(hex_char(b / 16))) by {
            if b / 16 < 10 {
            } else {
            }
        }
        assert(is_hex(hex_char(b % 16))) by {
            if b % 16 < 10 {
            } else {
            }
        }
        assert(enc_byte(b) == seq![B_PCT, hex_char(b / 16), hex_char(b % 16)]);
        assert(enc_byte(b)[0] == B_PCT && enc_byte(b)[1] == hex_char(b / 16) && enc_byte(b)[2]
            == hex_char(b % 16));
    }
}

/// No byte of a percent-encoded string is a delimiter: the encoding writes
/// delimiters as percent escapes.
pub proof fn lemma_enc_bytes_no_delim(s: Seq<u8>, d: u8)
    requires
        !is_unreserved(d),
        d != B_PLUS,
        d != B_PCT,
        !is_hex(d),
    ensures
        forall|i: int| 0 <= i < enc_bytes(s).len() ==> enc_bytes(s)[i] != d,
    decreases s.len(),
{
    if s.len() > 0 {
        lemma_enc_bytes_no_delim(s.drop_first(), d);
        lemma_enc_byte_no_delim(s[0], d);
        let head = enc_byte(s[0]);
        let tail = enc_bytes(s.drop_first());
        assert(enc_bytes(s) == head + tail);
        assert forall|i: int| 0 <= i < enc_bytes(s).len() implies enc_bytes(s)[i] != d by {
            if i < head.len() {
                assert((head + tail)[i] == head[i]);
            } else {
                assert((head + tail)[i] == tail[i - head.len()]);
            }
        }
    }
}

/// Percent-decoding inverts percent-encoding.
pub proof fn lemma_dec_enc_bytes(s: Seq<u8>)
    ensures
        dec_bytes(enc_bytes(s)) =~= s,
    decreases s.len(),
{
    if s.len() > 0 {
        lemma_dec_enc_bytes(s.drop_first());
        let b = s[0];
        let rest = enc_bytes(s.drop_first());
        if b == B_SPACE {
            assert(enc_bytes(s) =~= seq![B_PLUS] + rest);
            assert((seq![B_PLUS] + rest).drop_first() =~= rest);
        } else if is_unreserved(b) {
            assert(enc_bytes(s) =~= seq![b] + rest);
            assert((seq![b] + rest).drop_first() =~= rest);
        } else {
            let hi = hex_char(b / 16);
            let lo = hex_char(b % 16);
            assert(enc_bytes(s) =~= seq![B_PCT, hi, lo] + rest);
            let e = seq![B_PCT, hi, lo] + rest;
            assert(e[0] == B_PCT && e[1] == hi && e[2] == lo);
            assert(is_hex(hi) && is_hex(lo) && hex_val(hi) == b / 16 && hex_val(lo) == b % 16)
                by {
                if b / 16 < 10 {
                } else {
                }
            }
            assert(hex_val(hi) * 16 + hex_val(lo) == b);
            assert(e.skip(3) =~= rest);
        }
        assert(dec_bytes(enc_bytes(s)) =~= seq![b] + dec_bytes(rest));
    }
}

/// Splitting at a delimiter that follows a delimiter-free prefix yields that
/// prefix as the first segment.
pub proof fn lemma_split_on_prefix(seg: Seq<u8>, rest: Seq<u8>, d: u8)
    requires
        forall|i: int| 0 <= i < seg.len() ==> seg[i] != d,
    ensures
        split_on(seg + seq![d] + rest, d) =~~= seq![seg] + split_on(rest, d),
    decreases seg.len(),
{
    let s = seg + seq![d] + rest;
    if seg.len() == 0 {
        assert(s.drop_first() =~= rest);
        assert(s[0] == d);
        assert(split_on(s, d) == seq![Seq::<u8>::empty()] + split_on(rest, d));
        assert(seg =~= Seq::<u8>::empty());
    } else {
        lemma_split_on_prefix(seg.drop_first(), rest, d);
        assert(s[0] == seg[0]);
        assert(seg[0] != d);
        assert(s.drop_first() =~= seg.drop_first() + seq![d] + rest);
        let inner = split_on(s.drop_first(), d);
        assert(inner =~~= seq![seg.drop_first()] + split_on(rest, d));
        assert(inner.len() == 1 + split_on(rest, d).len());
        assert(inner[0] =~= seg.drop_first());
        assert(split_on(s, d) == seq![seq![s[0]] + inner[0]] + inner.drop_first());
        assert(seq![s[0]] + inner[0] =~= seg);
        assert(inner.drop_first() =~~= split_on(rest, d));
    }
}

/// A delimiter-free string is a single segment.
pub proof fn lemma_split_on_whole(seg: Seq<u8>, d: u8)
    requires
        forall|i: int| 0 <= i < seg.len() ==> seg[i] != d,
    ensures
        split_on(seg, d) =~~= seq![seg],
    decreases seg.len(),
{
    if seg.len() == 0 {
        assert(split_on(seg, d) == seq![Seq::<u8>::empty()]);
        assert(seg =~= Seq::<u8>::empty());
    } else {
        lemma_split_on_whole(seg.drop_first(), d);
        assert(seg[0] != d);
        let inner = split_on(seg.drop_first(), d);
        assert(inner =~~= seq![seg.drop_first()]);
        assert(inner.len() == 1);
        assert(inner[0] =~= seg.drop_first());
        assert(split_on(seg, d) == seq![seq![seg[0]] + inner[0]] + inner.drop_first());
        assert(seq![seg[0]] + inner[0] =~= seg);
        assert(inner.drop_first() =~= Seq::<Seq<u8>>::empty());
    }
}

/// Splitting at the first `=` after an `=`-free name yields the name and the
/// value.
pub proof fn lemma_split_eq_at(name: Seq<u8>, v: Seq<u8>)
    requires
        forall|i: int| 0 <= i < name.len() ==> name[i] != B_EQ,
    ensures
        split_eq(name + seq![B_EQ] + v) =~= (name, v),
    decreases name.len(),
{
    let s = name + seq![B_EQ] + v;
    if name.len() == 0 {
        assert(s =~= seq![B_EQ] + v);
        assert(s[0] == B_EQ);
        assert(s.drop_first() =~= v);
    } else {
        lemma_split_eq_at(name.drop_first(), v);
        assert(s[0] == name[0]);
        assert(s.drop_first() =~= name.drop_first() + seq![B_EQ] + v);
        assert(seq![s[0]] + split_eq(s.drop_first()).0 =~= name);
    }
}

/// Decoding one encoded pair yields the pair.
pub proof fn lemma_decode_pair_enc(p: (Seq<char>, Seq<char>))
    ensures
        enc_pair(p).len() > 0,
        decode_pair(enc_pair(p)) == p,
{
    let ek = enc_bytes(encode_utf8(p.0));
    let ev = enc_bytes(encode_utf8(p.1));
    assert(enc_pair(p).len() > 0);
    lemma_enc_bytes_no_delim(encode_utf8(p.0), B_EQ);
    lemma_split_eq_at(ek, ev);
    assert(enc_pair(p) =~= ek + seq![B_EQ] + ev);
    assert(split_eq(enc_pair(p)) =~= (ek, ev));
    lemma_dec_enc_bytes(encode_utf8(p.0));
    lemma_dec_enc_bytes(encode_utf8(p.1));
    vstd::utf8::encode_utf8_valid_utf8(p.0);
    vstd::utf8::encode_utf8_valid_utf8(p.1);
    vstd::utf8::encode_utf8_decode_utf8(p.0);
    vstd::utf8::encode_utf8_decode_utf8(p.1);
}

/// Encoding a sequence of key-value pairs and decoding the result yields the
/// original pairs, order preserved.
pub proof fn lemma_url_round_trip(pairs: Seq<(Seq<char>, Seq<char>)>)
    ensures
        url_decode_spec(url_encode_spec(pairs)) =~= pairs,
    decreases pairs.len(),
{
    if pairs.len() == 0 {
        assert(url_encode_spec(pairs) == Seq::<u8>::empty());
        let segs = split_on(Seq::<u8>::empty(), B_AMP);
        assert(segs == seq![Seq::<u8>::empty()]);
        assert(segs[0].len() == 0);
        assert(segs.drop_first() =~= Seq::<Seq<u8>>::empty());
        assert(decode_segs(Seq::<Seq<u8>>::empty()) == Seq::<(Seq<char>, Seq<char>)>::empty());
        assert(url_decode_spec(url_encode_spec(pairs)) =~= pairs);
    } else if pairs.len() == 1 {
        let p = pairs[0];
        lemma_decode_pair_enc(p);
        lemma_enc_bytes_no_delim(encode_utf8(p.0), B_AMP);
        lemma_enc_bytes_no_delim(encode_utf8(p.1), B_AMP);
        assert(forall|i: int| 0 <= i < enc_pair(p).len() ==> enc_pair(p)[i] != B_AMP);
        lemma_split_on_whole(enc_pair(p), B_AMP);
        assert(decode_segs(seq![enc_pair(p)]) =~= seq![decode_pair(enc_pair(p))]) by {
            let segs = seq![enc_pair(p)];
            assert(segs[0] == enc_pair(p));
            assert(segs[0].len() > 0);
            assert(segs.drop_first() =~= Seq::<Seq<u8>>::empty());
            assert(decode_segs(Seq::<Seq<u8>>::empty()) =~= Seq::<(Seq<char>, Seq<char>)>::empty());
        }
        assert(split_on(url_encode_spec(pairs), B_AMP) == seq![enc_pair(p)]);
        assert(url_decode_spec(url_encode_spec(pairs)) =~= pairs);
    } else {
        let p = pairs[0];
        lemma_url_round_trip(pairs.drop_first());
        lemma_decode_pair_enc(p);
        lemma_enc_bytes_no_delim(encode_utf8(p.0), B_AMP);
        lemma_enc_bytes_no_delim(encode_utf8(p.1), B_AMP);
        assert(forall|i: int| 0 <= i < enc_pair(p).len() ==> enc_pair(p)[i] != B_AMP);
        lemma_split_on_prefix(enc_pair(p), url_encode_spec(pairs.drop_first()), B_AMP);
        assert(url_encode_spec(pairs) =~= enc_pair(p) + seq![B_AMP] + url_encode_spec(
            pairs.drop_first(),
        ));
        assert(split_on(url_encode_spec(pairs), B_AMP) =~= seq![enc_pair(p)] + split_on(
            url_encode_spec(pairs.drop_first()),
            B_AMP,
        ));
        assert(decode_segs(seq![enc_pair(p)] + split_on(url_encode_spec(pairs.drop_first()), B_AMP))
            =~= seq![decode_pair(enc_pair(p))] + url_decode_spec(
            url_encode_spec(pairs.drop_first()),
        )) by {
            let segs = seq![enc_pair(p)] + split_on(url_encode_spec(pairs.drop_first()), B_AMP);
            assert(segs[0] == enc_pair(p));
            assert(segs[0].len() > 0);
            assert(segs.drop_first() =~= split_on(url_encode_spec(pairs.drop_first()), B_AMP));
        }
        assert(url_decode_spec(url_encode_spec(pairs)) =~= pairs);
    }
}

/// A name without `=` is all name with an empty value.
pub proof fn lemma_split_eq_whole(name: Seq<u8>)
    requires
        forall|i: int| 0 <= i < name.len() ==> name[i] != B_EQ,
    ensures
        split_eq(name) =~~= (name, Seq::<u8>::empty()),
    decreases name.len(),
{
    if name.len() > 0 {
        lemma_split_eq_whole(name.drop_first());
        assert(name[0] != B_EQ);
        assert(seq![name[0]] + split_eq(name.drop_first()).0 =~= name);
    }
}

/// Decide whether a byte is a hexadecimal digit.
fn is_hex_e(b: u8) -> (r: bool)
    ensures
        r == is_hex(b),
{
    (B_D0 <= b && b <= B_D9) || (B_LA <= b && b <= B_LF) || (B_UA <= b && b <= B_UF)
}

/// The numeric value of a hexadecimal digit.
fn hex_val_e(b: u8) -> (r: u8)
    ensures
        r == hex_val(b),
{
    if B_D0 <= b && b <= B_D9 {
        b - B_D0
    } else if B_LA <= b && b <= B_LF {
        b - B_LA + 10
    } else if B_UA <= b && b <= B_UF {
        b - B_UA + 10
    } else {
        0
    }
}

/// The uppercase hexadecimal digit for a value below sixteen.
fn hex_char_e(n: u8) -> (r: u8)
    requires
        n < 16,
    ensures
        r == hex_char(n),
{
    if n < 10 {
        B_D0 + n
    } else {
        B_UA + (n - 10)
    }
}

/// Decide whether a byte is written as itself in the urlencoded form.
fn is_unreserved_e(b: u8) -> (r: bool)
    ensures
        r == is_unreserved(b),
{
    (B_D0 <= b && b <= B_D9) || (B_LA <= b && b <= B_LZ) || (B_UA <= b && b <= B_UZ)
        || b == B_STAR || b == B_DASH || b == B_DOT || b == B_UND
}

/// Percent-decode a byte string.
pub fn dec_bytes_exec(s: &[u8]) -> (r: Vec<u8>)
    ensures
        r@ =~= dec_bytes(s@),
{
    let mut out: Vec<u8> = Vec::new();
    let mut i: usize = 0;
    assert(s@.skip(0) =~= s@);
    while i < s.len()
        invariant
            0 <= i <= s@.len(),
            dec_bytes(s@) =~= out@ + dec_bytes(s@.skip(i as int)),
        decreases s@.len() - i,
    {
        let ghost rem = s@.skip(i as int);
        assert(rem[0] == s@[i as int]);
        if s[i] == B_PCT && s.len() - i > 2 && is_hex_e(s[i + 1]) && is_hex_e(s[i + 2]) {
            assert(rem.len() >= 3 && rem[1] == s@[i + 1] && rem[2] == s@[i + 2]);
            let hi = hex_val_e(s[i + 1]);
            let lo = hex_val_e(s[i + 2]);
            assert(hi < 16 && lo < 16);
            out.push(hi * 16 + lo);
            proof {
                assert(rem.skip(3) =~= s@.skip(i + 3));
            }
            i = i + 3;
        } else if s[i] == B_PLUS {
            out.push(B_SPACE);
            proof {
                assert(rem.drop_first() =~= s@.skip(i + 1));
            }
            i = i + 1;
        } else {
            let b = s[i];
            out.push(b);
            proof {
                if b == B_PCT {
                    assert(!(rem[0] == B_PCT && rem.len() >= 3 && is_hex(rem[1]) && is_hex(
                        rem[2],
                    )));
                }
                assert(rem.drop_first() =~= s@.skip(i + 1));
            }
            i = i + 1;
        }
    }
    assert(s@.skip(s@.len() as int) =~= Seq::<u8>::empty());
    out
}

/// Append the percent-encoding of a byte string.
fn push_enc_bytes(out: &mut Vec<u8>, s: &[u8])
    ensures
        final(out)@ =~= old(out)@ + enc_bytes(s@),
{
    let mut i: usize = 0;
    assert(s@.skip(0) =~= s@);
    while i < s.len()
        invariant
            0 <= i <= s@.len(),
            old(out)@ + enc_bytes(s@) =~= out@ + enc_bytes(s@.skip(i as int)),
        decreases s@.len() - i,
    {
        let ghost rem = s@.skip(i as int);
        assert(rem[0] == s@[i as int]);
        let b = s[i];
        if b == B_SPACE {
            out.push(B_PLUS);
        } else if is_unreserved_e(b) {
            out.push(b);
        } else {
            out.push(B_PCT);
            out.push(hex_char_e(b / 16));
            out.push(hex_char_e(b % 16));
        }
        proof {
            assert(rem.drop_first() =~= s@.skip(i + 1));
        }
        i = i + 1;
    }
    assert(s@.skip(s@.len() as int) =~= Seq::<u8>::empty());
}

/// Decode a urlencoded byte string into its ordered key-value pairs.
pub fn url_decode(input: &[u8]) -> (r: Vec<KV<String, String>>)
    ensures
        r.repr() =~= url_decode_spec(input@),
{
    let mut out: Vec<KV<String, String>> = Vec::new();
    let mut pos: usize = 0;
    assert(input@.skip(0) =~= input@);
    assert(out.repr() =~= Seq::<(Seq<char>, Seq<char>)>::empty());
    while pos < input.len()
        invariant
            0 <= pos <= input@.len(),
            url_decode_spec(input@) =~= out.repr() + decode_segs(
                split_on(input@.skip(pos as int), B_AMP),
            ),
        decreases input@.len() - pos,
    {
        let mut j: usize = pos;
        while j < input.len() && input[j] != B_AMP
            invariant
                pos <= j <= input@.len(),
                forall|t: int| pos <= t < j ==> input@[t] != B_AMP,
            decreases input@.len() - j,
        {
            j = j + 1;
        }
        let ghost seg_spec = input@.subrange(pos as int, j as int);
        proof {
            assert(forall|t: int| 0 <= t < seg_spec.len() ==> seg_spec[t] != B_AMP);
            if j < input@.len() {
                assert(input@.skip(pos as int) =~= seg_spec + seq![B_AMP] + input@.skip(
                    j + 1,
                ));
                lemma_split_on_prefix(seg_spec, input@.skip(j + 1), B_AMP);
            } else {
                assert(input@.skip(pos as int) =~= seg_spec);
                lemma_split_on_whole(seg_spec, B_AMP);
            }
        }
        if j > pos {
            let seg: &[u8] = &input[pos..j];
            let mut e: usize = 0;
            while e < seg.len() && seg[e] != B_EQ
                invariant
                    0 <= e <= seg@.len(),
                    forall|t: int| 0 <= t < e ==> seg@[t] != B_EQ,
                decreases seg@.len() - e,
            {
                e = e + 1;
            }
            let name: &[u8] = &seg[0..e];
            let value: &[u8] = if e < seg.len() {
                &seg[e + 1..seg.len()]
            } else {
                &seg[e..e]
            };
            proof {
                if e < seg@.len() {
                    assert(seg@ =~= name@ + seq![B_EQ] + value@);
                    lemma_split_eq_at(name@, value@);
                } else {
                    assert(name@ =~= seg@);
                    assert(value@ =~= Seq::<u8>::empty());
                    lemma_split_eq_whole(name@);
                }
                assert(split_eq(seg_spec) =~~= (name@, value@));
            }
            let dk = dec_bytes_exec(name);
            let dv = dec_bytes_exec(value);
            let kv = KV { k: utf8_lossy(dk.as_slice()), v: utf8_lossy(dv.as_slice()) };
            assert(kv.repr() == decode_pair(seg_spec));
            let ghost old_repr = out.repr();
            out.push(kv);
            proof {
                assert(out.repr() =~= old_repr + seq![decode_pair(seg_spec)]);
                let segs = split_on(input@.skip(pos as int), B_AMP);
                assert(segs[0] == seg_spec);
                assert(seg_spec.len() > 0);
            }
        } else {
            proof {
                let segs = split_on(input@.skip(pos as int), B_AMP);
                assert(segs[0] =~= seg_spec);
                assert(seg_spec.len() == 0);
                assert(segs[0].len() == 0);
            }
        }
        proof {
            let segs = split_on(input@.skip(pos as int), B_AMP);
            if j < input@.len() {
                assert(segs.drop_first() =~~= split_on(input@.skip(j + 1), B_AMP));
            } else {
                assert(segs.drop_first() =~= Seq::<Seq<u8>>::empty());
                assert(decode_segs(Seq::<Seq<u8>>::empty()) == Seq::<(
                    Seq<char>,
                    Seq<char>,
                )>::empty());
                assert(input@.skip(input@.len() as int) =~= Seq::<u8>::empty());
                assert(split_on(Seq::<u8>::empty(), B_AMP) == seq![Seq::<u8>::empty()]);
            }
        }
        if j < input.len() {
            pos = j + 1;
        } else {
            pos = input.len();
            proof {
                let segs = split_on(input@.skip(pos as int), B_AMP);
                assert(segs[0].len() == 0);
                assert(segs.drop_first() =~= Seq::<Seq<u8>>::empty());
            }
        }
    }
    proof {
        assert(input@.skip(pos as int) =~= Seq::<u8>::empty());
        let segs = split_on(input@.skip(pos as int), B_AMP);
        assert(segs == seq![Seq::<u8>::empty()]);
        assert(segs[0].len() == 0);
        assert(decode_segs(segs) == decode_segs(segs.drop_first()));
        assert(segs.drop_first() =~= Seq::<Seq<u8>>::empty());
        assert(decode_segs(Seq::<Seq<u8>>::empty()) == Seq::<(Seq<char>, Seq<char>)>::empty());
        assert(out.repr() + Seq::<(Seq<char>, Seq<char>)>::empty() =~= out.repr());
    }
    out
}

/// Encode an ordered list of key-value pairs as a urlencoded byte string.
pub fn url_encode(pairs: &Vec<KV<String, String>>) -> (r: Vec<u8>)
    ensures
        r@ =~= url_encode_spec(pairs.repr()),
{
    let mut out: Vec<u8> = Vec::new();
    let ghost full = pairs.repr();
    let mut i: usize = 0;
    while i < pairs.len()
        invariant
            0 <= i <= pairs@.len(),
            full == pairs.repr(),
            pairs@.len() == full.len(),
            i == 0 ==> out@.len() == 0,
            0 < i < full.len() ==> url_encode_spec(full) =~= out@ + seq![B_AMP]
                + url_encode_spec(full.skip(i as int)),
            i == full.len() && i > 0 ==> url_encode_spec(full) =~= out@,
        decreases pairs@.len() - i,
    {
        if i > 0 {
            out.push(B_AMP);
        }
        let kv = &pairs[i];
        assert(kv.repr() == full[i as int]);
        push_enc_bytes(&mut out, kv.k.as_str().as_bytes());
        out.push(B_EQ);
        push_enc_bytes(&mut out, kv.v.as_str().as_bytes());
        proof {
            let rest = full.skip(i as int);
            assert(rest[0] == full[i as int]);
            assert(rest.drop_first() =~= full.skip(i + 1));
            assert(enc_pair(full[i as int]) == enc_bytes(encode_utf8(full[i as int].0)) + seq![
                B_EQ,
            ] + enc_bytes(encode_utf8(full[i as int].1)));
            if i + 1 < full.len() {
                assert(url_encode_spec(rest) =~= enc_pair(rest[0]) + seq![B_AMP]
                    + url_encode_spec(rest.drop_first()));
            } else {
                assert(rest.len() == 1);
                assert(url_encode_spec(rest) =~= enc_pair(rest[0]));
            }
        }
        i = i + 1;
    }
    if pairs.len() == 0 {
        assert(url_encode_spec(full) =~= Seq::<u8>::empty());
    }
    out
}

} // verus!
