//! Arbitrary-precision unsigned values, modelled as big-endian byte strings.
//!
//! Every numeric component of a key (modulus, exponents, primes, CRT values)
//! is carried as a `Vec<u8>` holding the value's big-endian bytes. This module
//! gives those byte strings their meaning as naturals and renders them in
//! decimal and minimal hexadecimal.

use vstd::prelude::*;
use vstd::arithmetic::div_mod::{lemma_fundamental_div_mod, lemma_fundamental_div_mod_converse};
use vstd::arithmetic::power2::{lemma2_to64, lemma_pow2_adds, pow2};
use vstd::slice::slice_to_vec;
use crate::text::push_char;

verus! {

/// The numeric value of a big-endian byte string, as an unbounded natural.
pub open spec fn value_of(s: Seq<u8>) -> nat
    decreases s.len(),
{
    if s.len() == 0 {
        0
    } else {
        (value_of(s.drop_last()) * 256 + s.last()) as nat
    }
}

/// The same byte string with leading zero bytes removed; the empty string and
/// an all-zero string both normalize to the single byte `0`, so a normalized
/// string is never empty.
pub open spec fn normalize_spec(s: Seq<u8>) -> Seq<u8>
    decreases s.len(),
{
    if s.len() == 0 {
        seq![0u8]
    } else if s[0] != 0 {
        s
    } else {
        normalize_spec(s.drop_first())
    }
}

/// A normalized byte string keeps its first byte nonzero, except for the
/// single-byte string `0` that stands for the value zero.
pub proof fn lemma_normalize_shape(s: Seq<u8>)
    ensures
        normalize_spec(s).len() >= 1,
        normalize_spec(s)[0] == 0 ==> normalize_spec(s) == seq![0u8],
    decreases s.len(),
{
    if s.len() == 0 {
    } else if s[0] != 0 {
    } else {
        lemma_normalize_shape(s.drop_first());
    }
}

/// Removing a leading zero byte does not change the value.
pub proof fn lemma_value_of_skip_zero(s: Seq<u8>)
    requires
        s.len() >= 1,
        s[0] == 0,
    ensures
        value_of(s) == value_of(s.drop_first()),
    decreases s.len(),
{
    if s.len() == 1 {
        assert(s =~= seq![0u8]);
        assert(s.drop_last() =~= Seq::<u8>::empty());
        assert(s.drop_first() =~= Seq::<u8>::empty());
    } else {
        assert(s.drop_last()[0] == 0);
        lemma_value_of_skip_zero(s.drop_last());
        assert(s.drop_last().drop_first() =~= s.drop_first().drop_last());
        assert(s.drop_first().last() == s.last());
    }
}

/// The value of a single byte is that byte.
pub proof fn lemma_value_of_single(b: u8)
    ensures
        value_of(seq![b]) == b,
{
    assert(seq![b].drop_last() =~= Seq::<u8>::empty());
    assert(value_of(Seq::<u8>::empty()) == 0);
    assert(seq![b].last() == b);
}

/// Normalization preserves the value.
pub proof fn lemma_normalize_value(s: Seq<u8>)
    ensures
        value_of(normalize_spec(s)) == value_of(s),
    decreases s.len(),
{
    if s.len() == 0 {
        lemma_value_of_single(0);
    } else if s[0] != 0 {
    } else {
        lemma_value_of_skip_zero(s);
        lemma_normalize_value(s.drop_first());
    }
}

/// Copies `s[from..]` into a fresh vector.
fn copy_tail(s: &[u8], from: usize) -> (r: Vec<u8>)
    requires
        from <= s@.len(),
    ensures
        r@ == s@.skip(from as int),
{
    let mut r: Vec<u8> = Vec::new();
    let mut j: usize = from;
    while j < s.len()
        invariant
            from <= j <= s@.len(),
            r@ == s@.subrange(from as int, j as int),
        decreases s@.len() - j,
    {
        r.push(s[j]);
        assert(s@.subrange(from as int, j + 1int) =~= s@.subrange(from as int, j as int).push(
            s@[j as int],
        ));
        j = j + 1;
    }
    assert(s@.subrange(from as int, s@.len() as int) =~= s@.skip(from as int));
    r
}

/// Strips leading zero bytes, returning the canonical representation of the
/// same value; the value zero comes back as the single byte `0`.
pub fn normalize(s: &[u8]) -> (r: Vec<u8>)
    ensures
        r@ == normalize_spec(s@),
{
    let mut i: usize = 0;
    assert(s@.skip(0) =~= s@);
    while i < s.len() && s[i] == 0
        invariant
            i <= s@.len(),
            normalize_spec(s@) == normalize_spec(s@.skip(i as int)),
        decreases s@.len() - i,
    {
        assert(s@.skip(i as int)[0] == s@[i as int]);
        assert(s@.skip(i as int).drop_first() =~= s@.skip(i + 1int));
        i = i + 1;
    }
    if i == s.len() {
        assert(s@.skip(i as int) =~= Seq::<u8>::empty());
        let mut r: Vec<u8> = Vec::new();
        r.push(0);
        assert(r@ =~= seq![0u8]);
        r
    } else {
        copy_tail(s, i)
    }
}

/// The number of significant bits in a byte.
pub open spec fn bit_len_u8(b: u8) -> nat {
    if b >= 128 {
        8
    } else if b >= 64 {
        7
    } else if b >= 32 {
        6
    } else if b >= 16 {
        5
    } else if b >= 8 {
        4
    } else if b >= 4 {
        3
    } else if b >= 2 {
        2
    } else if b >= 1 {
        1
    } else {
        0
    }
}

/// The bit length of the value held by a byte string: zero for the value
/// zero, otherwise eight bits for each byte after the first significant one,
/// plus the significant bits of that first byte.
pub open spec fn bit_width_spec(s: Seq<u8>) -> nat {
    let t = normalize_spec(s);
    if t[0] == 0 {
        0
    } else {
        ((t.len() - 1) * 8 + bit_len_u8(t[0])) as nat
    }
}

/// Computes the bit length of the value held by `s`.
pub fn bit_width(s: &[u8]) -> (r: u128)
    ensures
        r == bit_width_spec(s@),
{
    let t = normalize(s);
    proof {
        lemma_normalize_shape(s@);
    }
    let first = t[0];
    if first == 0 {
        0
    } else {
        let whole: u128 = (t.len() - 1) as u128;
        let lead: u128 = if first >= 128 {
            8
        } else if first >= 64 {
            7
        } else if first >= 32 {
            6
        } else if first >= 16 {
            5
        } else if first >= 8 {
            4
        } else if first >= 4 {
            3
        } else if first >= 2 {
            2
        } else {
            1
        };
        whole * 8 + lead
    }
}

/// For a byte string with a nonzero first byte, the value lies between the
/// two powers of two that its byte count and leading byte name.
proof fn lemma_value_bounds_normalized(t: Seq<u8>)
    requires
        t.len() >= 1,
        t[0] != 0,
    ensures
        pow2((((t.len() - 1) * 8 + bit_len_u8(t[0])) - 1) as nat) <= value_of(t),
        value_of(t) < pow2(((t.len() - 1) * 8 + bit_len_u8(t[0])) as nat),
    decreases t.len(),
{
    lemma2_to64();
    if t.len() == 1 {
        assert(t.drop_last() =~= Seq::<u8>::empty());
        assert(value_of(Seq::<u8>::empty()) == 0);
        assert(t.last() == t[0]);
        assert(value_of(t) == t[0]);
    } else {
        let u = t.drop_last();
        let b = t.last();
        assert(u[0] == t[0]);
        lemma_value_bounds_normalized(u);
        let w = (((u.len() - 1) * 8 + bit_len_u8(u[0]))) as nat;
        lemma_pow2_adds((w - 1) as nat, 8);
        lemma_pow2_adds(w, 8);
        assert(value_of(u) * 256 >= pow2((w - 1) as nat) * 256) by (nonlinear_arith)
            requires
                value_of(u) >= pow2((w - 1) as nat),
        ;
        assert((value_of(u) + 1) * 256 <= pow2(w) * 256) by (nonlinear_arith)
            requires
                value_of(u) + 1 <= pow2(w),
        ;
        assert(value_of(t) == value_of(u) * 256 + b);
        assert(pow2((w - 1) as nat) * 256 == pow2((w + 7) as nat));
        assert(pow2(w) * 256 == pow2((w + 8) as nat));
        assert(((t.len() - 1) * 8 + bit_len_u8(t[0])) == w + 8);
    }
}

/// The bit width of a byte string is the bit length of its value: zero
/// exactly for the value zero, and otherwise the unique `w` with
/// `2^(w-1) <= value < 2^w`.
pub proof fn lemma_bit_width_is_bit_length(s: Seq<u8>)
    ensures
        value_of(s) == 0 ==> bit_width_spec(s) == 0,
        value_of(s) > 0 ==> pow2((bit_width_spec(s) - 1) as nat) <= value_of(s) < pow2(
            bit_width_spec(s),
        ),
{
    lemma_normalize_shape(s);
    lemma_normalize_value(s);
    let t = normalize_spec(s);
    if t[0] == 0 {
        lemma_value_of_single(0);
    } else {
        lemma_value_bounds_normalized(t);
        assert(pow2((bit_width_spec(s) - 1) as nat) > 0) by {
            vstd::arithmetic::power2::lemma_pow2_pos((bit_width_spec(s) - 1) as nat);
        }
    }
}

/// The character for a single digit value below sixteen: `0`..`9`, then
/// `a`..`f`.
pub open spec fn nibble_char(d: nat) -> char {
    if d < 10 {
        ((48 + d) as u8) as char
    } else {
        ((87 + d) as u8) as char
    }
}

/// The decimal rendering of a natural, most significant digit first, with no
/// leading zeros; zero renders as the single digit `0`.
pub open spec fn dec_digits_of(n: nat) -> Seq<char>
    decreases n,
{
    if n < 10 {
        seq![nibble_char(n)]
    } else {
        dec_digits_of(n / 10).push(nibble_char(n % 10))
    }
}

/// The numeric value a decimal digit string reads back as.
pub open spec fn dec_value_of(s: Seq<char>) -> nat
    decreases s.len(),
{
    if s.len() == 0 {
        0
    } else {
        (dec_value_of(s.drop_last()) * 10 + (s.last() as u8 - 48)) as nat
    }
}

/// Decimal rendering round-trips: the digit string of `n` reads back as `n`.
pub proof fn lemma_dec_digits_decode(n: nat)
    ensures
        dec_value_of(dec_digits_of(n)) == n,
    decreases n,
{
    if n < 10 {
        assert(seq![nibble_char(n)].drop_last() =~= Seq::<char>::empty());
        assert(dec_value_of(Seq::<char>::empty()) == 0);
    } else {
        lemma_dec_digits_decode(n / 10);
        assert(dec_digits_of(n).drop_last() =~= dec_digits_of(n / 10));
        assert(dec_digits_of(n).last() == nibble_char(n % 10));
        lemma_fundamental_div_mod(n as int, 10);
    }
}

/// The minimal lowercase hexadecimal rendering of a natural; zero renders as
/// the single digit `0`.
pub open spec fn hex_digits_of(n: nat) -> Seq<char>
    decreases n,
{
    if n < 16 {
        seq![nibble_char(n)]
    } else {
        hex_digits_of(n / 16).push(nibble_char(n % 16))
    }
}

/// The character for one digit value.
pub fn digit_char(d: u8) -> (c: char)
    requires
        d < 16,
    ensures
        c == nibble_char(d as nat),
{
    if d < 10 {
        (48 + d) as char
    } else {
        (87 + d) as char
    }
}

/// Appends the decimal digits of `v` to `out`.
pub fn push_dec_u128(v: u128, out: &mut String)
    ensures
        final(out)@ == old(out)@ + dec_digits_of(v as nat),
    decreases v,
{
    if v < 10 {
        push_char(out, digit_char(v as u8));
        assert(old(out)@ + dec_digits_of(v as nat) =~= old(out)@.push(nibble_char(v as nat)));
    } else {
        push_dec_u128(v / 10, out);
        push_char(out, digit_char((v % 10) as u8));
        assert(old(out)@ + dec_digits_of(v as nat) =~= (old(out)@ + dec_digits_of((v / 10) as nat)).push(
            nibble_char((v % 10) as nat),
        ));
    }
}

/// Appends the hexadecimal digits of `v` to `out`.
pub fn push_hex_u128(v: u128, out: &mut String)
    ensures
        final(out)@ == old(out)@ + hex_digits_of(v as nat),
    decreases v,
{
    if v < 16 {
        push_char(out, digit_char(v as u8));
        assert(old(out)@ + hex_digits_of(v as nat) =~= old(out)@.push(nibble_char(v as nat)));
    } else {
        push_hex_u128(v / 16, out);
        push_char(out, digit_char((v % 16) as u8));
        assert(old(out)@ + hex_digits_of(v as nat) =~= (old(out)@ + hex_digits_of((v / 16) as nat)).push(
            nibble_char((v % 16) as nat),
        ));
    }
}

/// A byte string holds the value zero exactly when all its bytes are zero.
pub proof fn lemma_value_zero(s: Seq<u8>)
    ensures
        (value_of(s) == 0) <==> (forall|k: int| 0 <= k < s.len() ==> s[k] == 0),
    decreases s.len(),
{
    if s.len() > 0 {
        lemma_value_zero(s.drop_last());
        assert(forall|k: int| 0 <= k < s.len() - 1 ==> s[k] == s.drop_last()[k]);
        if value_of(s) == 0 {
            assert(forall|k: int| 0 <= k < s.len() ==> s[k] == 0) by {
                assert(value_of(s.drop_last()) == 0);
                assert(s.last() == 0);
            }
        }
    }
}

/// Tests whether the byte string holds the value zero.
fn is_zero(s: &Vec<u8>) -> (r: bool)
    ensures
        r == (value_of(s@) == 0),
{
    proof {
        lemma_value_zero(s@);
    }
    let mut i: usize = 0;
    while i < s.len()
        invariant
            i <= s@.len(),
            forall|k: int| 0 <= k < i ==> s@[k] == 0,
        decreases s@.len() - i,
    {
        if s[i] != 0 {
            proof {
                lemma_value_zero(s@);
                if value_of(s@) == 0 {
                    assert(s@[i as int] == 0);
                }
            }
            return false;
        }
        i = i + 1;
    }
    true
}

/// Divides the value of `s` by the small divisor `d`, returning the quotient
/// as a byte string of the same length together with the remainder.
fn div_rem_small(s: &Vec<u8>, d: u16) -> (qr: (Vec<u8>, u8))
    requires
        2 <= d <= 16,
    ensures
        value_of(s@) == value_of(qr.0@) * d + qr.1,
        qr.1 < d,
        qr.0@.len() == s@.len(),
{
    let mut q: Vec<u8> = Vec::new();
    let mut r: u16 = 0;
    let mut i: usize = 0;
    assert(s@.take(0) =~= Seq::<u8>::empty());
    assert(q@ =~= Seq::<u8>::empty());
    assert(value_of(q@) * d == 0) by (nonlinear_arith)
        requires
            value_of(q@) == 0,
    ;
    while i < s.len()
        invariant
            2 <= d <= 16,
            i <= s@.len(),
            q@.len() == i,
            r < d,
            value_of(s@.take(i as int)) == value_of(q@) * d + r,
        decreases s@.len() - i,
    {
        let b = s[i];
        let x: u16 = r * 256 + b as u16;
        assert(x < 256 * d);
        let qd: u16 = x / d;
        let rd: u16 = x % d;
        assert(qd < 256 && rd < d) by (nonlinear_arith)
            requires
                x < 256 * d,
                2 <= d,
                qd == x / d,
                rd == x % d,
        ;
        proof {
            let ghost qv = value_of(q@);
            lemma_fundamental_div_mod(x as int, d as int);
            assert(s@.take(i + 1int).drop_last() =~= s@.take(i as int));
            assert(s@.take(i + 1int).last() == s@[i as int]);
            assert((qv * d + r) * 256 + b == (256 * qv + qd) * d + rd) by (nonlinear_arith)
                requires
                    x == r * 256 + b,
                    x == qd * d + rd,
            ;
            assert(value_of(q@.push(qd as u8)) == value_of(q@) * 256 + qd) by {
                assert(q@.push(qd as u8).drop_last() =~= q@);
            }
            assert(value_of(q@.push(qd as u8)) * d == (256 * qv + qd) * d) by (nonlinear_arith)
                requires
                    value_of(q@.push(qd as u8)) == 256 * qv + qd,
            ;
        }
        q.push(qd as u8);
        r = rd;
        i = i + 1;
    }
    assert(s@.take(s@.len() as int) =~= s@);
    (q, r as u8)
}

/// Appends the decimal digits of the value of `cur` to `out`.
fn push_dec_bytes(cur: Vec<u8>, out: &mut String)
    ensures
        final(out)@ == old(out)@ + dec_digits_of(value_of(cur@)),
    decreases value_of(cur@),
{
    let ghost v = value_of(cur@);
    let (q, r) = div_rem_small(&cur, 10);
    let ghost qv = value_of(q@);
    if is_zero(&q) {
        push_char(out, digit_char(r));
        assert(old(out)@ + dec_digits_of(v) =~= old(out)@.push(nibble_char(v)));
    } else {
        proof {
            assert(v >= 10) by (nonlinear_arith)
                requires
                    v == qv * 10 + r,
                    qv >= 1,
            ;
            assert(qv < v) by (nonlinear_arith)
                requires
                    v == qv * 10 + r,
                    qv >= 1,
            ;
            lemma_fundamental_div_mod_converse(v as int, 10, qv as int, r as int);
        }
        push_dec_bytes(q, out);
        push_char(out, digit_char(r));
        assert(old(out)@ + dec_digits_of(v) =~= (old(out)@ + dec_digits_of(qv)).push(
            nibble_char(r as nat),
        ));
    }
}

/// Appends the hexadecimal digits of the value of `cur` to `out`.
fn push_hex_bytes(cur: Vec<u8>, out: &mut String)
    ensures
        final(out)@ == old(out)@ + hex_digits_of(value_of(cur@)),
    decreases value_of(cur@),
{
    let ghost v = value_of(cur@);
    let (q, r) = div_rem_small(&cur, 16);
    let ghost qv = value_of(q@);
    if is_zero(&q) {
        push_char(out, digit_char(r));
        assert(old(out)@ + hex_digits_of(v) =~= old(out)@.push(nibble_char(v)));
    } else {
        proof {
            assert(v >= 16 && qv < v) by (nonlinear_arith)
                requires
                    v == qv * 16 + r,
                    qv >= 1,
            ;
            lemma_fundamental_div_mod_converse(v as int, 16, qv as int, r as int);
        }
        push_hex_bytes(q, out);
        push_char(out, digit_char(r));
        assert(old(out)@ + hex_digits_of(v) =~= (old(out)@ + hex_digits_of(qv)).push(
            nibble_char(r as nat),
        ));
    }
}

/// Renders the value of a big-endian byte string in decimal.
pub fn dec_string_bytes(s: &[u8]) -> (r: String)
    ensures
        r@ == dec_digits_of(value_of(s@)),
{
    let mut out = String::new();
    push_dec_bytes(slice_to_vec(s), &mut out);
    proof {
        assert(Seq::<char>::empty() + dec_digits_of(value_of(s@)) =~= dec_digits_of(
            value_of(s@),
        ));
    }
    out
}

/// Renders the value of a big-endian byte string in minimal lowercase
/// hexadecimal.
pub fn hex_string_bytes(s: &[u8]) -> (r: String)
    ensures
        r@ == hex_digits_of(value_of(s@)),
{
    let mut out = String::new();
    push_hex_bytes(slice_to_vec(s), &mut out);
    proof {
        assert(Seq::<char>::empty() + hex_digits_of(value_of(s@)) =~= hex_digits_of(
            value_of(s@),
        ));
    }
    out
}

} // verus!
