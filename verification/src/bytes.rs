//! Little-endian byte strings as arbitrary-precision natural numbers.
//!
//! Every big integer in this crate is carried as a `Vec<u8>` in canonical
//! little-endian form: at least one byte, and no trailing zero byte except in
//! the one-byte encoding of zero.  Canonical strings represent each natural
//! number uniquely, which is what makes proof generation deterministic.

use vstd::prelude::*;

verus! {

/// The natural number denoted by a little-endian byte string.
pub open spec fn le_value(s: Seq<u8>) -> nat
    decreases s.len(),
{
    if s.len() == 0 {
        0
    } else {
        (s[0] + 256 * le_value(s.skip(1))) as nat
    }
}

/// A byte string is canonical when it is non-empty and carries no trailing
/// zero byte, except for the single byte `[0]` that encodes zero.
pub open spec fn is_canonical(s: Seq<u8>) -> bool {
    s.len() >= 1 && (s.len() == 1 || s[s.len() - 1] != 0)
}

/// 256 raised to the given power: the weight of the byte at that position.
pub open spec fn pow256(n: nat) -> nat
    decreases n,
{
    if n == 0 {
        1
    } else {
        256 * pow256((n - 1) as nat)
    }
}

proof fn lemma_pow256_positive(n: nat)
    ensures
        pow256(n) >= 1,
    decreases n,
{
    if n > 0 {
        lemma_pow256_positive((n - 1) as nat);
    }
}

pub proof fn lemma_pow256_monotonic(m: nat, n: nat)
    requires
        m <= n,
    ensures
        pow256(m) <= pow256(n),
    decreases n,
{
    if m < n {
        lemma_pow256_monotonic(m, (n - 1) as nat);
        lemma_pow256_positive((n - 1) as nat);
    }
}

/// The byte weights up to the width of a machine word.
pub proof fn lemma_pow256_words()
    ensures
        pow256(0) == 1,
        pow256(1) == 0x100,
        pow256(2) == 0x10000,
        pow256(3) == 0x1000000,
        pow256(4) == 0x100000000,
        pow256(5) == 0x10000000000,
        pow256(6) == 0x1000000000000,
        pow256(7) == 0x100000000000000,
        pow256(8) == 0x10000000000000000,
{
    assert(pow256(1) == 256 * pow256(0));
    assert(pow256(2) == 256 * pow256(1));
    assert(pow256(3) == 256 * pow256(2));
    assert(pow256(4) == 256 * pow256(3));
    assert(pow256(5) == 256 * pow256(4));
    assert(pow256(6) == 256 * pow256(5));
    assert(pow256(7) == 256 * pow256(6));
    assert(pow256(8) == 256 * pow256(7));
}

/// A string of `n` bytes denotes a value below `256^n`.
proof fn lemma_le_value_bound(s: Seq<u8>)
    ensures
        le_value(s) < pow256(s.len()),
    decreases s.len(),
{
    if s.len() > 0 {
        lemma_le_value_bound(s.skip(1));
    }
}

/// A one-byte string denotes its single byte.
proof fn lemma_le_value_single(s: Seq<u8>)
    requires
        s.len() == 1,
    ensures
        le_value(s) == s[0],
{
    assert(s.skip(1).len() == 0);
    assert(le_value(s.skip(1)) == 0);
}

/// A string whose last byte is non-zero denotes at least the weight of
/// that byte.
proof fn lemma_le_value_lower(s: Seq<u8>)
    requires
        s.len() >= 1,
        s[s.len() - 1] != 0,
    ensures
        le_value(s) >= pow256((s.len() - 1) as nat),
    decreases s.len(),
{
    if s.len() == 1 {
        lemma_le_value_single(s);
    } else {
        let t = s.skip(1);
        assert(t[t.len() - 1] == s[s.len() - 1]);
        lemma_le_value_lower(t);
    }
}

/// Two canonical strings with the same value are the same string.
pub proof fn lemma_canonical_unique(a: Seq<u8>, b: Seq<u8>)
    requires
        is_canonical(a),
        is_canonical(b),
        le_value(a) == le_value(b),
    ensures
        a == b,
    decreases a.len(),
{
    lemma_canonical_same_len(a, b);
    if a.len() == 1 {
        lemma_le_value_single(a);
        lemma_le_value_single(b);
        assert(a =~= b);
    } else {
        let at = a.skip(1);
        let bt = b.skip(1);
        assert(at[at.len() - 1] == a[a.len() - 1]);
        assert(bt[bt.len() - 1] == b[b.len() - 1]);
        assert(a[0] == b[0] && le_value(at) == le_value(bt)) by {
            lemma_le_digit_and_rest(a);
            lemma_le_digit_and_rest(b);
        }
        lemma_canonical_unique(at, bt);
        assert forall|i: int| 0 <= i < a.len() implies a[i] == b[i] by {
            if i >= 1 {
                assert(a[i] == at[i - 1]);
                assert(b[i] == bt[i - 1]);
            }
        }
        assert(a =~= b);
    }
}

/// The first byte and the remaining value are recovered from the whole value
/// by division and remainder by 256.
proof fn lemma_le_digit_and_rest(s: Seq<u8>)
    requires
        s.len() >= 1,
    ensures
        s[0] == le_value(s) % 256,
        le_value(s.skip(1)) == le_value(s) / 256,
{
    let d = s[0] as int;
    let t = le_value(s.skip(1)) as int;
    assert(le_value(s) == d + 256 * t);
    assert((d + 256 * t) % 256 == d && (d + 256 * t) / 256 == t) by {
        vstd::arithmetic::div_mod::lemma_fundamental_div_mod_converse(
            d + 256 * t, 256, t, d);
    }
}

/// Canonical strings with equal values have equal lengths.
proof fn lemma_canonical_same_len(a: Seq<u8>, b: Seq<u8>)
    requires
        is_canonical(a),
        is_canonical(b),
        le_value(a) == le_value(b),
    ensures
        a.len() == b.len(),
{
    if a.len() < b.len() {
        lemma_canonical_len_ordered(a, b);
    }
    if b.len() < a.len() {
        lemma_canonical_len_ordered(b, a);
    }
}

proof fn lemma_canonical_len_ordered(a: Seq<u8>, b: Seq<u8>)
    requires
        is_canonical(a),
        is_canonical(b),
        a.len() < b.len(),
    ensures
        le_value(a) < le_value(b),
{
    lemma_le_value_bound(a);
    lemma_le_value_lower(b);
    lemma_pow256_monotonic(a.len(), (b.len() - 1) as nat);
}

/// Byte-for-byte equality of two byte vectors.
pub fn bytes_eq(a: &Vec<u8>, b: &Vec<u8>) -> (r: bool)
    ensures
        r == (a@ == b@),
{
    if a.len() != b.len() {
        assert(a@ != b@);
        return false;
    }
    let n = a.len();
    let mut i: usize = 0;
    while i < n
        invariant
            n == a@.len() == b@.len(),
            i <= n,
            forall|j: int| 0 <= j < i ==> a@[j] == b@[j],
        decreases n - i,
    {
        if a[i] != b[i] {
            return false;
        }
        i = i + 1;
    }
    assert(a@ =~= b@);
    true
}

/// A fresh copy of a byte vector.
pub fn copy_bytes(v: &Vec<u8>) -> (r: Vec<u8>)
    ensures
        r@ == v@,
{
    let n = v.len();
    let mut out: Vec<u8> = Vec::new();
    let mut i: usize = 0;
    while i < n
        invariant
            n == v@.len(),
            i <= n,
            out@ =~= v@.take(i as int),
        decreases n - i,
    {
        out.push(v[i]);
        i = i + 1;
    }
    assert(out@ =~= v@);
    out
}

/// Encode a machine word as a canonical little-endian byte string.
pub fn u64_to_canonical_bytes(x: u64) -> (r: Vec<u8>)
    ensures
        le_value(r@) == x,
        is_canonical(r@),
{
    let mut out: Vec<u8> = Vec::new();
    let mut rest: u64 = x;
    proof {
        assert(le_value(out@) == 0);
        assert(pow256(0) == 1);
    }
    while rest > 0
        invariant
            le_value(out@) + rest * pow256(out@.len()) == x,
            rest == 0 ==> (out@.len() == 0
                || out@[out@.len() - 1] != 0),
        decreases rest,
    {
        let digit: u8 = (rest % 256) as u8;
        let next: u64 = rest / 256;
        proof {
            lemma_le_append_digit(out@, digit);
            assert(rest == digit + 256 * next);
            assert((digit + 256 * next) * pow256(out@.len())
                == digit * pow256(out@.len())
                    + next * (256 * pow256(out@.len())))
                by (nonlinear_arith);
        }
        out.push(digit);
        rest = next;
    }
    if out.len() == 0 {
        proof {
            assert(le_value(out@) == 0);
        }
        out.push(0u8);
        proof {
            lemma_le_value_single(out@);
        }
    }
    out
}

/// Appending a byte adds its weighted value.
proof fn lemma_le_append_digit(s: Seq<u8>, d: u8)
    ensures
        le_value(s.push(d)) == le_value(s) + d * pow256(s.len()),
    decreases s.len(),
{
    if s.len() == 0 {
        assert(le_value(s) == 0);
        assert(s.push(d) =~= seq![d]);
        lemma_le_value_single(s.push(d));
        assert(pow256(0) == 1);
    } else {
        assert(s.push(d).skip(1) =~= s.skip(1).push(d));
        lemma_le_append_digit(s.skip(1), d);
        assert(le_value(s.push(d))
            == s[0] + 256 * (le_value(s.skip(1)) + d * pow256((s.len() - 1) as nat)));
        assert(256 * (le_value(s.skip(1)) + d * pow256((s.len() - 1) as nat))
            == 256 * le_value(s.skip(1)) + d * (256 * pow256((s.len() - 1) as nat)))
            by (nonlinear_arith);
        assert(pow256(s.len()) == 256 * pow256((s.len() - 1) as nat));
    }
}

} // verus!
