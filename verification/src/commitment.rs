//! The commitment scheme that binds a witness to a proof.
//!
//! This is a deliberately simple checksum, not a cryptographic commitment:
//! the witness values are summed as plain integers and the sum is folded with
//! zero through [`hash_pair`], a modular addition by a fixed small prime.
//! The proof engine goes through this module alone, so a sounder scheme could
//! replace it without touching the engine's control flow.

use vstd::prelude::*;

use crate::bignum::Natural;

verus! {

/// The modulus of the checksum; a prime distinct from the field modulus.
pub const COMMITMENT_MODULUS: u64 = 1_000_000_007;

/// What folding two values through the checksum yields.
pub open spec fn hash_value(left: nat, right: nat) -> nat {
    (left + right) % (COMMITMENT_MODULUS as nat)
}

/// The values denoted by a sequence of numbers.
pub open spec fn values_of(s: Seq<Natural>) -> Seq<nat> {
    s.map(|i: int, n: Natural| n.value())
}

/// Every number of the sequence is canonical.
pub open spec fn all_wf(s: Seq<Natural>) -> bool {
    forall|i: int| 0 <= i < s.len() ==> s[i].wf()
}

/// The plain integer sum of a sequence of values.
pub open spec fn witness_sum(values: Seq<nat>) -> nat
    decreases values.len(),
{
    if values.len() == 0 {
        0
    } else {
        values[0] + witness_sum(values.skip(1))
    }
}

/// The commitment a witness is bound to: its sum, folded with zero.
pub open spec fn commitment_value(values: Seq<nat>) -> nat {
    hash_value(witness_sum(values), 0)
}

/// Appending a value adds it to the sum.
pub proof fn lemma_witness_sum_push(values: Seq<nat>, v: nat)
    ensures
        witness_sum(values.push(v)) == witness_sum(values) + v,
    decreases values.len(),
{
    if values.len() == 0 {
        assert(witness_sum(values) == 0);
        assert(values.push(v).skip(1) =~= Seq::<nat>::empty());
        assert(witness_sum(values.push(v).skip(1)) == 0);
        assert(values.push(v)[0] == v);
    } else {
        assert(values.push(v).skip(1) =~= values.skip(1).push(v));
        lemma_witness_sum_push(values.skip(1), v);
        assert(values.push(v)[0] == values[0]);
        assert(witness_sum(values.push(v))
            == values[0] + witness_sum(values.skip(1).push(v)));
    }
}

/// Fold two numbers through the checksum.
pub fn hash_pair(left: &Natural, right: &Natural) -> (r: Natural)
    ensures
        r.wf(),
        r.value() == hash_value(left.value(), right.value()),
{
    let modulus = Natural::from_u64(COMMITMENT_MODULUS);
    let combined = left.add(right);
    combined.rem(&modulus)
}

/// The commitment of an ordered witness: the checksum of its plain sum.
pub fn commit(values: &Vec<Natural>) -> (r: Natural)
    requires
        all_wf(values@),
    ensures
        r.wf(),
        r.value() == commitment_value(values_of(values@)),
{
    let mut acc = Natural::from_u64(0);
    let n = values.len();
    let mut i: usize = 0;
    proof {
        assert(witness_sum(values_of(values@).take(0)) == 0);
    }
    while i < n
        invariant
            n == values@.len(),
            i <= n,
            acc.wf(),
            acc.value() == witness_sum(values_of(values@).take(i as int)),
        decreases n - i,
    {
        acc = acc.add(&values[i]);
        proof {
            lemma_witness_sum_push(
                values_of(values@).take(i as int),
                values_of(values@)[i as int],
            );
            assert(values_of(values@).take(i + 1)
                =~= values_of(values@).take(i as int).push(values_of(values@)[i as int]));
        }
        i = i + 1;
    }
    proof {
        assert(values_of(values@).take(n as int) =~= values_of(values@));
    }
    let zero = Natural::from_u64(0);
    hash_pair(&acc, &zero)
}

/// Changing one witness value changes the commitment, unless the change is
/// invisible modulo the checksum modulus.
pub proof fn lemma_commitment_sensitivity(values: Seq<nat>, i: int, v: nat)
    requires
        0 <= i < values.len(),
        v % (COMMITMENT_MODULUS as nat) != values[i] % (COMMITMENT_MODULUS as nat),
    ensures
        commitment_value(values.update(i, v)) != commitment_value(values),
{
    let m = COMMITMENT_MODULUS as int;
    let s = witness_sum(values) as int;
    let t = witness_sum(values.update(i, v)) as int;
    lemma_witness_sum_update(values, i, v);
    let d = v - values[i];
    assert(t == s + d);
    assert(d % m != 0) by {
        vstd::arithmetic::div_mod::lemma_sub_mod_noop(v as int, values[i] as int, m);
        if d % m == 0 {
            vstd::arithmetic::div_mod::lemma_small_mod(0, m as nat);
            assert((v as int % m - values[i] as int % m) % m == 0);
            lemma_mod_difference_zero(v as int % m, values[i] as int % m, m);
        }
    }
    if t % m == s % m {
        vstd::arithmetic::div_mod::lemma_sub_mod_noop(t, s, m);
        assert((t - s) % m == (t % m - s % m) % m);
        assert((t % m - s % m) % m == 0) by {
            vstd::arithmetic::div_mod::lemma_small_mod(0, m as nat);
        }
        assert(d % m == 0);
    }
}

/// Two residues whose difference vanishes modulo the modulus are equal.
proof fn lemma_mod_difference_zero(a: int, b: int, m: int)
    requires
        m > 0,
        0 <= a < m,
        0 <= b < m,
        (a - b) % m == 0,
    ensures
        a == b,
{
    if a > b {
        vstd::arithmetic::div_mod::lemma_small_mod((a - b) as nat, m as nat);
    }
    if b > a {
        vstd::arithmetic::div_mod::lemma_mod_add_multiples_vanish(a - b, m);
        vstd::arithmetic::div_mod::lemma_small_mod((a - b + m) as nat, m as nat);
    }
}

/// Replacing one value replaces exactly its contribution to the sum.
pub proof fn lemma_witness_sum_update(values: Seq<nat>, i: int, v: nat)
    requires
        0 <= i < values.len(),
    ensures
        witness_sum(values.update(i, v)) + values[i] == witness_sum(values) + v,
    decreases values.len(),
{
    if i == 0 {
        assert(values.update(0, v).skip(1) =~= values.skip(1));
        assert(values.update(0, v)[0] == v);
    } else {
        assert(values.update(i, v).skip(1) =~= values.skip(1).update(i - 1, v));
        assert(values.update(i, v)[0] == values[0]);
        lemma_witness_sum_update(values.skip(1), i - 1, v);
        assert(values.skip(1)[i - 1] == values[i]);
    }
}

} // verus!
