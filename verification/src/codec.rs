//! The binary form of a proof.
//!
//! A proof is written as its ordered witness integers followed by its
//! commitment.  Every integer is self-describing: an eight-byte little-endian
//! length prefix and then the integer's canonical little-endian bytes; the
//! witness list itself carries an eight-byte count in front.  Decoding
//! accepts exactly the strings this layout produces, with no trailing bytes
//! and no non-canonical integer, so decoding inverts encoding.

use vstd::prelude::*;

use crate::bignum::Natural;
use crate::bytes::is_canonical;
use crate::bytes::le_value;
use crate::bytes::lemma_pow256_words;
use crate::bytes::pow256;
use crate::proofs::Proof;

verus! {

/// The little-endian digits of a value, padded or truncated to `k` bytes.
pub open spec fn fixed_bytes(n: nat, k: nat) -> Seq<u8>
    decreases k,
{
    if k == 0 {
        Seq::empty()
    } else {
        seq![(n % 256) as u8] + fixed_bytes(n / 256, (k - 1) as nat)
    }
}

pub proof fn lemma_fixed_bytes_len(n: nat, k: nat)
    ensures
        fixed_bytes(n, k).len() == k,
    decreases k,
{
    if k > 0 {
        lemma_fixed_bytes_len(n / 256, (k - 1) as nat);
    }
}

/// A value below `256^k` is denoted by its own `k` fixed digits.
pub proof fn lemma_fixed_bytes_value(n: nat, k: nat)
    requires
        n < pow256(k),
    ensures
        le_value(fixed_bytes(n, k)) == n,
    decreases k,
{
    if k == 0 {
        assert(n == 0);
        assert(le_value(fixed_bytes(n, 0)) == 0);
    } else {
        let s = fixed_bytes(n, k);
        lemma_fixed_bytes_len(n, k);
        assert(s.skip(1) =~= fixed_bytes(n / 256, (k - 1) as nat));
        assert(n / 256 < pow256((k - 1) as nat)) by {
            if n / 256 >= pow256((k - 1) as nat) {
                vstd::arithmetic::mul::lemma_mul_inequality(
                    pow256((k - 1) as nat) as int, (n / 256) as int, 256);
                vstd::arithmetic::div_mod::lemma_fundamental_div_mod(n as int, 256);
            }
        }
        lemma_fixed_bytes_value(n / 256, (k - 1) as nat);
        assert(s[0] == n % 256);
        vstd::arithmetic::div_mod::lemma_fundamental_div_mod(n as int, 256);
    }
}

/// The byte strings carried by a sequence of numbers.
pub open spec fn byte_seqs(s: Seq<Natural>) -> Seq<Seq<u8>> {
    s.map(|i: int, n: Natural| n.byte_seq())
}

/// One length-prefixed integer.
pub open spec fn encode_int(b: Seq<u8>) -> Seq<u8> {
    fixed_bytes(b.len(), 8) + b
}

/// A list of length-prefixed integers, in order.
pub open spec fn encode_ints(items: Seq<Seq<u8>>) -> Seq<u8>
    decreases items.len(),
{
    if items.len() == 0 {
        Seq::empty()
    } else {
        encode_int(items[0]) + encode_ints(items.skip(1))
    }
}

/// The full layout: witness count, witness integers, then the commitment.
pub open spec fn encode_proof(witness: Seq<Seq<u8>>, commitment: Seq<u8>) -> Seq<u8> {
    fixed_bytes(witness.len(), 8) + encode_ints(witness) + encode_int(commitment)
}

pub proof fn lemma_encode_ints_push(items: Seq<Seq<u8>>, b: Seq<u8>)
    ensures
        encode_ints(items.push(b)) == encode_ints(items) + encode_int(b),
    decreases items.len(),
{
    if items.len() == 0 {
        assert(items.push(b)[0] == b);
        assert(items.push(b).skip(1) =~= Seq::<Seq<u8>>::empty());
        assert(encode_ints(items.push(b).skip(1)) == Seq::<u8>::empty());
        assert(encode_ints(items) == Seq::<u8>::empty());
        assert(encode_ints(items.push(b))
            == encode_int(b) + encode_ints(items.push(b).skip(1)));
        assert(encode_int(b) + Seq::<u8>::empty()
            =~= Seq::<u8>::empty() + encode_int(b));
    } else {
        assert(items.push(b).skip(1) =~= items.skip(1).push(b));
        lemma_encode_ints_push(items.skip(1), b);
        assert(items.push(b)[0] == items[0]);
        assert(encode_ints(items.push(b))
            == encode_int(items[0]) + encode_ints(items.skip(1).push(b)));
        assert(encode_int(items[0])
                + (encode_ints(items.skip(1)) + encode_int(b))
            =~= (encode_int(items[0]) + encode_ints(items.skip(1)))
                + encode_int(b));
    }
}

/// Append a machine word as eight little-endian bytes.
fn push_u64_le(out: &mut Vec<u8>, x: u64)
    ensures
        final(out)@ == old(out)@ + fixed_bytes(x as nat, 8),
{
    let ghost orig = out@;
    let mut rest: u64 = x;
    let mut j: usize = 0;
    while j < 8
        invariant
            j <= 8,
            orig + fixed_bytes(x as nat, 8)
                =~= out@ + fixed_bytes(rest as nat, (8 - j) as nat),
        decreases 8 - j,
    {
        let digit: u8 = (rest % 256) as u8;
        proof {
            assert(fixed_bytes(rest as nat, (8 - j) as nat)
                =~= seq![digit] + fixed_bytes(rest as nat / 256, (8 - j - 1) as nat));
            assert(out@ + fixed_bytes(rest as nat, (8 - j) as nat)
                =~= out@.push(digit) + fixed_bytes(rest as nat / 256, (8 - j - 1) as nat));
        }
        out.push(digit);
        rest = rest / 256;
        j = j + 1;
    }
    proof {
        assert(fixed_bytes(rest as nat, 0) =~= Seq::<u8>::empty());
        assert(out@ =~= out@ + fixed_bytes(rest as nat, 0));
        assert(out@ =~= orig + fixed_bytes(x as nat, 8));
    }
}

/// Append a copy of a byte string.
fn push_bytes(out: &mut Vec<u8>, v: &Vec<u8>)
    ensures
        final(out)@ == old(out)@ + v@,
{
    let ghost orig = out@;
    let n = v.len();
    let mut i: usize = 0;
    while i < n
        invariant
            n == v@.len(),
            i <= n,
            out@ =~= orig + v@.take(i as int),
        decreases n - i,
    {
        out.push(v[i]);
        proof {
            assert(orig + v@.take(i + 1) =~= (orig + v@.take(i as int)).push(v@[i as int]));
        }
        i = i + 1;
    }
    proof {
        assert(v@.take(n as int) =~= v@);
    }
}

/// Read the machine word encoded at the given offset.
fn read_u64_le(bytes: &Vec<u8>, pos: usize) -> (x: u64)
    requires
        pos + 8 <= bytes@.len(),
    ensures
        x == le_value(bytes@.subrange(pos as int, pos + 8)),
{
    let total = bytes.len();
    let mut x: u64 = 0;
    let mut j: usize = 0;
    proof {
        assert(bytes@.subrange(pos + 8 as int, pos + 8).len() == 0);
    }
    while j < 8
        invariant
            total == bytes@.len(),
            pos + 8 <= total,
            j <= 8,
            x == le_value(bytes@.subrange(pos + 8 - j, pos + 8)),
            x < pow256(j as nat),
        decreases 8 - j,
    {
        let byte = bytes[pos + 7 - j];
        proof {
            lemma_pow256_words();
            crate::bytes::lemma_pow256_monotonic(j as nat, 7);
            assert(x * 256 <= (pow256(j as nat) - 1) * 256) by (nonlinear_arith)
                requires
                    x <= pow256(j as nat) - 1,
            {
            }
            assert((pow256(j as nat) - 1) * 256 == 256 * pow256(j as nat) - 256)
                by (nonlinear_arith);
            let s = bytes@.subrange(pos + 7 - j, pos + 8);
            assert(s[0] == bytes@[pos + 7 - j]);
            assert(s.skip(1) =~= bytes@.subrange(pos + 8 - j, pos + 8));
        }
        x = x * 256 + (byte as u64);
        j = j + 1;
    }
    proof {
        assert(bytes@.subrange(pos as int, pos + 8)
            =~= bytes@.subrange(pos + 8 - 8, pos + 8));
    }
    x
}

/// A copy of the given range of a byte string.
fn copy_range(bytes: &Vec<u8>, start: usize, len: usize) -> (r: Vec<u8>)
    requires
        start + len <= bytes@.len(),
    ensures
        r@ == bytes@.subrange(start as int, start + len),
{
    let total = bytes.len();
    let mut out: Vec<u8> = Vec::new();
    let mut i: usize = 0;
    while i < len
        invariant
            total == bytes@.len(),
            start + len <= total,
            i <= len,
            out@ =~= bytes@.subrange(start as int, start + i),
        decreases len - i,
    {
        out.push(bytes[start + i]);
        proof {
            assert(bytes@.subrange(start as int, start + i + 1)
                =~= bytes@.subrange(start as int, start + i).push(bytes@[start + i]));
        }
        i = i + 1;
    }
    out
}

/// Write a proof in the fixed binary layout.
pub fn serialize_proof(p: &Proof) -> (r: Vec<u8>)
    ensures
        r@ == encode_proof(byte_seqs(p.witness@), p.commitment.byte_seq()),
{
    let mut out: Vec<u8> = Vec::new();
    push_u64_le(&mut out, p.witness.len() as u64);
    let n = p.witness.len();
    let mut i: usize = 0;
    proof {
        assert(byte_seqs(p.witness@).take(0) =~= Seq::<Seq<u8>>::empty());
        assert(out@ =~= fixed_bytes(n as nat, 8)
            + encode_ints(byte_seqs(p.witness@).take(0)));
    }
    while i < n
        invariant
            n == p.witness@.len(),
            i <= n,
            out@ =~= fixed_bytes(n as nat, 8)
                + encode_ints(byte_seqs(p.witness@).take(i as int)),
        decreases n - i,
    {
        let item = p.witness[i].to_bytes();
        push_u64_le(&mut out, item.len() as u64);
        push_bytes(&mut out, &item);
        proof {
            let prefix = byte_seqs(p.witness@).take(i as int);
            lemma_encode_ints_push(prefix, item@);
            assert(byte_seqs(p.witness@).take(i + 1) =~= prefix.push(item@));
            assert(out@ =~= fixed_bytes(n as nat, 8)
                + encode_ints(byte_seqs(p.witness@).take(i + 1)));
        }
        i = i + 1;
    }
    let commitment_bytes = p.commitment.to_bytes();
    push_u64_le(&mut out, commitment_bytes.len() as u64);
    push_bytes(&mut out, &commitment_bytes);
    proof {
        assert(byte_seqs(p.witness@).take(n as int) =~= byte_seqs(p.witness@));
        assert(out@ =~= encode_proof(byte_seqs(p.witness@), p.commitment.byte_seq()));
    }
    out
}

/// Decode `n` length-prefixed integers from the front of a string, yielding
/// the integers and the remaining bytes; `None` on any malformed prefix.
pub open spec fn decode_ints(bytes: Seq<u8>, n: nat) -> Option<(Seq<Seq<u8>>, Seq<u8>)>
    decreases n,
{
    if n == 0 {
        Some((Seq::empty(), bytes))
    } else if bytes.len() < 8 {
        None
    } else {
        let l = le_value(bytes.take(8));
        if bytes.len() < 8 + l {
            None
        } else if !is_canonical(bytes.subrange(8, (8 + l) as int)) {
            None
        } else {
            match decode_ints(bytes.skip((8 + l) as int), (n - 1) as nat) {
                Some(pr) => Some(
                    (seq![bytes.subrange(8, (8 + l) as int)] + pr.0, pr.1),
                ),
                None => None,
            }
        }
    }
}

/// Decode a full proof: the witness count, that many integers, and a
/// commitment that must end the string exactly.
pub open spec fn decode_proof(bytes: Seq<u8>) -> Option<(Seq<Seq<u8>>, Seq<u8>)> {
    if bytes.len() < 8 {
        None
    } else {
        match decode_ints(bytes.skip(8), le_value(bytes.take(8))) {
            None => None,
            Some(pr) => {
                let rest = pr.1;
                if rest.len() < 8 {
                    None
                } else if rest.len() != 8 + le_value(rest.take(8)) {
                    None
                } else if !is_canonical(rest.skip(8)) {
                    None
                } else {
                    Some((pr.0, rest.skip(8)))
                }
            },
        }
    }
}

/// Parse `count` length-prefixed integers starting at `start`; on success,
/// also yield the offset just past the last one.
fn parse_ints(bytes: &Vec<u8>, start: usize, count: u64) -> (r: Option<(Vec<Natural>, usize)>)
    requires
        start <= bytes@.len(),
    ensures
        match r {
            Some(pr) => {
                &&& start <= pr.1 <= bytes@.len()
                &&& crate::commitment::all_wf(pr.0@)
                &&& decode_ints(bytes@.skip(start as int), count as nat)
                    == Some((byte_seqs(pr.0@), bytes@.skip(pr.1 as int)))
            },
            None => decode_ints(bytes@.skip(start as int), count as nat) is None,
        },
{
    let total = bytes.len();
    let mut items: Vec<Natural> = Vec::new();
    let mut pos: usize = start;
    let mut k: u64 = 0;
    while k < count
        invariant
            total == bytes@.len(),
            start <= pos <= total,
            k <= count,
            crate::commitment::all_wf(items@),
            (match decode_ints(bytes@.skip(pos as int), (count - k) as nat) {
                Some(pr) => decode_ints(bytes@.skip(start as int), count as nat)
                    == Some((byte_seqs(items@) + pr.0, pr.1)),
                None => decode_ints(bytes@.skip(start as int), count as nat) is None,
            }),
        decreases count - k,
    {
        let ghost s = bytes@.skip(pos as int);
        if total - pos < 8 {
            proof {
                assert(s.len() < 8);
                assert(decode_ints(s, (count - k) as nat) is None);
            }
            return None;
        }
        let l64 = read_u64_le(bytes, pos);
        proof {
            assert(bytes@.subrange(pos as int, pos + 8) =~= s.take(8));
        }
        let remaining: u64 = ((total - pos) - 8) as u64;
        if remaining < l64 {
            proof {
                assert(s.len() < 8 + l64);
                assert(decode_ints(s, (count - k) as nat) is None);
            }
            return None;
        }
        let l: usize = l64 as usize;
        let payload = copy_range(bytes, pos + 8, l);
        proof {
            assert(payload@ =~= s.subrange(8, (8 + l64) as int));
        }
        let parsed = Natural::from_bytes(payload);
        match parsed {
            None => {
                proof {
                    assert(decode_ints(s, (count - k) as nat) is None);
                }
                return None;
            },
            Some(natural) => {
                let ghost old_items = items@;
                items.push(natural);
                proof {
                    let rest_s = s.skip(8 + l64 as int);
                    assert(bytes@.skip(pos + 8 + l as int) =~= rest_s);
                    assert(byte_seqs(items@)
                        =~= byte_seqs(old_items) + seq![natural.byte_seq()]);
                    match decode_ints(rest_s, (count - k - 1) as nat) {
                        Some(pr2) => {
                            assert(decode_ints(s, (count - k) as nat)
                                == Some((seq![natural.byte_seq()] + pr2.0, pr2.1)));
                            assert(byte_seqs(old_items)
                                    + (seq![natural.byte_seq()] + pr2.0)
                                =~= byte_seqs(items@) + pr2.0);
                        },
                        None => {
                            assert(decode_ints(s, (count - k) as nat) is None);
                        },
                    }
                }
                pos = pos + 8 + l;
                k = k + 1;
            },
        }
    }
    proof {
        assert(decode_ints(bytes@.skip(pos as int), 0)
            == Some((Seq::<Seq<u8>>::empty(), bytes@.skip(pos as int))));
        assert(byte_seqs(items@) + Seq::<Seq<u8>>::empty() =~= byte_seqs(items@));
    }
    Some((items, pos))
}

/// Read a proof back from the fixed binary layout, accepting exactly the
/// strings [`serialize_proof`] produces for well-formed proofs.
pub fn deserialize_proof(bytes: &Vec<u8>) -> (r: Option<Proof>)
    ensures
        match r {
            Some(p) => p.wf() && decode_proof(bytes@)
                == Some((byte_seqs(p.witness@), p.commitment.byte_seq())),
            None => decode_proof(bytes@) is None,
        },
{
    let total = bytes.len();
    if total < 8 {
        return None;
    }
    let count = read_u64_le(bytes, 0);
    proof {
        assert(bytes@.subrange(0, 8) =~= bytes@.take(8));
    }
    let parsed = parse_ints(bytes, 8, count);
    match parsed {
        None => None,
        Some((witness, pos)) => {
            let ghost rest = bytes@.skip(pos as int);
            if total - pos < 8 {
                proof {
                    assert(rest.len() < 8);
                }
                return None;
            }
            let l64 = read_u64_le(bytes, pos);
            proof {
                assert(bytes@.subrange(pos as int, pos + 8) =~= rest.take(8));
            }
            let remaining: u64 = ((total - pos) - 8) as u64;
            if remaining != l64 {
                proof {
                    assert(rest.len() != 8 + l64 as nat);
                }
                return None;
            }
            let l: usize = l64 as usize;
            let payload = copy_range(bytes, pos + 8, l);
            proof {
                assert(payload@ =~= rest.skip(8));
            }
            let commitment = Natural::from_bytes(payload);
            match commitment {
                None => None,
                Some(commitment) => Some(Proof { witness, commitment }),
            }
        },
    }
}

/// Decoding inverts encoding: the binary form of any list of canonical
/// integers and canonical commitment decodes back to exactly that list and
/// commitment.
pub proof fn lemma_codec_round_trip(witness: Seq<Seq<u8>>, commitment: Seq<u8>)
    requires
        forall|i: int| 0 <= i < witness.len() ==> is_canonical(witness[i]),
        forall|i: int| 0 <= i < witness.len() ==> witness[i].len() < pow256(8),
        is_canonical(commitment),
        commitment.len() < pow256(8),
        witness.len() < pow256(8),
    ensures
        decode_proof(encode_proof(witness, commitment))
            == Some((witness, commitment)),
{
    let b = encode_proof(witness, commitment);
    lemma_fixed_bytes_len(witness.len(), 8);
    assert(b.take(8) =~= fixed_bytes(witness.len(), 8));
    lemma_fixed_bytes_value(witness.len(), 8);
    assert(b.skip(8) =~= encode_ints(witness) + encode_int(commitment));
    lemma_decode_ints_inverts(witness, encode_int(commitment));
    let rest = encode_int(commitment);
    lemma_fixed_bytes_len(commitment.len(), 8);
    assert(rest.len() == 8 + commitment.len());
    assert(rest.take(8) =~= fixed_bytes(commitment.len(), 8));
    lemma_fixed_bytes_value(commitment.len(), 8);
    assert(rest.skip(8) =~= commitment);
}

/// Decoding a count's worth of encoded integers recovers them and leaves the
/// tail untouched.
pub proof fn lemma_decode_ints_inverts(items: Seq<Seq<u8>>, tail: Seq<u8>)
    requires
        forall|i: int| 0 <= i < items.len() ==> is_canonical(items[i]),
        forall|i: int| 0 <= i < items.len() ==> items[i].len() < pow256(8),
    ensures
        decode_ints(encode_ints(items) + tail, items.len())
            == Some((items, tail)),
    decreases items.len(),
{
    if items.len() == 0 {
        assert(encode_ints(items) + tail =~= tail);
    } else {
        let b = encode_ints(items) + tail;
        let item = items[0];
        lemma_fixed_bytes_len(item.len(), 8);
        assert(encode_int(item).len() == 8 + item.len());
        assert(b.take(8) =~= fixed_bytes(item.len(), 8));
        lemma_fixed_bytes_value(item.len(), 8);
        assert(b.len() >= 8 + item.len());
        assert(b.subrange(8, (8 + item.len()) as int) =~= item);
        assert(b.skip((8 + item.len()) as int) =~= encode_ints(items.skip(1)) + tail);
        lemma_decode_ints_inverts(items.skip(1), tail);
        assert(seq![item] + items.skip(1) =~= items);
    }
}

} // verus!
