//! Arbitrary-precision natural numbers.
//!
//! A [`Natural`] owns a canonical little-endian byte string (see
//! [`crate::bytes`]); its mathematical value is [`Natural::value`].  The four
//! arithmetic operations are carried out by `num_bigint::BigUint` behind
//! trusted wrappers whose contracts state the value and canonical form of the
//! result; everything built on top of them is verified.

use vstd::prelude::*;

use num_bigint::BigUint;

use crate::bytes::copy_bytes;
use crate::bytes::is_canonical;
use crate::bytes::le_value;
use crate::bytes::lemma_canonical_unique;
use crate::bytes::bytes_eq;
use crate::bytes::u64_to_canonical_bytes;

verus! {

/// Relies on `num_bigint::BigUint`: `from_bytes_le` reads little-endian
/// bytes, `+` adds, and `to_bytes_le` writes the minimal little-endian byte
/// string (`[0]` for zero).
#[verifier::external_body]
fn big_add(a: &Vec<u8>, b: &Vec<u8>) -> (r: Vec<u8>)
    ensures
        le_value(r@) == le_value(a@) + le_value(b@),
        is_canonical(r@),
{
    let x = BigUint::from_bytes_le(a);
    let y = BigUint::from_bytes_le(b);
    (x + y).to_bytes_le()
}

/// Relies on `num_bigint::BigUint`: `-` subtracts and panics when the
/// subtrahend is larger, which the precondition rules out; byte conversions
/// as in `big_add`.
#[verifier::external_body]
fn big_sub(a: &Vec<u8>, b: &Vec<u8>) -> (r: Vec<u8>)
    requires
        le_value(b@) <= le_value(a@),
    ensures
        le_value(r@) == le_value(a@) - le_value(b@),
        is_canonical(r@),
{
    let x = BigUint::from_bytes_le(a);
    let y = BigUint::from_bytes_le(b);
    (x - y).to_bytes_le()
}

/// Relies on `num_bigint::BigUint`: `*` multiplies; byte conversions as in
/// `big_add`.
#[verifier::external_body]
fn big_mul(a: &Vec<u8>, b: &Vec<u8>) -> (r: Vec<u8>)
    ensures
        le_value(r@) == le_value(a@) * le_value(b@),
        is_canonical(r@),
{
    let x = BigUint::from_bytes_le(a);
    let y = BigUint::from_bytes_le(b);
    (x * y).to_bytes_le()
}

/// Relies on `num_bigint::BigUint`: `%` takes the remainder and panics on a
/// zero divisor, which the precondition rules out; byte conversions as in
/// `big_add`.
#[verifier::external_body]
fn big_rem(a: &Vec<u8>, m: &Vec<u8>) -> (r: Vec<u8>)
    requires
        le_value(m@) > 0,
    ensures
        le_value(r@) == le_value(a@) % le_value(m@),
        is_canonical(r@),
{
    let x = BigUint::from_bytes_le(a);
    let y = BigUint::from_bytes_le(m);
    (x % y).to_bytes_le()
}

/// An arbitrary-precision natural number in canonical little-endian form.
#[derive(Debug)]
pub struct Natural {
    bytes: Vec<u8>,
}

impl Natural {
    /// The little-endian byte string carried by this number.
    pub closed spec fn byte_seq(&self) -> Seq<u8> {
        self.bytes@
    }

    /// The natural number denoted.
    pub open spec fn value(&self) -> nat {
        le_value(self.byte_seq())
    }

    /// The byte string is canonical, so the value determines it.
    pub open spec fn wf(&self) -> bool {
        is_canonical(self.byte_seq())
    }

    /// Wrap a byte vector, accepting exactly the canonical ones.
    pub fn from_bytes(bytes: Vec<u8>) -> (r: Option<Natural>)
        ensures
            match r {
                Some(n) => n.wf() && n.byte_seq() == bytes@ && is_canonical(bytes@),
                None => !is_canonical(bytes@),
            },
    {
        if bytes.len() == 0 {
            return None;
        }
        if bytes.len() > 1 && bytes[bytes.len() - 1] == 0 {
            return None;
        }
        Some(Natural { bytes })
    }

    /// The number a machine word denotes.
    pub fn from_u64(x: u64) -> (r: Natural)
        ensures
            r.wf(),
            r.value() == x,
    {
        Natural { bytes: u64_to_canonical_bytes(x) }
    }

    /// A copy of the byte string.
    pub fn to_bytes(&self) -> (r: Vec<u8>)
        ensures
            r@ == self.byte_seq(),
    {
        copy_bytes(&self.bytes)
    }

    /// A copy of this number.
    pub fn duplicate(&self) -> (r: Natural)
        ensures
            r.byte_seq() == self.byte_seq(),
            r.wf() == self.wf(),
            r.value() == self.value(),
    {
        Natural { bytes: copy_bytes(&self.bytes) }
    }

    /// Byte equality; on canonical numbers this is value equality.
    pub fn eq_value(&self, other: &Natural) -> (r: bool)
        requires
            self.wf(),
            other.wf(),
        ensures
            r == (self.value() == other.value()),
    {
        let r = bytes_eq(&self.bytes, &other.bytes);
        proof {
            if !r {
                if self.value() == other.value() {
                    lemma_canonical_unique(self.byte_seq(), other.byte_seq());
                }
            }
        }
        r
    }

    /// The sum of two numbers.
    pub fn add(&self, other: &Natural) -> (r: Natural)
        ensures
            r.wf(),
            r.value() == self.value() + other.value(),
    {
        Natural { bytes: big_add(&self.bytes, &other.bytes) }
    }

    /// The difference of two numbers; the second may not exceed the first.
    pub fn sub(&self, other: &Natural) -> (r: Natural)
        requires
            other.value() <= self.value(),
        ensures
            r.wf(),
            r.value() == self.value() - other.value(),
    {
        Natural { bytes: big_sub(&self.bytes, &other.bytes) }
    }

    /// The product of two numbers.
    pub fn mul(&self, other: &Natural) -> (r: Natural)
        ensures
            r.wf(),
            r.value() == self.value() * other.value(),
    {
        Natural { bytes: big_mul(&self.bytes, &other.bytes) }
    }

    /// The remainder of this number by a non-zero modulus.
    pub fn rem(&self, modulus: &Natural) -> (r: Natural)
        requires
            modulus.value() > 0,
        ensures
            r.wf(),
            r.value() == self.value() % modulus.value(),
    {
        Natural { bytes: big_rem(&self.bytes, &modulus.bytes) }
    }

    /// Two canonical numbers with one value are one number, byte for byte.
    pub proof fn lemma_value_determines_bytes(a: &Natural, b: &Natural)
        requires
            a.wf(),
            b.wf(),
            a.value() == b.value(),
        ensures
            a.byte_seq() == b.byte_seq(),
    {
        lemma_canonical_unique(a.byte_seq(), b.byte_seq());
    }
}

} // verus!
