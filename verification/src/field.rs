//! Modular arithmetic over a fixed large prime field.
//!
//! A [`FieldElement`] holds an arbitrary-precision integer that is always
//! reduced into `[0, p)` for the prime `p = 2^255 - 19`; the type cannot
//! represent an out-of-range value, so `add`, `sub` and `mul` are total and
//! closed over the field.

use vstd::prelude::*;

use crate::bignum::Natural;

verus! {

/// The field modulus `p = 2^255 - 19`.
pub open spec fn field_modulus() -> nat {
    0x7fffffffffffffffffffffffffffffffffffffffffffffffffffffffffffffednat
}

/// The field modulus as a number: `2^63 * (2^64)^3 - 19`.
pub fn modulus() -> (r: Natural)
    ensures
        r.wf(),
        r.value() == field_modulus(),
{
    let half: Natural = Natural::from_u64(0x100000000);
    let word: Natural = half.mul(&half);
    let top: Natural = Natural::from_u64(0x8000000000000000);
    let pow: Natural = top.mul(&word).mul(&word).mul(&word);
    let nineteen: Natural = Natural::from_u64(19);
    proof {
        assert(word.value() == 0x10000000000000000) by (nonlinear_arith)
            requires
                word.value() == 0x100000000nat * 0x100000000,
        {
        }
        assert(0x8000000000000000nat * 0x10000000000000000
            * 0x10000000000000000 * 0x10000000000000000
            == field_modulus() + 19) by (nonlinear_arith);
    }
    pow.sub(&nineteen)
}

/// A value of the prime field: an integer in `[0, field_modulus())`.
#[derive(Debug)]
pub struct FieldElement {
    reduced: Natural,
}

impl FieldElement {
    /// The integer in `[0, field_modulus())` that this element stands for.
    pub closed spec fn value(&self) -> nat {
        self.reduced.value()
    }

    /// The canonical bytes of the underlying integer.
    pub closed spec fn byte_seq(&self) -> Seq<u8> {
        self.reduced.byte_seq()
    }

    /// The underlying integer is canonical and reduced.
    pub closed spec fn wf(&self) -> bool {
        self.reduced.wf() && self.reduced.value() < field_modulus()
    }

    /// A well-formed element always lies below the modulus.
    pub proof fn lemma_value_below_modulus(&self)
        requires
            self.wf(),
        ensures
            self.value() < field_modulus(),
    {
    }

    /// The element an arbitrary integer reduces to.
    pub fn new(n: &Natural) -> (r: FieldElement)
        ensures
            r.wf(),
            r.value() == n.value() % field_modulus(),
    {
        let p = modulus();
        FieldElement { reduced: n.rem(&p) }
    }

    /// The element a machine word reduces to.
    pub fn from_u64(x: u64) -> (r: FieldElement)
        ensures
            r.wf(),
            r.value() == x,
    {
        let n = Natural::from_u64(x);
        let r = FieldElement::new(&n);
        proof {
            assert(x < field_modulus());
            vstd::arithmetic::div_mod::lemma_small_mod(x as nat, field_modulus());
        }
        r
    }

    /// The underlying integer, projected out of the field.
    pub fn get_value(&self) -> (r: Natural)
        requires
            self.wf(),
        ensures
            r.wf(),
            r.value() == self.value(),
            r.byte_seq() == self.byte_seq(),
    {
        self.reduced.duplicate()
    }

    /// A copy of this element.
    pub fn duplicate(&self) -> (r: FieldElement)
        ensures
            r.wf() == self.wf(),
            r.value() == self.value(),
            r.byte_seq() == self.byte_seq(),
    {
        FieldElement { reduced: self.reduced.duplicate() }
    }

    /// Field addition: `(a + b) mod p`.
    pub fn add(&self, other: &FieldElement) -> (r: FieldElement)
        ensures
            r.wf(),
            r.value() == (self.value() + other.value()) % field_modulus(),
    {
        let sum = self.reduced.add(&other.reduced);
        FieldElement::new(&sum)
    }

    /// Field subtraction: `(a - b) mod p`, computed as `(a + p - b) mod p`.
    pub fn sub(&self, other: &FieldElement) -> (r: FieldElement)
        requires
            self.wf(),
            other.wf(),
        ensures
            r.wf(),
            r.value() == (self.value() + field_modulus() - other.value())
                % (field_modulus() as int),
    {
        let p = modulus();
        let lifted = self.reduced.add(&p);
        let diff = lifted.sub(&other.reduced);
        FieldElement::new(&diff)
    }

    /// Field multiplication: `(a * b) mod p`.
    pub fn mul(&self, other: &FieldElement) -> (r: FieldElement)
        ensures
            r.wf(),
            r.value() == (self.value() * other.value()) % field_modulus(),
    {
        let product = self.reduced.mul(&other.reduced);
        FieldElement::new(&product)
    }

    /// Value equality of two elements.
    pub fn eq_value(&self, other: &FieldElement) -> (r: bool)
        requires
            self.wf(),
            other.wf(),
        ensures
            r == (self.value() == other.value()),
    {
        self.reduced.eq_value(&other.reduced)
    }
}

} // verus!
