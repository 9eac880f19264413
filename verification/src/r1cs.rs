//! The circuit model: variables, rank-1 constraints and constraint systems.
//!
//! A constraint relates three linear combinations of field-valued variables.
//! Each combination is an ordered list of `(variable, coefficient)` pairs and
//! evaluates to the plain integer sum of the field products
//! `variable.value * coefficient`; the selected [`Operation`] then says which
//! relation must hold between the three sums.  Evaluation always reads the
//! value currently bound to each variable.

use vstd::prelude::*;

use crate::bignum::Natural;
use crate::field::FieldElement;

verus! {

/// The relation a constraint demands between its three sides.
///
/// `Hash` is reserved and not implemented: no circuit may exercise it, and
/// [`crate::proofs::Proof::verify_proof`] refuses systems that contain it.
#[derive(Clone, Copy, Debug, PartialEq, Eq, Structural)]
pub enum Operation {
    Add,
    Mul,
    Hash,
}

/// A slot of the circuit together with the field value currently bound to it.
#[derive(Debug)]
pub struct Variable {
    /// The position of the slot in the circuit's witness ordering.
    pub index: usize,
    /// The value this pass of generation or verification has bound.
    pub value: FieldElement,
}

impl Variable {
    /// The bound value is a well-formed field element.
    pub open spec fn wf(&self) -> bool {
        self.value.wf()
    }

    /// A fresh slot bound to the given value.
    pub fn new(index: usize, value: FieldElement) -> (r: Variable)
        ensures
            r.index == index,
            r.value == value,
    {
        Variable { index, value }
    }
}

/// One weighted summand of a linear combination.
pub type Term = (Variable, FieldElement);

/// The field product of a term, projected to a plain integer.
pub open spec fn term_value(t: Term) -> nat {
    (t.0.value.value() * t.1.value()) % crate::field::field_modulus()
}

/// Both the variable's binding and the coefficient are well-formed.
pub open spec fn term_wf(t: Term) -> bool {
    t.0.wf() && t.1.wf()
}

/// The plain integer sum of the field products of a combination.
pub open spec fn side_value(s: Seq<Term>) -> nat
    decreases s.len(),
{
    if s.len() == 0 {
        0
    } else {
        (term_value(s[0]) + side_value(s.skip(1))) as nat
    }
}

/// Every term of the combination is well-formed.
pub open spec fn side_wf(s: Seq<Term>) -> bool {
    forall|i: int| 0 <= i < s.len() ==> term_wf(s[i])
}

/// Appending a term adds its value to the combination's sum.
pub proof fn lemma_side_value_push(s: Seq<Term>, t: Term)
    ensures
        side_value(s.push(t)) == side_value(s) + term_value(t),
    decreases s.len(),
{
    if s.len() == 0 {
        assert(side_value(s) == 0);
        assert(s.push(t).skip(1) =~= Seq::<Term>::empty());
        assert(side_value(s.push(t).skip(1)) == 0);
        assert(s.push(t)[0] == t);
    } else {
        assert(s.push(t).skip(1) =~= s.skip(1).push(t));
        lemma_side_value_push(s.skip(1), t);
        assert(s.push(t)[0] == s[0]);
        assert(side_value(s.push(t))
            == term_value(s[0]) + side_value(s.skip(1).push(t)));
    }
}

/// Evaluate a linear combination against the values bound to its variables.
///
/// Each product is reduced into the field; the products are then summed as
/// plain integers, and an empty combination sums to zero.
pub fn evaluate_side(pairs: &Vec<Term>) -> (r: Natural)
    requires
        side_wf(pairs@),
    ensures
        r.wf(),
        r.value() == side_value(pairs@),
{
    let mut acc = Natural::from_u64(0);
    let n = pairs.len();
    let mut i: usize = 0;
    while i < n
        invariant
            side_wf(pairs@),
            n == pairs@.len(),
            i <= n,
            acc.wf(),
            acc.value() == side_value(pairs@.take(i as int)),
        decreases n - i,
    {
        let pair = &pairs[i];
        let product = pair.0.value.mul(&pair.1);
        let projected = product.get_value();
        acc = acc.add(&projected);
        proof {
            lemma_side_value_push(pairs@.take(i as int), pairs@[i as int]);
            assert(pairs@.take(i + 1) =~= pairs@.take(i as int).push(pairs@[i as int]));
        }
        i = i + 1;
    }
    proof {
        assert(pairs@.take(n as int) =~= pairs@);
    }
    acc
}

/// One rank-1 relation between three linear combinations.
#[derive(Debug)]
pub struct Constraint {
    pub left: Vec<Term>,
    pub right: Vec<Term>,
    pub output: Vec<Term>,
    pub operation: Operation,
}

impl Constraint {
    /// Every term on every side is well-formed.
    pub open spec fn wf(&self) -> bool {
        side_wf(self.left@) && side_wf(self.right@) && side_wf(self.output@)
    }

    /// The constraint demands the reserved, unimplemented relation.
    pub open spec fn uses_hash(&self) -> bool {
        self.operation is Hash
    }

    /// The constraint holds of the values currently bound to its variables.
    ///
    /// The comparison is between plain integer sums, not field values; the
    /// reserved `Hash` relation never counts as satisfied.
    pub open spec fn satisfied(&self) -> bool {
        match self.operation {
            Operation::Add =>
                side_value(self.left@) + side_value(self.right@)
                    == side_value(self.output@),
            Operation::Mul =>
                side_value(self.left@) * side_value(self.right@)
                    == side_value(self.output@),
            Operation::Hash => false,
        }
    }
}

/// An ordered sequence of constraints forming one circuit.
#[derive(Debug)]
pub struct R1CS {
    pub constraints: Vec<Constraint>,
}

impl R1CS {
    /// Every constraint is well-formed.
    pub open spec fn wf(&self) -> bool {
        forall|i: int| 0 <= i < self.constraints@.len() ==> self.constraints@[i].wf()
    }

    /// Some constraint demands the reserved `Hash` relation.
    pub open spec fn uses_hash(&self) -> bool {
        exists|i: int| 0 <= i < self.constraints@.len()
            && self.constraints@[i].uses_hash()
    }

    /// Every constraint holds of the values bound to its variables.
    pub open spec fn all_satisfied(&self) -> bool {
        forall|i: int| 0 <= i < self.constraints@.len()
            ==> self.constraints@[i].satisfied()
    }

    /// An empty circuit.
    pub fn new() -> (r: R1CS)
        ensures
            r.constraints@.len() == 0,
            r.wf(),
            !r.uses_hash(),
    {
        R1CS { constraints: Vec::new() }
    }

    /// Append one constraint to the circuit.
    pub fn add_constraint(&mut self, constraint: Constraint)
        ensures
            final(self).constraints@ == old(self).constraints@.push(constraint),
    {
        self.constraints.push(constraint);
    }

    /// Whether any constraint demands the reserved `Hash` relation.
    pub fn has_hash_constraint(&self) -> (r: bool)
        ensures
            r == self.uses_hash(),
    {
        let n = self.constraints.len();
        let mut i: usize = 0;
        while i < n
            invariant
                n == self.constraints@.len(),
                i <= n,
                forall|j: int| 0 <= j < i ==> !self.constraints@[j].uses_hash(),
            decreases n - i,
        {
            let is_hash = match self.constraints[i].operation {
                Operation::Hash => true,
                _ => false,
            };
            if is_hash {
                return true;
            }
            i = i + 1;
        }
        false
    }
}

} // verus!
