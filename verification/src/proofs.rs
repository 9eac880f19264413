//! The proof engine: generating and verifying proofs.
//!
//! A [`Proof`] pairs a fully revealed witness with its commitment.  The
//! commitment depends only on the witness, never on the circuit, and
//! verification re-evaluates every constraint against the values currently
//! bound to the circuit's variables — not against the integers stored in the
//! proof.  Both quirks come with the scheme and are preserved exactly.

use vstd::prelude::*;

use crate::bignum::Natural;
use crate::commitment::all_wf;
use crate::commitment::commit;
use crate::commitment::commitment_value;
use crate::commitment::values_of;
use crate::commitment::COMMITMENT_MODULUS;
use crate::field::FieldElement;
use crate::r1cs::evaluate_side;
use crate::r1cs::Operation;
use crate::r1cs::R1CS;

verus! {

/// A revealed witness bound to its commitment.
#[derive(Debug)]
pub struct Proof {
    /// The witness values, as raw integers, in circuit order.
    pub witness: Vec<Natural>,
    /// The commitment that [`Proof::generate_proof`] bound the witness to.
    pub commitment: Natural,
}

/// A proof verifies against a circuit when its commitment matches its own
/// witness and every constraint of the circuit holds of the values currently
/// bound to the circuit's variables.
pub open spec fn spec_verifies(p: Proof, r: R1CS) -> bool {
    p.commitment.value() == commitment_value(values_of(p.witness@))
        && r.all_satisfied()
}

impl Proof {
    /// Every stored integer is canonical.
    pub open spec fn wf(&self) -> bool {
        all_wf(self.witness@) && self.commitment.wf()
    }

    /// The plain integer values of the stored witness, in order.
    pub open spec fn witness_values(&self) -> Seq<nat> {
        values_of(self.witness@)
    }

    /// The commitment is the one the witness itself determines.
    pub open spec fn commitment_matches(&self) -> bool {
        self.commitment.value() == commitment_value(self.witness_values())
    }

    /// Generate a proof binding the given witness.
    ///
    /// The circuit is accepted as a parameter but not consulted: the
    /// commitment depends on the witness alone, so one witness yields one
    /// commitment against every circuit.
    pub fn generate_proof(_r1cs: &R1CS, witness: &Vec<FieldElement>) -> (p: Proof)
        requires
            forall|i: int| 0 <= i < witness@.len() ==> witness@[i].wf(),
        ensures
            p.wf(),
            p.witness@.len() == witness@.len(),
            forall|i: int| 0 <= i < witness@.len()
                ==> p.witness@[i].value() == witness@[i].value()
                    && p.witness@[i].byte_seq() == witness@[i].byte_seq(),
            p.commitment_matches(),
    {
        let mut revealed: Vec<Natural> = Vec::new();
        let n = witness.len();
        let mut i: usize = 0;
        while i < n
            invariant
                forall|k: int| 0 <= k < witness@.len() ==> witness@[k].wf(),
                n == witness@.len(),
                i <= n,
                revealed@.len() == i,
                forall|k: int| 0 <= k < i
                    ==> revealed@[k].value() == witness@[k].value()
                        && revealed@[k].byte_seq() == witness@[k].byte_seq()
                        && revealed@[k].wf(),
            decreases n - i,
        {
            let value = witness[i].get_value();
            revealed.push(value);
            i = i + 1;
        }
        let commitment = commit(&revealed);
        Proof { witness: revealed, commitment }
    }

    /// Verify a proof against a circuit.
    ///
    /// The commitment is recomputed from the stored witness first; on a
    /// mismatch the constraints are not consulted.  Otherwise every
    /// constraint is evaluated, in order, against the values currently bound
    /// to the circuit's variables.  Circuits that use the reserved `Hash`
    /// relation are refused by the precondition.
    pub fn verify_proof(proof: &Proof, r1cs: &R1CS) -> (ok: bool)
        requires
            proof.wf(),
            r1cs.wf(),
            !r1cs.uses_hash(),
        ensures
            ok == spec_verifies(*proof, *r1cs),
    {
        let expected = commit(&proof.witness);
        if !proof.commitment.eq_value(&expected) {
            return false;
        }
        let n = r1cs.constraints.len();
        let mut i: usize = 0;
        while i < n
            invariant
                proof.wf(),
                r1cs.wf(),
                !r1cs.uses_hash(),
                n == r1cs.constraints@.len(),
                i <= n,
                forall|j: int| 0 <= j < i ==> r1cs.constraints@[j].satisfied(),
            decreases n - i,
        {
            let constraint = &r1cs.constraints[i];
            let left_eval = evaluate_side(&constraint.left);
            let right_eval = evaluate_side(&constraint.right);
            let output_eval = evaluate_side(&constraint.output);
            let holds = match constraint.operation {
                Operation::Add => {
                    let sum = left_eval.add(&right_eval);
                    sum.eq_value(&output_eval)
                },
                Operation::Mul => {
                    let product = left_eval.mul(&right_eval);
                    product.eq_value(&output_eval)
                },
                Operation::Hash => {
                    proof {
                        assert(r1cs.constraints@[i as int].uses_hash());
                        assert(false);
                    }
                    false
                },
            };
            if !holds {
                return false;
            }
            i = i + 1;
        }
        true
    }
}

/// Round-trip soundness: a proof whose commitment matches its own witness —
/// as every generated proof's does — verifies against a circuit exactly when
/// the circuit's constraints hold of the circuit's current bindings.
pub proof fn lemma_generate_then_verify(p: Proof, r: R1CS)
    requires
        p.commitment_matches(),
    ensures
        spec_verifies(p, r) == r.all_satisfied(),
{
}

/// Commitment sensitivity: a proof that kept its commitment while one stored
/// witness integer changed — visibly modulo the checksum modulus — verifies
/// against no circuit.
pub proof fn lemma_tampered_witness_fails(p: Proof, q: Proof, i: int, r: R1CS)
    requires
        p.commitment_matches(),
        q.commitment.value() == p.commitment.value(),
        q.witness_values() == p.witness_values().update(i, q.witness_values()[i]),
        0 <= i < p.witness_values().len(),
        q.witness_values()[i] % (COMMITMENT_MODULUS as nat)
            != p.witness_values()[i] % (COMMITMENT_MODULUS as nat),
    ensures
        !spec_verifies(q, r),
{
    crate::commitment::lemma_commitment_sensitivity(
        p.witness_values(), i, q.witness_values()[i]);
}

/// Vacuous constraint satisfaction: against a circuit with no constraints a
/// proof verifies exactly when its commitment matches, whatever is bound to
/// any variable.
pub proof fn lemma_empty_circuit(p: Proof, r: R1CS)
    requires
        r.constraints@.len() == 0,
    ensures
        spec_verifies(p, r) == p.commitment_matches(),
{
}

/// Determinism: two well-formed proofs that bind the same witness values and
/// both carry the commitment those values determine are identical byte for
/// byte, in every stored integer and in the commitment.
pub proof fn lemma_generation_deterministic(p1: Proof, p2: Proof)
    requires
        p1.wf(),
        p2.wf(),
        p1.witness_values() == p2.witness_values(),
        p1.commitment_matches(),
        p2.commitment_matches(),
    ensures
        p1.witness@.len() == p2.witness@.len(),
        forall|i: int| 0 <= i < p1.witness@.len()
            ==> p1.witness@[i].byte_seq() == p2.witness@[i].byte_seq(),
        p1.commitment.byte_seq() == p2.commitment.byte_seq(),
{
    assert(values_of(p1.witness@).len() == values_of(p2.witness@).len());
    assert forall|i: int| 0 <= i < p1.witness@.len()
        implies p1.witness@[i].byte_seq() == p2.witness@[i].byte_seq() by {
        assert(p1.witness@[i].value() == values_of(p1.witness@)[i]);
        assert(p2.witness@[i].value() == values_of(p2.witness@)[i]);
        Natural::lemma_value_determines_bytes(&p1.witness@[i], &p2.witness@[i]);
    }
    Natural::lemma_value_determines_bytes(&p1.commitment, &p2.commitment);
}

} // verus!
