use carbon_ledger::bignum::Natural;
use carbon_ledger::codec::{deserialize_proof, serialize_proof};
use carbon_ledger::field::FieldElement;
use carbon_ledger::field::modulus;
use carbon_ledger::proofs::Proof;
use carbon_ledger::r1cs::{evaluate_side, Constraint, Operation, Variable, R1CS};

fn term(index: usize, value: u64, coefficient: u64) -> (Variable, FieldElement) {
    (
        Variable::new(index, FieldElement::from_u64(value)),
        FieldElement::from_u64(coefficient),
    )
}

fn single_constraint_circuit(op: Operation, x: u64, y: u64, z: u64) -> R1CS {
    let mut circuit = R1CS::new();
    circuit.add_constraint(Constraint {
        left: vec![term(0, x, 1)],
        right: vec![term(1, y, 1)],
        output: vec![term(2, z, 1)],
        operation: op,
    });
    circuit
}

fn witness_of(values: &[u64]) -> Vec<FieldElement> {
    values.iter().map(|v| FieldElement::from_u64(*v)).collect()
}

#[test]
fn add_constraint_three_plus_four_is_seven() {
    let circuit = single_constraint_circuit(Operation::Add, 3, 4, 7);
    let proof = Proof::generate_proof(&circuit, &witness_of(&[3, 4, 7]));
    assert!(Proof::verify_proof(&proof, &circuit));
}

#[test]
fn add_constraint_three_plus_four_is_not_eight() {
    let circuit = single_constraint_circuit(Operation::Add, 3, 4, 8);
    let proof = Proof::generate_proof(&circuit, &witness_of(&[3, 4, 8]));
    assert!(!Proof::verify_proof(&proof, &circuit));
}

#[test]
fn mul_constraint_three_times_four_is_twelve() {
    let circuit = single_constraint_circuit(Operation::Mul, 3, 4, 12);
    let proof = Proof::generate_proof(&circuit, &witness_of(&[3, 4, 12]));
    assert!(Proof::verify_proof(&proof, &circuit));
}

#[test]
fn mul_constraint_three_times_four_is_not_eleven() {
    let circuit = single_constraint_circuit(Operation::Mul, 3, 4, 11);
    let proof = Proof::generate_proof(&circuit, &witness_of(&[3, 4, 11]));
    assert!(!Proof::verify_proof(&proof, &circuit));
}

#[test]
fn round_trip_with_two_constraints() {
    let mut circuit = R1CS::new();
    circuit.add_constraint(Constraint {
        left: vec![term(0, 3, 1)],
        right: vec![term(1, 4, 1)],
        output: vec![term(2, 7, 1)],
        operation: Operation::Add,
    });
    circuit.add_constraint(Constraint {
        left: vec![term(0, 3, 1)],
        right: vec![term(1, 4, 1)],
        output: vec![term(3, 12, 1)],
        operation: Operation::Mul,
    });
    let proof = Proof::generate_proof(&circuit, &witness_of(&[3, 4, 7, 12]));
    assert!(Proof::verify_proof(&proof, &circuit));
}

#[test]
fn coefficients_weight_the_sum() {
    // 2*5 + 3*1 == 13, so left uses coefficient 2 on x = 5.
    let mut circuit = R1CS::new();
    circuit.add_constraint(Constraint {
        left: vec![term(0, 5, 2), term(1, 1, 3)],
        right: vec![],
        output: vec![term(2, 13, 1)],
        operation: Operation::Add,
    });
    let proof = Proof::generate_proof(&circuit, &witness_of(&[5, 1, 13]));
    assert!(Proof::verify_proof(&proof, &circuit));
}

#[test]
fn empty_side_evaluates_to_zero() {
    let empty: Vec<(Variable, FieldElement)> = Vec::new();
    assert_eq!(evaluate_side(&empty).to_bytes(), vec![0u8]);
}

#[test]
fn empty_circuit_verifies_on_matching_commitment() {
    let circuit = R1CS::new();
    let proof = Proof::generate_proof(&circuit, &witness_of(&[1, 2, 3]));
    assert!(Proof::verify_proof(&proof, &circuit));
}

#[test]
fn empty_circuit_rejects_mismatched_commitment() {
    let circuit = R1CS::new();
    let mut proof = Proof::generate_proof(&circuit, &witness_of(&[1, 2, 3]));
    proof.commitment = Natural::from_u64(999);
    assert!(!Proof::verify_proof(&proof, &circuit));
}

#[test]
fn tampered_witness_fails_verification() {
    let circuit = R1CS::new();
    let mut proof = Proof::generate_proof(&circuit, &witness_of(&[3, 4, 7]));
    proof.witness[1] = Natural::from_u64(5);
    assert!(!Proof::verify_proof(&proof, &circuit));
}

#[test]
fn verification_reads_live_variable_bindings_not_the_proof() {
    // The proof's stored witness satisfies the constraint, but verification
    // re-reads the values bound to the circuit's variables; with the circuit
    // re-bound to 3 + 4 = 9 the same proof must fail.
    let bound_wrong = single_constraint_circuit(Operation::Add, 3, 4, 9);
    let proof = Proof::generate_proof(&bound_wrong, &witness_of(&[3, 4, 7]));
    assert!(!Proof::verify_proof(&proof, &bound_wrong));
}

#[test]
fn commitment_is_the_checksum_of_the_witness_sum() {
    let circuit = R1CS::new();
    let proof = Proof::generate_proof(&circuit, &witness_of(&[3, 4, 7]));
    // 3 + 4 + 7 = 14, and (14 + 0) mod 1_000_000_007 = 14.
    assert_eq!(proof.commitment.to_bytes(), vec![14u8]);
}

#[test]
fn commitment_wraps_at_its_modulus() {
    let circuit = R1CS::new();
    let witness = vec![FieldElement::from_u64(1_000_000_007)];
    let proof = Proof::generate_proof(&circuit, &witness);
    assert_eq!(proof.commitment.to_bytes(), vec![0u8]);
}

#[test]
fn commitment_ignores_the_circuit() {
    let with_constraint = single_constraint_circuit(Operation::Add, 3, 4, 7);
    let empty = R1CS::new();
    let p1 = Proof::generate_proof(&with_constraint, &witness_of(&[3, 4, 7]));
    let p2 = Proof::generate_proof(&empty, &witness_of(&[3, 4, 7]));
    assert_eq!(p1.commitment.to_bytes(), p2.commitment.to_bytes());
}

#[test]
fn generation_is_deterministic_byte_for_byte() {
    let circuit = single_constraint_circuit(Operation::Add, 3, 4, 7);
    let p1 = Proof::generate_proof(&circuit, &witness_of(&[3, 4, 7]));
    let p2 = Proof::generate_proof(&circuit, &witness_of(&[3, 4, 7]));
    assert_eq!(serialize_proof(&p1), serialize_proof(&p2));
}

#[test]
fn hash_constraints_are_detected() {
    let circuit = single_constraint_circuit(Operation::Hash, 1, 1, 1);
    assert!(circuit.has_hash_constraint());
    assert!(!single_constraint_circuit(Operation::Add, 1, 1, 1).has_hash_constraint());
}

#[test]
fn serialization_round_trips() {
    let circuit = single_constraint_circuit(Operation::Add, 3, 4, 7);
    let proof = Proof::generate_proof(&circuit, &witness_of(&[3, 4, 7]));
    let bytes = serialize_proof(&proof);
    let recovered = deserialize_proof(&bytes).expect("a serialized proof must decode");
    assert_eq!(recovered.witness.len(), proof.witness.len());
    for (a, b) in recovered.witness.iter().zip(proof.witness.iter()) {
        assert_eq!(a.to_bytes(), b.to_bytes());
    }
    assert_eq!(recovered.commitment.to_bytes(), proof.commitment.to_bytes());
    assert_eq!(serialize_proof(&recovered), bytes);
}

#[test]
fn serialization_round_trips_on_an_empty_witness() {
    let circuit = R1CS::new();
    let proof = Proof::generate_proof(&circuit, &Vec::new());
    let bytes = serialize_proof(&proof);
    let recovered = deserialize_proof(&bytes).expect("a serialized proof must decode");
    assert_eq!(recovered.witness.len(), 0);
    assert_eq!(recovered.commitment.to_bytes(), vec![0u8]);
}

#[test]
fn deserialization_rejects_garbage() {
    assert!(deserialize_proof(&vec![1u8, 2, 3]).is_none());
    assert!(deserialize_proof(&Vec::new()).is_none());
}

#[test]
fn deserialization_rejects_trailing_bytes() {
    let circuit = R1CS::new();
    let proof = Proof::generate_proof(&circuit, &witness_of(&[3]));
    let mut bytes = serialize_proof(&proof);
    bytes.push(0);
    assert!(deserialize_proof(&bytes).is_none());
}

#[test]
fn deserialization_rejects_truncated_input() {
    let circuit = R1CS::new();
    let proof = Proof::generate_proof(&circuit, &witness_of(&[3, 4]));
    let mut bytes = serialize_proof(&proof);
    bytes.pop();
    assert!(deserialize_proof(&bytes).is_none());
}

#[test]
fn deserialization_rejects_non_canonical_integers() {
    // count = 1; one integer of two bytes [5, 0] (a trailing zero, so not
    // canonical); commitment [7].
    let mut bytes = Vec::new();
    bytes.extend(vec![1u8, 0, 0, 0, 0, 0, 0, 0]);
    bytes.extend(vec![2u8, 0, 0, 0, 0, 0, 0, 0]);
    bytes.extend(vec![5u8, 0]);
    bytes.extend(vec![1u8, 0, 0, 0, 0, 0, 0, 0]);
    bytes.push(7u8);
    assert!(deserialize_proof(&bytes).is_none());

    // The same layout with the canonical two-byte integer [5, 1] decodes.
    let mut good = Vec::new();
    good.extend(vec![1u8, 0, 0, 0, 0, 0, 0, 0]);
    good.extend(vec![2u8, 0, 0, 0, 0, 0, 0, 0]);
    good.extend(vec![5u8, 1]);
    good.extend(vec![1u8, 0, 0, 0, 0, 0, 0, 0]);
    good.push(7u8);
    let proof = deserialize_proof(&good).expect("a canonical layout must decode");
    assert_eq!(proof.witness.len(), 1);
    assert_eq!(proof.witness[0].to_bytes(), vec![5u8, 1]);
    assert_eq!(proof.commitment.to_bytes(), vec![7u8]);
}

#[test]
fn naturals_compute_with_their_values() {
    assert_eq!(Natural::from_u64(300).to_bytes(), vec![44u8, 1]);
    assert_eq!(
        Natural::from_u64(200).add(&Natural::from_u64(100)).to_bytes(),
        vec![44u8, 1]
    );
    assert_eq!(
        Natural::from_u64(300).sub(&Natural::from_u64(44)).to_bytes(),
        vec![0u8, 1]
    );
    assert_eq!(
        Natural::from_u64(256).mul(&Natural::from_u64(256)).to_bytes(),
        vec![0u8, 0, 1]
    );
    assert_eq!(
        Natural::from_u64(10).rem(&Natural::from_u64(3)).to_bytes(),
        vec![1u8]
    );
    assert_eq!(Natural::from_u64(0).to_bytes(), vec![0u8]);
}

#[test]
fn naturals_accept_exactly_canonical_bytes() {
    assert!(Natural::from_bytes(Vec::new()).is_none());
    assert!(Natural::from_bytes(vec![1u8, 0]).is_none());
    let zero = Natural::from_bytes(vec![0u8]).expect("zero is canonical");
    assert_eq!(zero.to_bytes(), vec![0u8]);
    let n = Natural::from_bytes(vec![7u8, 3]).expect("canonical bytes are accepted");
    assert_eq!(n.to_bytes(), vec![7u8, 3]);
}

#[test]
fn field_arithmetic_reduces_into_the_field() {
    let three = FieldElement::from_u64(3);
    let four = FieldElement::from_u64(4);
    assert_eq!(three.add(&four).get_value().to_bytes(), vec![7u8]);
    assert_eq!(three.mul(&four).get_value().to_bytes(), vec![12u8]);
    assert!(three.eq_value(&FieldElement::from_u64(3)));
    assert!(!three.eq_value(&four));

    // 0 - 1 wraps to p - 1 = 2^255 - 20.
    let mut expected = vec![0xecu8];
    expected.extend(vec![0xffu8; 30]);
    expected.push(0x7f);
    let zero = FieldElement::from_u64(0);
    let one = FieldElement::from_u64(1);
    assert_eq!(zero.sub(&one).get_value().to_bytes(), expected);
}

#[test]
fn field_new_reduces_large_values() {
    // p + 5 reduces to 5.
    let large = modulus().add(&Natural::from_u64(5));
    assert_eq!(FieldElement::new(&large).get_value().to_bytes(), vec![5u8]);

    let mut modulus_bytes = vec![0xedu8];
    modulus_bytes.extend(vec![0xffu8; 30]);
    modulus_bytes.push(0x7f);
    assert_eq!(modulus().to_bytes(), modulus_bytes);
}

#[test]
fn machine_words_encode_canonically() {
    assert_eq!(Natural::from_u64(u64::MAX).to_bytes(), vec![0xffu8; 8]);
    assert_eq!(Natural::from_u64(1).to_bytes(), vec![1u8]);
    assert_eq!(
        Natural::from_u64(0x0102030405060708).to_bytes(),
        vec![8u8, 7, 6, 5, 4, 3, 2, 1]
    );
}
