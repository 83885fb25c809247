use triton_vm::field::{Xfe, P};
use triton_vm::hash_table::{
    derive_omicron, pad_height, ExtHashTable, HashTable, HashTableChallenges, HashTableEndpoints,
    BASE_WIDTH, FULL_WIDTH, ROUNDNUMBER, STATE0, STATE12, STATE15,
};
use triton_vm::polynomial::LinearFactor;
use twenty_first::math::traits::PrimitiveRootOfUnity;
use twenty_first::prelude::{BFieldElement, XFieldElement};

fn to_tf(a: Xfe) -> XFieldElement {
    XFieldElement::new([BFieldElement::new(a.c0), BFieldElement::new(a.c1), BFieldElement::new(a.c2)])
}

fn from_tf(x: XFieldElement) -> Xfe {
    let [a, b, c] = x.coefficients;
    Xfe { c0: a.value(), c1: b.value(), c2: c.value() }
}

fn xfe(seed: u64) -> Xfe {
    Xfe::new(
        seed.wrapping_mul(0x9e37_79b9_7f4a_7c15),
        seed.wrapping_mul(0xc2b2_ae3d_27d4_eb4f).wrapping_add(7),
        seed.wrapping_mul(0x1656_67b1_9e37_79f9).wrapping_add(13),
    )
}

fn challenges() -> HashTableChallenges {
    let mut stack_input_weights = [Xfe::zero(); 12];
    for (i, w) in stack_input_weights.iter_mut().enumerate() {
        *w = xfe(100 + i as u64);
    }
    let mut digest_output_weights = [Xfe::zero(); 6];
    for (i, w) in digest_output_weights.iter_mut().enumerate() {
        *w = xfe(200 + i as u64);
    }
    HashTableChallenges {
        from_processor_eval_row_weight: xfe(1),
        to_processor_eval_row_weight: xfe(2),
        stack_input_weights,
        digest_output_weights,
    }
}

fn base_row(round_number: u64, seed: u64) -> Vec<u64> {
    let mut row = vec![0u64; BASE_WIDTH];
    row[ROUNDNUMBER] = round_number;
    for (i, entry) in row.iter_mut().enumerate().skip(1) {
        *entry = BFieldElement::new(seed.wrapping_mul(31).wrapping_add(i as u64 * 1_000_003)).value();
    }
    row
}

fn point_with(round_number: u64, round_number_next: Option<u64>, width: usize) -> Vec<Xfe> {
    let mut point: Vec<Xfe> = (0..width as u64).map(|i| xfe(i + 17)).collect();
    point[ROUNDNUMBER] = Xfe::lift(round_number);
    if let Some(next) = round_number_next {
        point[FULL_WIDTH + ROUNDNUMBER] = Xfe::lift(next);
    }
    point
}

#[test]
fn xfe_new_reduces_each_coefficient() {
    let a = Xfe::new(u64::MAX, P, 5);
    assert_eq!(a, Xfe { c0: u64::MAX - P, c1: 0, c2: 5 });
    assert_eq!(u64::MAX - P, 0xffff_fffe);
}

#[test]
fn pad_height_is_next_power_of_two() {
    assert_eq!(pad_height(0), 0);
    assert_eq!(pad_height(1), 1);
    assert_eq!(pad_height(2), 2);
    assert_eq!(pad_height(3), 4);
    assert_eq!(pad_height(5), 8);
    assert_eq!(pad_height(8), 8);
    assert_eq!(pad_height(1025), 2048);
}

#[test]
fn derive_omicron_is_twenty_firsts_root_of_unity() {
    for n in [0u64, 1, 2, 8, 1 << 20, 1 << 32] {
        let expected = BFieldElement::primitive_root_of_unity(n).unwrap().value();
        assert_eq!(derive_omicron(n), expected);
    }
    assert_eq!(derive_omicron(0), 1);
    assert_eq!(derive_omicron(2), P - 1);
}

#[test]
fn new_prover_pads_and_keeps_matrix() {
    let matrix: Vec<Vec<u64>> = (0..5).map(|i| base_row(i % 9, i)).collect();
    let table = HashTable::new_prover(3, matrix.clone());
    assert_eq!(table.base_width, BASE_WIDTH);
    assert_eq!(table.full_width, FULL_WIDTH);
    assert_eq!(table.padded_height, 8);
    assert_eq!(table.num_trace_randomizers, 3);
    assert_eq!(table.omicron, BFieldElement::primitive_root_of_unity(8).unwrap().value());
    assert_eq!(table.matrix, matrix);
    assert_eq!(table.name, "HashTable");

    let empty = HashTable::new_prover(0, vec![]);
    assert_eq!(empty.padded_height, 0);
    assert_eq!(empty.omicron, 1);
}

#[test]
fn padding_row_is_zero() {
    let table = HashTable::new_prover(0, vec![]);
    assert_eq!(table.get_padding_row(), vec![0u64; BASE_WIDTH]);
}

#[test]
fn with_padded_height_has_no_rows_and_no_constraints() {
    let ext = ExtHashTable::with_padded_height(2, 16);
    assert_eq!(ext.padded_height, 16);
    assert_eq!(ext.num_trace_randomizers, 2);
    assert_eq!(ext.omicron, Xfe::lift(BFieldElement::primitive_root_of_unity(16).unwrap().value()));
    assert!(ext.matrix.is_empty());
    assert_eq!(ext.name, "ExtHashTable");
    assert!(ext.boundary_constraints.is_none());
    assert!(ext.transition_constraints.is_none());
    assert!(ext.consistency_constraints.is_none());
    assert!(ext.terminal_constraints.is_none());
}

#[test]
fn for_verifier_carries_the_constraints() {
    let initials = HashTableEndpoints { from_processor_eval_sum: xfe(3), to_processor_eval_sum: xfe(4) };
    let ext = HashTable::for_verifier(1, 4, &challenges(), &initials);
    assert_eq!(ext.padded_height, 4);
    assert!(ext.matrix.is_empty());
    assert_eq!(ext.name, "ExtHashTable");
    assert_eq!(ext.boundary_constraints.unwrap().len(), 1);
    assert_eq!(ext.transition_constraints.unwrap().len(), 9);
    assert_eq!(ext.consistency_constraints.unwrap().len(), 4);
    assert_eq!(ext.terminal_constraints.unwrap().len(), 0);
}

#[test]
fn boundary_constraint_is_round_number_times_round_number_minus_one() {
    let constraints = ExtHashTable::ext_boundary_constraints();
    assert_eq!(constraints.len(), 1);
    assert_eq!(
        constraints[0].factors,
        vec![
            LinearFactor { variable: ROUNDNUMBER, constant: 0 },
            LinearFactor { variable: ROUNDNUMBER, constant: 1 }
        ]
    );
    for r in [0u64, 1] {
        assert_eq!(constraints[0].evaluate(&point_with(r, None, FULL_WIDTH)), Xfe::zero());
    }
    let point = point_with(2, None, FULL_WIDTH);
    let expected = to_tf(Xfe::lift(2)) * (to_tf(Xfe::lift(2)) - to_tf(Xfe::lift(1)));
    assert_eq!(constraints[0].evaluate(&point), from_tf(expected));
    assert_eq!(constraints[0].evaluate(&point), Xfe::lift(2));
}

#[test]
fn consistency_polynomials_agree_with_direct_evaluation() {
    let ext = ExtHashTable::with_padded_height(0, 0);
    let polynomials = ExtHashTable::ext_consistency_constraints();
    for round_number in 0..10u64 {
        let point = point_with(round_number, None, FULL_WIDTH);
        let direct = ext.evaluate_consistency_constraints(&point);
        assert_eq!(direct.len(), 4);
        for k in 0..4 {
            assert_eq!(polynomials[k].evaluate(&point), direct[k]);
        }
    }
}

#[test]
fn consistency_constraints_computed_as_twenty_first_would() {
    let ext = ExtHashTable::with_padded_height(0, 0);
    let point = point_with(1, None, FULL_WIDTH);
    let rn = to_tf(point[ROUNDNUMBER]);
    let mut product = XFieldElement::new_const(BFieldElement::new(1));
    for r in [0u64, 2, 3, 4, 5, 6, 7, 8] {
        product = product * (rn - XFieldElement::new_const(BFieldElement::new(r)));
    }
    let direct = ext.evaluate_consistency_constraints(&point);
    for k in 0..4 {
        assert_eq!(direct[k], from_tf(product * to_tf(point[STATE12 + k])));
        assert_ne!(direct[k], Xfe::zero());
    }
}

#[test]
fn consistency_constraints_vanish_outside_round_one() {
    let ext = ExtHashTable::with_padded_height(0, 0);
    for r in [0u64, 2, 3, 4, 5, 6, 7, 8] {
        let point = point_with(r, None, FULL_WIDTH);
        assert_eq!(ext.evaluate_consistency_constraints(&point), vec![Xfe::zero(); 4]);
    }
    let mut point = point_with(1, None, FULL_WIDTH);
    point[STATE15] = Xfe::zero();
    let values = ext.evaluate_consistency_constraints(&point);
    assert_eq!(values[3], Xfe::zero());
    assert_ne!(values[0], Xfe::zero());
}

#[test]
fn round_schedule_satisfies_transition_constraints() {
    let constraints = ExtHashTable::ext_transition_constraints(&challenges());
    assert_eq!(constraints.len(), 9);
    let schedule = [(0u64, 0u64), (1, 2), (2, 3), (3, 4), (4, 5), (5, 6), (6, 7), (7, 8), (8, 0), (8, 1)];
    for (x, y) in schedule {
        let point = point_with(x, Some(y), 2 * FULL_WIDTH);
        for c in constraints.iter() {
            assert_eq!(c.num_variables, 2 * FULL_WIDTH);
            assert_eq!(c.evaluate(&point), Xfe::zero());
        }
    }
}

#[test]
fn broken_round_schedule_violates_a_transition_constraint() {
    let constraints = ExtHashTable::ext_transition_constraints(&challenges());
    for (x, y) in [(0u64, 1u64), (1, 3), (4, 4), (8, 2), (7, 0)] {
        let point = point_with(x, Some(y), 2 * FULL_WIDTH);
        assert!(constraints.iter().any(|c| c.evaluate(&point) != Xfe::zero()));
    }
}

#[test]
fn terminal_constraints_are_empty() {
    let initials = HashTableEndpoints { from_processor_eval_sum: xfe(3), to_processor_eval_sum: xfe(4) };
    assert!(ExtHashTable::ext_terminal_constraints(&challenges(), &initials).is_empty());
}

#[test]
fn extend_computes_the_evaluation_arguments() {
    let ch = challenges();
    let initials = HashTableEndpoints { from_processor_eval_sum: xfe(3), to_processor_eval_sum: xfe(4) };
    let rounds = [1u64, 2, 3, 4, 5, 6, 7, 8, 0, 1, 2, 8];
    let matrix: Vec<Vec<u64>> = rounds.iter().enumerate().map(|(i, &r)| base_row(r, i as u64)).collect();
    let table = HashTable::new_prover(0, matrix.clone());
    let (ext, terminals) = table.extend(&ch, &initials);

    let mut from = to_tf(initials.from_processor_eval_sum);
    let mut to = to_tf(initials.to_processor_eval_sum);
    assert_eq!(ext.matrix.len(), matrix.len());
    for (row, ext_row) in matrix.iter().zip(ext.matrix.iter()) {
        assert_eq!(ext_row.len(), BASE_WIDTH + 4);
        for (b, x) in row.iter().zip(ext_row.iter()) {
            assert_eq!(*x, Xfe::lift(*b));
        }
        let lifted: Vec<XFieldElement> = row.iter().map(|&b| BFieldElement::new(b).lift()).collect();
        let compressed_input: XFieldElement = (0..12)
            .map(|i| to_tf(ch.stack_input_weights[i]) * lifted[STATE0 + i])
            .fold(XFieldElement::new_const(BFieldElement::new(0)), |s, t| s + t);
        let compressed_output: XFieldElement = (0..6)
            .map(|i| to_tf(ch.digest_output_weights[i]) * lifted[STATE0 + i])
            .fold(XFieldElement::new_const(BFieldElement::new(0)), |s, t| s + t);
        assert_eq!(ext_row[BASE_WIDTH], from_tf(compressed_input));
        assert_eq!(ext_row[BASE_WIDTH + 1], from_tf(from));
        assert_eq!(ext_row[BASE_WIDTH + 2], from_tf(compressed_output));
        assert_eq!(ext_row[BASE_WIDTH + 3], from_tf(to));
        if row[ROUNDNUMBER] == 1 {
            from = from * to_tf(ch.from_processor_eval_row_weight) + compressed_input;
        }
        if row[ROUNDNUMBER] == 8 {
            to = to * to_tf(ch.to_processor_eval_row_weight) + compressed_output;
        }
    }
    assert_eq!(terminals.from_processor_eval_sum, from_tf(from));
    assert_eq!(terminals.to_processor_eval_sum, from_tf(to));
    assert_ne!(terminals.from_processor_eval_sum, initials.from_processor_eval_sum);
    assert_ne!(terminals.to_processor_eval_sum, initials.to_processor_eval_sum);

    assert_eq!(ext.padded_height, 16);
    assert_eq!(ext.omicron, Xfe::lift(table.omicron));
    assert_eq!(ext.name, "HashTable");
    assert_eq!(ext.boundary_constraints.unwrap().len(), 1);
    assert_eq!(ext.transition_constraints.unwrap().len(), 9);
    assert_eq!(ext.consistency_constraints.unwrap().len(), 4);
    assert_eq!(ext.terminal_constraints.unwrap().len(), 0);
}

#[test]
fn extend_without_round_one_or_eight_keeps_the_initials() {
    let ch = challenges();
    let initials = HashTableEndpoints { from_processor_eval_sum: xfe(3), to_processor_eval_sum: xfe(4) };
    let matrix: Vec<Vec<u64>> = [0u64, 2, 3, 0].iter().enumerate().map(|(i, &r)| base_row(r, i as u64)).collect();
    let (ext, terminals) = HashTable::new_prover(0, matrix).extend(&ch, &initials);
    assert_eq!(terminals.from_processor_eval_sum, initials.from_processor_eval_sum);
    assert_eq!(terminals.to_processor_eval_sum, initials.to_processor_eval_sum);
    for ext_row in ext.matrix.iter() {
        assert_eq!(ext_row[BASE_WIDTH + 1], initials.from_processor_eval_sum);
        assert_eq!(ext_row[BASE_WIDTH + 3], initials.to_processor_eval_sum);
    }
}

#[test]
fn extend_of_empty_table() {
    let initials = HashTableEndpoints { from_processor_eval_sum: xfe(3), to_processor_eval_sum: xfe(4) };
    let (ext, terminals) = HashTable::new_prover(0, vec![]).extend(&challenges(), &initials);
    assert!(ext.matrix.is_empty());
    assert_eq!(terminals.from_processor_eval_sum, initials.from_processor_eval_sum);
    assert_eq!(terminals.to_processor_eval_sum, initials.to_processor_eval_sum);
}

#[test]
fn prover_and_verifier_agree_on_constraints() {
    let ch = challenges();
    let initials = HashTableEndpoints { from_processor_eval_sum: xfe(3), to_processor_eval_sum: xfe(4) };
    let matrix: Vec<Vec<u64>> = (0..3).map(|i| base_row(i, i)).collect();
    let (prover, _) = HashTable::new_prover(0, matrix).extend(&ch, &initials);
    let verifier = HashTable::for_verifier(0, 4, &ch, &initials);
    let factors = |cs: Option<Vec<triton_vm::polynomial::FactoredPolynomial>>| {
        cs.unwrap().into_iter().map(|c| (c.num_variables, c.factors)).collect::<Vec<_>>()
    };
    assert_eq!(factors(prover.boundary_constraints), factors(verifier.boundary_constraints));
    assert_eq!(factors(prover.transition_constraints), factors(verifier.transition_constraints));
    let consistency = factors(verifier.consistency_constraints);
    assert_eq!(factors(prover.consistency_constraints), consistency);
    assert_eq!(factors(prover.terminal_constraints), factors(verifier.terminal_constraints));
    assert_eq!(consistency[0].1.last(), Some(&LinearFactor { variable: STATE12, constant: 0 }));
}

#[test]
fn rows_outside_rounds_1_and_8_do_not_change_the_terminals() {
    let ch = challenges();
    let initials = HashTableEndpoints { from_processor_eval_sum: xfe(3), to_processor_eval_sum: xfe(4) };
    let matrix: Vec<Vec<u64>> = [1u64, 2, 8, 1, 8].iter().enumerate().map(|(i, &r)| base_row(r, i as u64)).collect();
    let (_, a) = HashTable::new_prover(0, matrix.clone()).extend(&ch, &initials);
    let mut padded = matrix.clone();
    padded.insert(1, base_row(0, 40));
    padded.insert(3, base_row(5, 41));
    padded.push(base_row(7, 42));
    padded.remove(2);
    let (_, b) = HashTable::new_prover(0, padded).extend(&ch, &initials);
    assert_eq!(a.from_processor_eval_sum, b.from_processor_eval_sum);
    assert_eq!(a.to_processor_eval_sum, b.to_processor_eval_sum);
}

#[test]
fn shifting_the_initials_shifts_the_terminals() {
    let ch = challenges();
    let initials = HashTableEndpoints { from_processor_eval_sum: xfe(3), to_processor_eval_sum: xfe(4) };
    let (d1, d8) = (xfe(5), xfe(6));
    let shifted = HashTableEndpoints {
        from_processor_eval_sum: from_tf(to_tf(initials.from_processor_eval_sum) + to_tf(d1)),
        to_processor_eval_sum: from_tf(to_tf(initials.to_processor_eval_sum) + to_tf(d8)),
    };
    let rounds = [1u64, 2, 8, 1, 3, 1, 8];
    let matrix: Vec<Vec<u64>> = rounds.iter().enumerate().map(|(i, &r)| base_row(r, i as u64)).collect();
    let table = HashTable::new_prover(0, matrix);
    let (_, a) = table.extend(&ch, &initials);
    let (_, b) = table.extend(&ch, &shifted);
    let w1 = to_tf(ch.from_processor_eval_row_weight);
    let w8 = to_tf(ch.to_processor_eval_row_weight);
    let expected_from = to_tf(a.from_processor_eval_sum) + to_tf(d1) * w1 * w1 * w1;
    let expected_to = to_tf(a.to_processor_eval_sum) + to_tf(d8) * w8 * w8;
    assert_eq!(b.from_processor_eval_sum, from_tf(expected_from));
    assert_eq!(b.to_processor_eval_sum, from_tf(expected_to));
}

#[test]
fn codeword_tables_hold_the_given_codewords() {
    let table = HashTable::new_prover(2, (0..3).map(|i| base_row(i, i)).collect());
    let base: Vec<Vec<u64>> = (0..BASE_WIDTH as u64).map(|c| vec![c, c + 1, P - 1]).collect();
    let codewords = table.codeword_table(base.clone());
    assert_eq!(codewords.matrix, base);
    assert_eq!(codewords.padded_height, table.padded_height);
    assert_eq!(codewords.omicron, table.omicron);
    assert_eq!(codewords.name, "HashTable");

    let (ext, _) = table.extend(
        &challenges(),
        &HashTableEndpoints { from_processor_eval_sum: xfe(3), to_processor_eval_sum: xfe(4) },
    );
    let ext_codewords: Vec<Vec<Xfe>> = (0..(FULL_WIDTH - BASE_WIDTH) as u64).map(|c| vec![xfe(c), xfe(c + 9)]).collect();
    let all = ext.ext_codeword_table(ext_codewords.clone(), &base);
    assert_eq!(all.matrix.len(), FULL_WIDTH);
    for (row, lifted) in base.iter().zip(all.matrix.iter()) {
        assert_eq!(lifted, &row.iter().map(|&b| Xfe::lift(b)).collect::<Vec<_>>());
    }
    assert_eq!(&all.matrix[BASE_WIDTH..], &ext_codewords[..]);
    assert_eq!(all.padded_height, ext.padded_height);
    assert_eq!(all.omicron, ext.omicron);
    assert_eq!(all.transition_constraints.unwrap().len(), 9);
    assert_eq!(all.consistency_constraints.unwrap().len(), 4);
}

#[test]
fn boundary_and_round_8_constraints_reject_other_round_numbers() {
    let boundary = ExtHashTable::ext_boundary_constraints();
    for z in 2u64..20 {
        assert_ne!(boundary[0].evaluate(&point_with(z, None, FULL_WIDTH)), Xfe::zero());
    }
    let transitions = ExtHashTable::ext_transition_constraints(&challenges());
    for z in 2u64..20 {
        let point = point_with(8, Some(z), 2 * FULL_WIDTH);
        assert_ne!(transitions[8].evaluate(&point), Xfe::zero());
    }
}
