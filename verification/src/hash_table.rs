//! The hash table of the Triton VM's algebraic execution trace: its base rows,
//! the parameters of their low-degree extension, and their extension by the
//! evaluation arguments with the processor table. Its constraints are in
//! `constraints`.
use crate::constraints::{
    boundary_constraints_spec, consistency_constraints_spec, polynomials_are,
    transition_constraints_spec,
};
use crate::field::{
    lemma_add_associates, lemma_add_lift, lemma_add_swap, lemma_mul_distributes_over_add,
    lemma_mul_distributes_over_add_left, lemma_mul_zero, lemma_zero_add, fmod, lift_spec, xfe_add, xfe_add_spec, xfe_mul,
    xfe_mul_spec, xfe_zero, Xfe, P,
};
use crate::polynomial::{copy_polynomials, same_polynomials, FactoredPolynomial};
use twenty_first::prelude::BFieldElement;
use twenty_first::math::traits::PrimitiveRootOfUnity;
use vstd::arithmetic::power2::{lemma2_to64, lemma2_to64_rest, lemma_pow2_strictly_increases, lemma_pow2_unfold, pow2};
use vstd::prelude::*;

verus! {

pub const HASH_TABLE_PERMUTATION_ARGUMENTS_COUNT: usize = 0;

pub const HASH_TABLE_EVALUATION_ARGUMENT_COUNT: usize = 2;

pub const HASH_TABLE_INITIALS_COUNT: usize = HASH_TABLE_PERMUTATION_ARGUMENTS_COUNT
    + HASH_TABLE_EVALUATION_ARGUMENT_COUNT;

/// This is 18 because it combines: 12 stack_input_weights and 6 digest_output_weights.
pub const HASH_TABLE_EXTENSION_CHALLENGE_COUNT: usize = 18;

/// The number of constants used in each round of the permutation. Since Rescue Prime uses one
/// round constant per half-round, this number is twice the number of state elements.
pub const NUM_ROUND_CONSTANTS: usize = 32;

/// The number of rounds for Rescue Prime
pub const NUM_ROUNDS: usize = 8;

/// Capacity of Rescue Prime
pub const CAPACITY: usize = 4;

/// The number of elements of a digest.
pub const DIGEST_LEN: usize = 6;

/// Round number, 16 state elements, 32 round constants.
pub const BASE_WIDTH: usize = 49;

/// BASE_WIDTH + 2 * INITIALS_COUNT
pub const FULL_WIDTH: usize = 53;

/// Column of the round number in a row of the hash table.
pub const ROUNDNUMBER: usize = 0;

/// Column of the first state element; state element `i` is in column `STATE0 + i`.
pub const STATE0: usize = 1;

/// Column of state element 11, the last one that the processor hands in.
pub const STATE11: usize = 12;

/// Column of state element 12, the first capacity element.
pub const STATE12: usize = 13;

/// Column of state element 15, the last capacity element.
pub const STATE15: usize = 16;

/// The base table: rows of base field elements (canonical `u64` values) and
/// the parameters of their low-degree extension.
#[derive(Clone, Debug)]
pub struct HashTable {
    pub base_width: usize,
    pub full_width: usize,
    pub padded_height: usize,
    pub num_trace_randomizers: usize,
    pub omicron: u64,
    pub matrix: Vec<Vec<u64>>,
    pub name: String,
}

/// The extension table: rows over the extension field, and, once the table
/// has been extended, its constraints.
#[derive(Clone, Debug)]
pub struct ExtHashTable {
    pub base_width: usize,
    pub full_width: usize,
    pub padded_height: usize,
    pub num_trace_randomizers: usize,
    pub omicron: Xfe,
    pub matrix: Vec<Vec<Xfe>>,
    pub name: String,
    pub boundary_constraints: Option<Vec<FactoredPolynomial>>,
    pub transition_constraints: Option<Vec<FactoredPolynomial>>,
    pub consistency_constraints: Option<Vec<FactoredPolynomial>>,
    pub terminal_constraints: Option<Vec<FactoredPolynomial>>,
}

#[derive(Clone, Debug)]
pub struct HashTableChallenges {
    /// The weight that combines two consecutive rows in the
    /// permutation/evaluation column of the hash table.
    pub from_processor_eval_row_weight: Xfe,
    pub to_processor_eval_row_weight: Xfe,
    /// Weights for condensing part of a row into a single column. (Related to processor table.)
    pub stack_input_weights: [Xfe; 12],
    pub digest_output_weights: [Xfe; 6],
}

#[derive(Clone, Debug)]
pub struct HashTableEndpoints {
    /// Values randomly generated by the prover for zero-knowledge.
    pub from_processor_eval_sum: Xfe,
    pub to_processor_eval_sum: Xfe,
}

// ---------------------------------------------------------------------------
// Table parameters
// ---------------------------------------------------------------------------

/// `n` is 2^k for some k.
pub open spec fn is_power_of_two(n: int) -> bool {
    exists|k: nat| pow2(k) == n
}

/// `padded` is the height to which a table of `height` rows is padded: the
/// least power of two that is at least `height`, and 0 for an empty table.
pub open spec fn is_padded_height(height: int, padded: int) -> bool {
    if height == 0 {
        padded == 0
    } else {
        is_power_of_two(padded) && height <= padded < 2 * height
    }
}

/// The base field has a primitive root of unity of order `n` that
/// twenty-first hands out: n is 0 or a power of two up to 2^32.
pub open spec fn has_root_of_unity(n: u64) -> bool {
    n == 0 || exists|k: nat| k <= 32 && pow2(k) == n
}

/// What `BFieldElement::primitive_root_of_unity(n)` of twenty-first returns,
/// as the canonical value of the root.
pub uninterp spec fn primitive_root_of_unity(n: u64) -> Option<u64>;

/// `BFieldElement::primitive_root_of_unity` of twenty-first. Its source looks
/// `n` up in a fixed table whose keys are 0 and the powers of two 2^0 to 2^32;
/// the value it finds is read back canonically. Which root the table holds for
/// each order is not stated, only named.
#[verifier::external_body]
fn bfe_primitive_root_of_unity(n: u64) -> (r: Option<u64>)
    ensures
        r == primitive_root_of_unity(n),
        r is Some <==> has_root_of_unity(n),
        r matches Some(v) ==> v < P,
{
    match BFieldElement::primitive_root_of_unity(n) {
        Some(root) => Some(root.value()),
        None => None,
    }
}

/// The height to which a table with `height` rows is padded: the next power
/// of two, or 0 for an empty table.
pub fn pad_height(height: usize) -> (padded: usize)
    requires
        height <= usize::MAX / 2 + 1,
    ensures
        is_padded_height(height as int, padded as int),
{
    if height == 0 {
        return 0;
    }
    let mut padded: usize = 1;
    let ghost mut k: nat = 0;
    proof {
        lemma2_to64();
    }
    while padded < height
        invariant
            0 < height <= usize::MAX / 2 + 1,
            pow2(k) == padded,
            1 <= padded < 2 * height,
        decreases 2 * height - padded,
    {
        proof {
            lemma_pow2_unfold(k + 1);
        }
        padded = padded * 2;
        proof {
            k = k + 1;
        }
    }
    padded
}

/// The padded height is the least power of two that holds all rows.
pub proof fn law_padded_height_is_least(height: int, padded: int, other: int)
    requires
        height > 0,
        is_padded_height(height, padded),
        is_power_of_two(other),
        other >= height,
    ensures
        padded <= other,
{
    let a = choose|k: nat| pow2(k) == padded;
    let b = choose|k: nat| pow2(k) == other;
    if other < padded {
        if b >= a {
            if b > a {
                lemma_pow2_strictly_increases(a, b);
            }
            assert(false);
        }
        assert(a > 0) by {
            if a == 0 {
                lemma2_to64();
            }
        }
        lemma_pow2_unfold(a);
        if b < a - 1 {
            lemma_pow2_strictly_increases(b, (a - 1) as nat);
        }
        assert(other <= padded / 2);
        assert(false);
    }
}

/// The generator of the trace domain of a table of `padded_height` rows.
///
/// Only heights with a root of unity of that order are accepted: for any other
/// height twenty-first has no root to hand out, and no omicron can be built.
pub fn derive_omicron(padded_height: u64) -> (omicron: u64)
    requires
        has_root_of_unity(padded_height),
    ensures
        primitive_root_of_unity(padded_height) == Some(omicron),
        omicron < P,
{
    match bfe_primitive_root_of_unity(padded_height) {
        Some(root) => root,
        None => 1,
    }
}

/// A padded height of at most 2^32 has a root of unity of its order.
proof fn lemma_padded_height_has_root(height: int, padded: int)
    requires
        height <= 0x1_0000_0000,
        is_padded_height(height, padded),
        0 <= padded <= u64::MAX,
    ensures
        has_root_of_unity(padded as u64),
{
    if height != 0 {
        assert(is_power_of_two(padded));
        let k = choose|k: nat| pow2(k) == padded;
        assert(pow2(k) == padded);
        lemma2_to64_rest();
        if k > 32 {
            if k > 33 {
                lemma_pow2_strictly_increases(33, k);
            }
            assert(pow2(k) >= pow2(33));
            assert(false);
        }
        assert(k <= 32 && pow2(k) == padded as u64);
    }
}

/// All entries are canonical base field elements, and every row reaches the
/// state elements that the processor hands in.
pub open spec fn is_base_matrix(matrix: Seq<Vec<u64>>) -> bool {
    forall|k: int|
        0 <= k < matrix.len() ==> (#[trigger] matrix[k])@.len() > STATE11 && forall|j: int|
            0 <= j < matrix[k]@.len() ==> matrix[k]@[j] < P
}

pub open spec fn rows_of(matrix: Seq<Vec<u64>>) -> Seq<Seq<u64>> {
    matrix.map_values(|row: Vec<u64>| row@)
}


impl HashTable {
    /// The base table that the prover fills with `matrix`, padded to a power
    /// of two.
    pub fn new_prover(num_trace_randomizers: usize, matrix: Vec<Vec<u64>>) -> (r: HashTable)
        requires
            matrix@.len() <= usize::MAX / 2 + 1,
            matrix@.len() <= 0x1_0000_0000,
        ensures
            r.base_width == BASE_WIDTH,
            r.full_width == FULL_WIDTH,
            is_padded_height(matrix@.len() as int, r.padded_height as int),
            primitive_root_of_unity(r.padded_height as u64) == Some(r.omicron),
            r.num_trace_randomizers == num_trace_randomizers,
            r.matrix@ == matrix@,
            r.name@ == "HashTable"@,
    {
        let unpadded_height = matrix.len();
        let padded_height = pad_height(unpadded_height);
        proof {
            lemma_padded_height_has_root(unpadded_height as int, padded_height as int);
        }
        let omicron = derive_omicron(padded_height as u64);
        HashTable {
            base_width: BASE_WIDTH,
            full_width: FULL_WIDTH,
            padded_height,
            num_trace_randomizers,
            omicron,
            matrix,
            name: "HashTable".to_owned(),
        }
    }

    /// The table over `codewords`, the low-degree extension of the base
    /// columns over the FRI domain, which is computed outside this library and
    /// handed in. All parameters are kept.
    pub fn codeword_table(&self, codewords: Vec<Vec<u64>>) -> (r: Self)
        ensures
            r.base_width == self.base_width,
            r.full_width == self.full_width,
            r.padded_height == self.padded_height,
            r.num_trace_randomizers == self.num_trace_randomizers,
            r.omicron == self.omicron,
            r.name@ == self.name@,
            r.matrix@ == codewords@,
    {
        HashTable {
            base_width: self.base_width,
            full_width: self.full_width,
            padded_height: self.padded_height,
            num_trace_randomizers: self.num_trace_randomizers,
            omicron: self.omicron,
            matrix: codewords,
            name: self.name.clone(),
        }
    }

    /// A row of zeros, appended to pad the table.
    pub fn get_padding_row(&self) -> (r: Vec<u64>)
        ensures
            r@ == Seq::new(BASE_WIDTH as nat, |i: int| 0u64),
    {
        let mut r = Vec::new();
        let mut i: usize = 0;
        while i < BASE_WIDTH
            invariant
                i <= BASE_WIDTH,
                r@ == Seq::new(i as nat, |j: int| 0u64),
            decreases BASE_WIDTH - i,
        {
            r.push(0);
            i = i + 1;
            assert(r@ =~= Seq::new(i as nat, |j: int| 0u64));
        }
        r
    }

    /// The extension table over `matrix`, with this table's parameters and the
    /// given constraints.
    fn extension(
        &self,
        matrix: Vec<Vec<Xfe>>,
        boundary_constraints: Vec<FactoredPolynomial>,
        transition_constraints: Vec<FactoredPolynomial>,
        consistency_constraints: Vec<FactoredPolynomial>,
        terminal_constraints: Vec<FactoredPolynomial>,
    ) -> (r: ExtHashTable)
        ensures
            r.base_width == self.base_width,
            r.full_width == self.full_width,
            r.padded_height == self.padded_height,
            r.num_trace_randomizers == self.num_trace_randomizers,
            r.omicron == lift_spec(self.omicron),
            r.name@ == self.name@,
            r.matrix@ == matrix@,
            r.boundary_constraints == Some(boundary_constraints),
            r.transition_constraints == Some(transition_constraints),
            r.consistency_constraints == Some(consistency_constraints),
            r.terminal_constraints == Some(terminal_constraints),
    {
        ExtHashTable {
            base_width: self.base_width,
            full_width: self.full_width,
            padded_height: self.padded_height,
            num_trace_randomizers: self.num_trace_randomizers,
            omicron: Xfe::lift(self.omicron),
            matrix,
            name: self.name.clone(),
            boundary_constraints: Some(boundary_constraints),
            transition_constraints: Some(transition_constraints),
            consistency_constraints: Some(consistency_constraints),
            terminal_constraints: Some(terminal_constraints),
        }
    }

    /// The extension table that the verifier works with: it has no rows, only
    /// the parameters and the constraints. The padded height must have a root
    /// of unity of its order, or no omicron can be built (see `derive_omicron`).
    pub fn for_verifier(
        num_trace_randomizers: usize,
        padded_height: usize,
        challenges: &HashTableChallenges,
        terminals: &HashTableEndpoints,
    ) -> (r: ExtHashTable)
        requires
            has_root_of_unity(padded_height as u64),
        ensures
            r.base_width == BASE_WIDTH,
            r.full_width == FULL_WIDTH,
            r.padded_height == padded_height,
            r.num_trace_randomizers == num_trace_randomizers,
            primitive_root_of_unity(padded_height as u64) == Some(r.omicron.c0),
            r.omicron == lift_spec(r.omicron.c0),
            r.name@ == "ExtHashTable"@,
            r.matrix@.len() == 0,
            r.boundary_constraints matches Some(c) && polynomials_are(
                c@,
                FULL_WIDTH as int,
                boundary_constraints_spec(),
            ),
            r.transition_constraints matches Some(c) && polynomials_are(
                c@,
                2 * FULL_WIDTH,
                transition_constraints_spec(),
            ),
            r.consistency_constraints matches Some(c) && polynomials_are(
                c@,
                FULL_WIDTH as int,
                consistency_constraints_spec(),
            ),
            r.terminal_constraints matches Some(c) && c@.len() == 0,
    {
        let omicron = derive_omicron(padded_height as u64);
        let base_table = HashTable {
            base_width: BASE_WIDTH,
            full_width: FULL_WIDTH,
            padded_height,
            num_trace_randomizers,
            omicron,
            matrix: Vec::new(),
            name: "ExtHashTable".to_owned(),
        };
        let empty_matrix: Vec<Vec<Xfe>> = Vec::new();
        base_table.extension(
            empty_matrix,
            ExtHashTable::ext_boundary_constraints(),
            ExtHashTable::ext_transition_constraints(challenges),
            ExtHashTable::ext_consistency_constraints(),
            ExtHashTable::ext_terminal_constraints(challenges, terminals),
        )
    }
}

/// Both are absent, or both hold the same polynomials.
pub open spec fn same_constraints(
    a: Option<Vec<FactoredPolynomial>>,
    b: Option<Vec<FactoredPolynomial>>,
) -> bool {
    match (a, b) {
        (Some(x), Some(y)) => same_polynomials(x@, y@),
        (None, None) => true,
        _ => false,
    }
}

fn copy_constraints(c: &Option<Vec<FactoredPolynomial>>) -> (r: Option<Vec<FactoredPolynomial>>)
    ensures
        same_constraints(r, *c),
{
    match c {
        Some(ps) => Some(copy_polynomials(ps)),
        None => None,
    }
}

impl ExtHashTable {
    /// An extension table of the given height with no rows and no constraints yet.
    /// The padded height must have a root of unity of its order, or no omicron
    /// can be built (see `derive_omicron`).
    pub fn with_padded_height(num_trace_randomizers: usize, padded_height: usize) -> (r: Self)
        requires
            has_root_of_unity(padded_height as u64),
        ensures
            r.base_width == BASE_WIDTH,
            r.full_width == FULL_WIDTH,
            r.padded_height == padded_height,
            r.num_trace_randomizers == num_trace_randomizers,
            primitive_root_of_unity(padded_height as u64) == Some(r.omicron.c0),
            r.omicron == lift_spec(r.omicron.c0),
            r.name@ == "ExtHashTable"@,
            r.matrix@.len() == 0,
            r.boundary_constraints is None,
            r.transition_constraints is None,
            r.consistency_constraints is None,
            r.terminal_constraints is None,
    {
        let matrix: Vec<Vec<Xfe>> = Vec::new();
        let omicron = derive_omicron(padded_height as u64);
        ExtHashTable {
            base_width: BASE_WIDTH,
            full_width: FULL_WIDTH,
            padded_height,
            num_trace_randomizers,
            omicron: Xfe::lift(omicron),
            matrix,
            name: "ExtHashTable".to_owned(),
            boundary_constraints: None,
            transition_constraints: None,
            consistency_constraints: None,
            terminal_constraints: None,
        }
    }

    /// The table over the given codewords: the base codewords, lifted into the
    /// extension field, followed by `ext_codewords`, the low-degree extension of
    /// the extension columns over the FRI domain, which is computed outside this
    /// library and handed in. All parameters and constraints are kept.
    pub fn ext_codeword_table(
        &self,
        ext_codewords: Vec<Vec<Xfe>>,
        base_codewords: &[Vec<u64>],
    ) -> (r: Self)
        requires
            self.full_width == base_codewords@.len() + ext_codewords@.len(),
        ensures
            r.base_width == self.base_width,
            r.full_width == self.full_width,
            r.padded_height == self.padded_height,
            r.num_trace_randomizers == self.num_trace_randomizers,
            r.omicron == self.omicron,
            r.name@ == self.name@,
            r.matrix@.len() == self.full_width,
            forall|i: int|
                0 <= i < base_codewords@.len() ==> (#[trigger] r.matrix@[i])@ == lift_row(
                    base_codewords@[i]@,
                ),
            forall|j: int|
                0 <= j < ext_codewords@.len() ==> #[trigger] r.matrix@[base_codewords@.len() + j]
                    == ext_codewords@[j],
            same_constraints(r.boundary_constraints, self.boundary_constraints),
            same_constraints(r.transition_constraints, self.transition_constraints),
            same_constraints(r.consistency_constraints, self.consistency_constraints),
            same_constraints(r.terminal_constraints, self.terminal_constraints),
    {
        let mut all_codewords: Vec<Vec<Xfe>> = Vec::new();
        let mut i: usize = 0;
        while i < base_codewords.len()
            invariant
                i <= base_codewords@.len(),
                all_codewords@.len() == i,
                forall|j: int|
                    0 <= j < i ==> (#[trigger] all_codewords@[j])@ == lift_row(
                        base_codewords@[j]@,
                    ),
            decreases base_codewords@.len() - i,
        {
            all_codewords.push(lift_base_row(&base_codewords[i]));
            i = i + 1;
        }
        let n = base_codewords.len();
        let mut ext_codewords = ext_codewords;
        let ghost ext = ext_codewords@;
        all_codewords.append(&mut ext_codewords);
        assert(all_codewords@.len() == self.full_width);
        assert forall|j: int| 0 <= j < ext.len() implies #[trigger] all_codewords@[n + j] == ext[j] by {
        }
        ExtHashTable {
            base_width: self.base_width,
            full_width: self.full_width,
            padded_height: self.padded_height,
            num_trace_randomizers: self.num_trace_randomizers,
            omicron: self.omicron,
            matrix: all_codewords,
            name: self.name.clone(),
            boundary_constraints: copy_constraints(&self.boundary_constraints),
            transition_constraints: copy_constraints(&self.transition_constraints),
            consistency_constraints: copy_constraints(&self.consistency_constraints),
            terminal_constraints: copy_constraints(&self.terminal_constraints),
        }
    }

    pub fn dynamic_boundary_constraints(&self) -> (r: Vec<FactoredPolynomial>)
        ensures
            polynomials_are(r@, FULL_WIDTH as int, boundary_constraints_spec()),
    {
        ExtHashTable::ext_boundary_constraints()
    }

    pub fn dynamic_transition_constraints(&self, challenges: &HashTableChallenges) -> (r: Vec<
        FactoredPolynomial,
    >)
        ensures
            polynomials_are(r@, 2 * FULL_WIDTH, transition_constraints_spec()),
    {
        ExtHashTable::ext_transition_constraints(challenges)
    }

    pub fn dynamic_consistency_constraints(&self) -> (r: Vec<FactoredPolynomial>)
        ensures
            polynomials_are(r@, FULL_WIDTH as int, consistency_constraints_spec()),
    {
        ExtHashTable::ext_consistency_constraints()
    }

    pub fn dynamic_terminal_constraints(
        &self,
        challenges: &HashTableChallenges,
        terminals: &HashTableEndpoints,
    ) -> (r: Vec<FactoredPolynomial>)
        ensures
            r@.len() == 0,
    {
        ExtHashTable::ext_terminal_constraints(challenges, terminals)
    }
}


// ---------------------------------------------------------------------------
// Extension of the base rows
// ---------------------------------------------------------------------------

/// Each base field element of `row`, lifted into the extension field.
pub open spec fn lift_row(row: Seq<u64>) -> Seq<Xfe> {
    row.map_values(|b: u64| lift_spec(b))
}

/// Σ_{i < n} weights[i] · states[STATE0 + i], added up from i = 0, starting from 0.
pub open spec fn weighted_sum(states: Seq<Xfe>, weights: Seq<Xfe>, n: nat) -> Xfe
    decreases n,
{
    if n == 0 {
        xfe_zero()
    } else {
        xfe_add_spec(
            weighted_sum(states, weights, (n - 1) as nat),
            xfe_mul_spec(weights[n - 1], states[STATE0 + n - 1]),
        )
    }
}

/// State elements 0 to 11 of `row`, compressed with the stack input weights.
pub open spec fn compressed_state_for_input(row: Seq<u64>, challenges: HashTableChallenges) -> Xfe {
    weighted_sum(lift_row(row), challenges.stack_input_weights@, 12)
}

/// State elements 0 to 5 of `row` (the digest), compressed with the digest output weights.
pub open spec fn compressed_state_for_output(
    row: Seq<u64>,
    challenges: HashTableChallenges,
) -> Xfe {
    weighted_sum(lift_row(row), challenges.digest_output_weights@, 6)
}

/// The evaluation argument with the processor's hash inputs before row `k`:
/// every row in round 1 folds its compressed input into the running sum.
pub open spec fn from_processor_running_evaluation(
    rows: Seq<Seq<u64>>,
    challenges: HashTableChallenges,
    initial: Xfe,
    k: nat,
) -> Xfe
    decreases k,
{
    if k == 0 {
        initial
    } else {
        let prev = from_processor_running_evaluation(rows, challenges, initial, (k - 1) as nat);
        let row = rows[k - 1];
        if row[ROUNDNUMBER as int] == 1 {
            xfe_add_spec(
                xfe_mul_spec(prev, challenges.from_processor_eval_row_weight),
                compressed_state_for_input(row, challenges),
            )
        } else {
            prev
        }
    }
}

/// The evaluation argument with the processor's hash outputs before row `k`:
/// every row in round 8 folds its compressed digest into the running sum.
pub open spec fn to_processor_running_evaluation(
    rows: Seq<Seq<u64>>,
    challenges: HashTableChallenges,
    initial: Xfe,
    k: nat,
) -> Xfe
    decreases k,
{
    if k == 0 {
        initial
    } else {
        let prev = to_processor_running_evaluation(rows, challenges, initial, (k - 1) as nat);
        let row = rows[k - 1];
        if row[ROUNDNUMBER as int] == 8 {
            xfe_add_spec(
                xfe_mul_spec(prev, challenges.to_processor_eval_row_weight),
                compressed_state_for_output(row, challenges),
            )
        } else {
            prev
        }
    }
}

/// Extension row `k`: the lifted base row, then the compressed input, the
/// running sum from the processor, the compressed digest and the running sum
/// to the processor, each running sum as it stands before row `k`.
pub open spec fn extended_row(
    rows: Seq<Seq<u64>>,
    challenges: HashTableChallenges,
    initials: HashTableEndpoints,
    k: int,
) -> Seq<Xfe> {
    lift_row(rows[k]) + seq![
        compressed_state_for_input(rows[k], challenges),
        from_processor_running_evaluation(rows, challenges, initials.from_processor_eval_sum, k as nat),
        compressed_state_for_output(rows[k], challenges),
        to_processor_running_evaluation(rows, challenges, initials.to_processor_eval_sum, k as nat),
    ]
}

/// Σ_{i < n} weights[i] · states[STATE0 + i].
fn compress_states(states: &Vec<Xfe>, weights: &[Xfe], n: usize) -> (r: Xfe)
    requires
        n <= weights@.len(),
        STATE0 + n <= states@.len(),
    ensures
        r == weighted_sum(states@, weights@, n as nat),
{
    let mut sum = Xfe::zero();
    let mut i: usize = 0;
    while i < n
        invariant
            i <= n,
            n <= weights@.len(),
            STATE0 + n <= states@.len(),
            sum == weighted_sum(states@, weights@, i as nat),
        decreases n - i,
    {
        let summand = xfe_mul(weights[i], states[STATE0 + i]);
        sum = xfe_add(sum, summand);
        i = i + 1;
    }
    sum
}

/// The base row, each element lifted into the extension field.
fn lift_base_row(row: &Vec<u64>) -> (r: Vec<Xfe>)
    ensures
        r@ == lift_row(row@),
{
    let mut r: Vec<Xfe> = Vec::new();
    let mut j: usize = 0;
    while j < row.len()
        invariant
            j <= row@.len(),
            r@ == lift_row(row@.take(j as int)),
        decreases row@.len() - j,
    {
        r.push(Xfe::lift(row[j]));
        assert(lift_row(row@.take(j + 1)) =~= lift_row(row@.take(j as int)).push(lift_spec(row@[j as int])));
        j = j + 1;
    }
    assert(row@.take(row@.len() as int) =~= row@);
    r
}

impl HashTable {
    /// Extends every row with the compressed hash input and digest and with the
    /// running evaluations of the two evaluation arguments with the processor
    /// table, which start from `initials`; returns the extension table and the
    /// running evaluations after the last row.
    pub fn extend(&self, challenges: &HashTableChallenges, initials: &HashTableEndpoints) -> (r: (
        ExtHashTable,
        HashTableEndpoints,
    ))
        requires
            is_base_matrix(self.matrix@),
        ensures
            ({
                let rows = rows_of(self.matrix@);
                let (ext, terminals) = r;
                &&& ext.base_width == self.base_width
                &&& ext.full_width == self.full_width
                &&& ext.padded_height == self.padded_height
                &&& ext.num_trace_randomizers == self.num_trace_randomizers
                &&& ext.omicron == lift_spec(self.omicron)
                &&& ext.name@ == self.name@
                &&& ext.matrix@.len() == rows.len()
                &&& forall|k: int|
                    0 <= k < rows.len() ==> (#[trigger] ext.matrix@[k])@ == extended_row(
                        rows,
                        *challenges,
                        *initials,
                        k,
                    )
                &&& terminals.from_processor_eval_sum == from_processor_running_evaluation(
                    rows,
                    *challenges,
                    initials.from_processor_eval_sum,
                    rows.len(),
                )
                &&& terminals.to_processor_eval_sum == to_processor_running_evaluation(
                    rows,
                    *challenges,
                    initials.to_processor_eval_sum,
                    rows.len(),
                )
                &&& ext.boundary_constraints matches Some(c) && polynomials_are(
                    c@,
                    FULL_WIDTH as int,
                    boundary_constraints_spec(),
                )
                &&& ext.transition_constraints matches Some(c) && polynomials_are(
                    c@,
                    2 * FULL_WIDTH,
                    transition_constraints_spec(),
                )
                &&& ext.consistency_constraints matches Some(c) && polynomials_are(
                    c@,
                    FULL_WIDTH as int,
                    consistency_constraints_spec(),
                )
                &&& ext.terminal_constraints matches Some(c) && c@.len() == 0
            }),
    {
        let ghost rows = rows_of(self.matrix@);
        let mut from_processor_running_sum = initials.from_processor_eval_sum;
        let mut to_processor_running_sum = initials.to_processor_eval_sum;

        let n = self.matrix.len();
        let mut extension_matrix: Vec<Vec<Xfe>> = Vec::new();
        let mut k: usize = 0;
        while k < n
            invariant
                n == self.matrix@.len(),
                rows == rows_of(self.matrix@),
                is_base_matrix(self.matrix@),
                k <= n,
                extension_matrix@.len() == k,
                forall|j: int|
                    0 <= j < k ==> (#[trigger] extension_matrix@[j])@ == extended_row(
                        rows,
                        *challenges,
                        *initials,
                        j,
                    ),
                from_processor_running_sum == from_processor_running_evaluation(
                    rows,
                    *challenges,
                    initials.from_processor_eval_sum,
                    k as nat,
                ),
                to_processor_running_sum == to_processor_running_evaluation(
                    rows,
                    *challenges,
                    initials.to_processor_eval_sum,
                    k as nat,
                ),
            decreases n - k,
        {
            let row = &self.matrix[k];
            assert(row@ == rows[k as int]);
            let mut extension_row = lift_base_row(row);

            // Compress input values into single value (independent of round index)
            let compressed_state_for_input = compress_states(
                &extension_row,
                challenges.stack_input_weights.as_slice(),
                12,
            );
            // Compress digest values into single value (independent of round index)
            let compressed_state_for_output = compress_states(
                &extension_row,
                challenges.digest_output_weights.as_slice(),
                6,
            );

            extension_row.push(compressed_state_for_input);
            // Add compressed input to running sum if round index marks beginning of hashing
            extension_row.push(from_processor_running_sum);
            if row[ROUNDNUMBER] == 1 {
                from_processor_running_sum = xfe_add(
                    xfe_mul(from_processor_running_sum, challenges.from_processor_eval_row_weight),
                    compressed_state_for_input,
                );
            }
            extension_row.push(compressed_state_for_output);
            // Add compressed digest to running sum if round index marks end of hashing
            extension_row.push(to_processor_running_sum);
            if row[ROUNDNUMBER] == 8 {
                to_processor_running_sum = xfe_add(
                    xfe_mul(to_processor_running_sum, challenges.to_processor_eval_row_weight),
                    compressed_state_for_output,
                );
            }
            assert(extension_row@ =~= extended_row(rows, *challenges, *initials, k as int));
            extension_matrix.push(extension_row);
            k = k + 1;
        }

        let terminals = HashTableEndpoints {
            from_processor_eval_sum: from_processor_running_sum,
            to_processor_eval_sum: to_processor_running_sum,
        };

        let extension_table = self.extension(
            extension_matrix,
            ExtHashTable::ext_boundary_constraints(),
            ExtHashTable::ext_transition_constraints(challenges),
            ExtHashTable::ext_consistency_constraints(),
            ExtHashTable::ext_terminal_constraints(challenges, &terminals),
        );
        (extension_table, terminals)
    }
}

// ---------------------------------------------------------------------------
// Laws of the evaluation arguments
// ---------------------------------------------------------------------------

/// The number of the first `n` rows whose round number is `round`.
pub open spec fn rows_in_round(rows: Seq<Seq<u64>>, round: u64, n: nat) -> nat
    decreases n,
{
    if n == 0 {
        0
    } else {
        rows_in_round(rows, round, (n - 1) as nat) + if rows[n - 1][ROUNDNUMBER as int] == round {
            1nat
        } else {
            0nat
        }
    }
}

/// d · w^k, multiplied out from the left: (((d · w) · w) · ...) · w.
pub open spec fn times_power(d: Xfe, w: Xfe, k: nat) -> Xfe
    decreases k,
{
    if k == 0 {
        d
    } else {
        xfe_mul_spec(times_power(d, w, (k - 1) as nat), w)
    }
}

/// Raising the initial value of the evaluation argument with the processor's
/// hash inputs by `d` raises its value after `n` rows by d · w^k, where w is
/// the row weight and k the number of those rows in round 1.
pub proof fn law_from_processor_evaluation_shifts_with_initial(
    rows: Seq<Seq<u64>>,
    challenges: HashTableChallenges,
    initial: Xfe,
    d: Xfe,
    n: nat,
)
    ensures
        from_processor_running_evaluation(rows, challenges, xfe_add_spec(initial, d), n)
            == xfe_add_spec(
            from_processor_running_evaluation(rows, challenges, initial, n),
            times_power(d, challenges.from_processor_eval_row_weight, rows_in_round(rows, 1, n)),
        ),
    decreases n,
{
    if n > 0 {
        let m = (n - 1) as nat;
        law_from_processor_evaluation_shifts_with_initial(rows, challenges, initial, d, m);
        let w = challenges.from_processor_eval_row_weight;
        let prev = from_processor_running_evaluation(rows, challenges, initial, m);
        let shift = times_power(d, w, rows_in_round(rows, 1, m));
        if rows[m as int][ROUNDNUMBER as int] == 1 {
            lemma_mul_distributes_over_add(prev, shift, w);
            lemma_add_swap(
                xfe_mul_spec(prev, w),
                xfe_mul_spec(shift, w),
                compressed_state_for_input(rows[m as int], challenges),
            );
        }
    }
}

/// Raising the initial value of the evaluation argument with the processor's
/// hash outputs by `d` raises its value after `n` rows by d · w^k, where w is
/// the row weight and k the number of those rows in round 8.
pub proof fn law_to_processor_evaluation_shifts_with_initial(
    rows: Seq<Seq<u64>>,
    challenges: HashTableChallenges,
    initial: Xfe,
    d: Xfe,
    n: nat,
)
    ensures
        to_processor_running_evaluation(rows, challenges, xfe_add_spec(initial, d), n)
            == xfe_add_spec(
            to_processor_running_evaluation(rows, challenges, initial, n),
            times_power(d, challenges.to_processor_eval_row_weight, rows_in_round(rows, 8, n)),
        ),
    decreases n,
{
    if n > 0 {
        let m = (n - 1) as nat;
        law_to_processor_evaluation_shifts_with_initial(rows, challenges, initial, d, m);
        let w = challenges.to_processor_eval_row_weight;
        let prev = to_processor_running_evaluation(rows, challenges, initial, m);
        let shift = times_power(d, w, rows_in_round(rows, 8, m));
        if rows[m as int][ROUNDNUMBER as int] == 8 {
            lemma_mul_distributes_over_add(prev, shift, w);
            lemma_add_swap(
                xfe_mul_spec(prev, w),
                xfe_mul_spec(shift, w),
                compressed_state_for_output(rows[m as int], challenges),
            );
        }
    }
}

/// Inserting a row that is not in round 1 at position `i` only delays the
/// evaluation argument with the processor's hash inputs by one row.
proof fn lemma_from_processor_evaluation_insert(
    rows: Seq<Seq<u64>>,
    row: Seq<u64>,
    i: int,
    challenges: HashTableChallenges,
    initial: Xfe,
    k: nat,
)
    requires
        0 <= i <= rows.len(),
        k <= rows.len() + 1,
        row[ROUNDNUMBER as int] != 1,
    ensures
        from_processor_running_evaluation(rows.insert(i, row), challenges, initial, k) == if k
            <= i {
            from_processor_running_evaluation(rows, challenges, initial, k)
        } else {
            from_processor_running_evaluation(rows, challenges, initial, (k - 1) as nat)
        },
    decreases k,
{
    if k > 0 {
        lemma_from_processor_evaluation_insert(rows, row, i, challenges, initial, (k - 1) as nat);
        let rows2 = rows.insert(i, row);
        if k - 1 < i {
            assert(rows2[k - 1] == rows[k - 1]);
        } else if k - 1 == i {
            assert(rows2[k - 1] == row);
        } else {
            assert(rows2[k - 1] == rows[k - 2]);
        }
    }
}

/// Inserting a row that is not in round 8 at position `i` only delays the
/// evaluation argument with the processor's hash outputs by one row.
proof fn lemma_to_processor_evaluation_insert(
    rows: Seq<Seq<u64>>,
    row: Seq<u64>,
    i: int,
    challenges: HashTableChallenges,
    initial: Xfe,
    k: nat,
)
    requires
        0 <= i <= rows.len(),
        k <= rows.len() + 1,
        row[ROUNDNUMBER as int] != 8,
    ensures
        to_processor_running_evaluation(rows.insert(i, row), challenges, initial, k) == if k <= i {
            to_processor_running_evaluation(rows, challenges, initial, k)
        } else {
            to_processor_running_evaluation(rows, challenges, initial, (k - 1) as nat)
        },
    decreases k,
{
    if k > 0 {
        lemma_to_processor_evaluation_insert(rows, row, i, challenges, initial, (k - 1) as nat);
        let rows2 = rows.insert(i, row);
        if k - 1 < i {
            assert(rows2[k - 1] == rows[k - 1]);
        } else if k - 1 == i {
            assert(rows2[k - 1] == row);
        } else {
            assert(rows2[k - 1] == rows[k - 2]);
        }
    }
}

/// Only rows in round 1 or 8 affect the terminals: inserting (or, read the
/// other way, removing) a row whose round number is neither 1 nor 8 leaves
/// both terminal values of the evaluation arguments unchanged.
pub proof fn law_rows_outside_rounds_1_and_8_leave_terminals(
    rows: Seq<Seq<u64>>,
    row: Seq<u64>,
    i: int,
    challenges: HashTableChallenges,
    initials: HashTableEndpoints,
)
    requires
        0 <= i <= rows.len(),
        row[ROUNDNUMBER as int] != 1,
        row[ROUNDNUMBER as int] != 8,
    ensures
        from_processor_running_evaluation(
            rows.insert(i, row),
            challenges,
            initials.from_processor_eval_sum,
            rows.len() + 1,
        ) == from_processor_running_evaluation(
            rows,
            challenges,
            initials.from_processor_eval_sum,
            rows.len(),
        ),
        to_processor_running_evaluation(
            rows.insert(i, row),
            challenges,
            initials.to_processor_eval_sum,
            rows.len() + 1,
        ) == to_processor_running_evaluation(
            rows,
            challenges,
            initials.to_processor_eval_sum,
            rows.len(),
        ),
{
    lemma_from_processor_evaluation_insert(
        rows,
        row,
        i,
        challenges,
        initials.from_processor_eval_sum,
        rows.len() + 1,
    );
    lemma_to_processor_evaluation_insert(
        rows,
        row,
        i,
        challenges,
        initials.to_processor_eval_sum,
        rows.len() + 1,
    );
}

// ---------------------------------------------------------------------------
// Laws of the compression of the state
// ---------------------------------------------------------------------------

/// The compression is linear in every state element it reads: adding `d` to
/// state element `j` (j < n) adds weights[j] · d to the weighted sum, whatever
/// the states are; a state element beyond the first `n` changes nothing.
pub proof fn law_weighted_sum_is_linear(
    states: Seq<Xfe>,
    weights: Seq<Xfe>,
    j: int,
    d: Xfe,
    n: nat,
)
    requires
        0 <= j,
        STATE0 + j < states.len(),
        STATE0 + n <= states.len(),
    ensures
        weighted_sum(
            states.update(STATE0 + j, xfe_add_spec(states[STATE0 + j], d)),
            weights,
            n,
        ) == if j < n {
            xfe_add_spec(weighted_sum(states, weights, n), xfe_mul_spec(weights[j], d))
        } else {
            weighted_sum(states, weights, n)
        },
    decreases n,
{
    if n > 0 {
        let m = (n - 1) as nat;
        law_weighted_sum_is_linear(states, weights, j, d, m);
        let changed = states.update(STATE0 + j, xfe_add_spec(states[STATE0 + j], d));
        let w = weights[m as int];
        let before = weighted_sum(states, weights, m);
        if m == j {
            lemma_mul_distributes_over_add_left(w, states[STATE0 + j], d);
            lemma_add_associates(before, xfe_mul_spec(w, states[STATE0 + j]), xfe_mul_spec(w, d));
        } else if m > j {
            assert(changed[STATE0 + m] == states[STATE0 + m]);
            lemma_add_swap(before, xfe_mul_spec(weights[j], d), xfe_mul_spec(w, states[STATE0 + m]));
        } else {
            assert(changed[STATE0 + m] == states[STATE0 + m]);
        }
    }
}

/// States that are all zero compress to zero.
pub proof fn law_weighted_sum_of_zero_states(states: Seq<Xfe>, weights: Seq<Xfe>, n: nat)
    requires
        forall|i: int| 0 <= i < n ==> #[trigger] states[STATE0 + i] == xfe_zero(),
    ensures
        weighted_sum(states, weights, n) == xfe_zero(),
    decreases n,
{
    if n > 0 {
        let m = (n - 1) as nat;
        law_weighted_sum_of_zero_states(states, weights, m);
        assert(states[STATE0 + m] == xfe_zero());
        lemma_mul_zero(weights[m as int]);
    }
}

/// Lifting a row in which one base field entry grew by `v` gives the lifted
/// row with that entry grown by lift(v).
proof fn lemma_lift_row_update(row: Seq<u64>, c: int, v: u64)
    requires
        0 <= c < row.len(),
    ensures
        lift_row(row.update(c, fmod(row[c] + v))) == lift_row(row).update(
            c,
            xfe_add_spec(lift_row(row)[c], lift_spec(v)),
        ),
{
    lemma_add_lift(row[c], v);
    assert(lift_row(row.update(c, fmod(row[c] + v))) =~= lift_row(row).update(
        c,
        xfe_add_spec(lift_row(row)[c], lift_spec(v)),
    ));
}

/// Adding `v` to state element j < 12 of a row adds
/// stack_input_weights[j] · v to its compressed input, whatever the row holds.
pub proof fn law_compressed_input_is_linear(
    row: Seq<u64>,
    challenges: HashTableChallenges,
    j: int,
    v: u64,
)
    requires
        0 <= j < 12,
        STATE0 + 12 <= row.len(),
    ensures
        compressed_state_for_input(
            row.update(STATE0 + j, fmod(row[STATE0 + j] + v)),
            challenges,
        ) == xfe_add_spec(
            compressed_state_for_input(row, challenges),
            xfe_mul_spec(challenges.stack_input_weights@[j], lift_spec(v)),
        ),
{
    lemma_lift_row_update(row, STATE0 + j, v);
    law_weighted_sum_is_linear(lift_row(row), challenges.stack_input_weights@, j, lift_spec(v), 12);
}

/// Adding `v` to state element j < 6 of a row adds
/// digest_output_weights[j] · v to its compressed digest, whatever the row holds.
pub proof fn law_compressed_output_is_linear(
    row: Seq<u64>,
    challenges: HashTableChallenges,
    j: int,
    v: u64,
)
    requires
        0 <= j < 6,
        STATE0 + 6 <= row.len(),
    ensures
        compressed_state_for_output(
            row.update(STATE0 + j, fmod(row[STATE0 + j] + v)),
            challenges,
        ) == xfe_add_spec(
            compressed_state_for_output(row, challenges),
            xfe_mul_spec(challenges.digest_output_weights@[j], lift_spec(v)),
        ),
{
    lemma_lift_row_update(row, STATE0 + j, v);
    law_weighted_sum_is_linear(lift_row(row), challenges.digest_output_weights@, j, lift_spec(v), 6);
}

/// A row whose only non-zero state element among the first 12 is element j,
/// with value v, compresses to stack_input_weights[j] · v.
pub proof fn law_compressed_input_of_one_state(
    row: Seq<u64>,
    challenges: HashTableChallenges,
    j: int,
    v: u64,
)
    requires
        0 <= j < 12,
        STATE0 + 12 <= row.len(),
        forall|i: int| 0 <= i < 12 ==> #[trigger] row[STATE0 + i] == 0,
    ensures
        compressed_state_for_input(row.update(STATE0 + j, fmod(v as int)), challenges)
            == xfe_mul_spec(challenges.stack_input_weights@[j], lift_spec(v)),
{
    let weights = challenges.stack_input_weights@;
    assert forall|i: int| 0 <= i < 12 implies #[trigger] lift_row(row)[STATE0 + i] == xfe_zero() by {
        assert(row[STATE0 + i] == 0);
    }
    law_weighted_sum_of_zero_states(lift_row(row), weights, 12);
    assert(row[STATE0 + j] + v == v);
    law_compressed_input_is_linear(row, challenges, j, v);
    lemma_zero_add(xfe_mul_spec(weights[j], lift_spec(v)));
}

} // verus!
