//! The constraints (AIR) of the hash table as products of linear factors, the
//! direct evaluation of its consistency constraints, and what the constraints
//! allow and force.
use crate::field::{
    fmod, lemma_mul_lift, lemma_scale_one, lemma_scale_scale, lemma_scale_zero_inverse,
    lemma_mul_congruent_right, lemma_sub_lift, lemma_sub_self, lemma_sub_zero,
    lemma_sub_zero_congruent, lift_spec, scale, xfe_mul, xfe_mul_spec,
    xfe_one, xfe_sub, xfe_sub_spec, xfe_zero, Xfe, P,
};
use crate::hash_table::{
    ExtHashTable, HashTableChallenges, HashTableEndpoints, FULL_WIDTH, ROUNDNUMBER, STATE12,
    STATE15,
};
use crate::polynomial::{
    factor_value, lemma_product_push, lemma_zero_factor, lf, product_value, FactoredPolynomial,
    LinearFactor,
};
use vstd::prelude::*;

verus! {

// ---------------------------------------------------------------------------
// The constraints, as products of linear factors
// ---------------------------------------------------------------------------

/// The factors (round_number - r) for r = 0, ..., n - 1, leaving out r = x.
pub open spec fn not_factors(x: u64, n: nat) -> Seq<LinearFactor>
    decreases n,
{
    if n == 0 {
        Seq::empty()
    } else {
        let prev = not_factors(x, (n - 1) as nat);
        if n - 1 == x {
            prev
        } else {
            prev.push(lf(ROUNDNUMBER, (n - 1) as u64))
        }
    }
}

/// round_number · (round_number - 1)
pub open spec fn boundary_factors() -> Seq<LinearFactor> {
    seq![lf(ROUNDNUMBER, 0), lf(ROUNDNUMBER, 1)]
}

/// (∏_{r ∈ 0..=8, r ≠ 1} (round_number - r)) · state_column
pub open spec fn consistency_factors(column: usize) -> Seq<LinearFactor> {
    not_factors(1, 9).push(lf(column, 0))
}

/// (round_number_next - y) · ∏_{r ∈ 0..=8, r ≠ x} (round_number - r)
pub open spec fn transition_factors(x: u64, y: u64) -> Seq<LinearFactor> {
    seq![lf((FULL_WIDTH + ROUNDNUMBER) as usize, y)] + not_factors(x, 9)
}

/// The round that follows round `x` within one hash: 0 stays 0, 1..=7 go up by one.
pub open spec fn next_round(x: int) -> u64 {
    if x == 0 {
        0
    } else {
        (x + 1) as u64
    }
}

/// The `i`-th transition constraint; the last one lets round 8 be followed by 0 or 1.
pub open spec fn transition_constraint_factors(i: int) -> Seq<LinearFactor> {
    if i == 8 {
        transition_factors(8, 0).push(lf((FULL_WIDTH + ROUNDNUMBER) as usize, 1))
    } else {
        transition_factors(i as u64, next_round(i))
    }
}

/// `ps` are the polynomials in `n` variables whose factors are `fs`.
pub open spec fn polynomials_are(
    ps: Seq<FactoredPolynomial>,
    n: int,
    fs: Seq<Seq<LinearFactor>>,
) -> bool {
    &&& ps.len() == fs.len()
    &&& forall|i: int|
        0 <= i < ps.len() ==> (#[trigger] ps[i]).num_variables == n && ps[i].factors@ == fs[i]
}

pub open spec fn boundary_constraints_spec() -> Seq<Seq<LinearFactor>> {
    seq![boundary_factors()]
}

pub open spec fn consistency_constraints_spec() -> Seq<Seq<LinearFactor>> {
    Seq::new(4, |k: int| consistency_factors((STATE12 + k) as usize))
}

pub open spec fn transition_constraints_spec() -> Seq<Seq<LinearFactor>> {
    Seq::new(9, |i: int| transition_constraint_factors(i))
}

/// Appends the factors (round_number - r), r ∈ 0..=8, r ≠ x.
fn push_round_number_is_not(x: u64, factors: &mut Vec<LinearFactor>)
    ensures
        final(factors)@ == old(factors)@ + not_factors(x, 9),
{
    let ghost start = factors@;
    let mut r: u64 = 0;
    while r <= 8
        invariant
            r <= 9,
            factors@ == start + not_factors(x, r as nat),
        decreases 9 - r,
    {
        if r != x {
            factors.push(LinearFactor { variable: ROUNDNUMBER, constant: r });
            assert(start + not_factors(x, (r + 1) as nat) =~= (start + not_factors(
                x,
                r as nat,
            )).push(lf(ROUNDNUMBER, r)));
        }
        r = r + 1;
    }
}

/// (round_number_next - y) · ∏_{r ∈ 0..=8, r ≠ x} (round_number - r)
fn if_round_number_is_x_then_round_number_next_is_y(x: u64, y: u64) -> (r: FactoredPolynomial)
    ensures
        r.num_variables == 2 * FULL_WIDTH,
        r.factors@ == transition_factors(x, y),
{
    let mut factors = Vec::new();
    factors.push(LinearFactor { variable: FULL_WIDTH + ROUNDNUMBER, constant: y });
    push_round_number_is_not(x, &mut factors);
    FactoredPolynomial { num_variables: 2 * FULL_WIDTH, factors }
}

/// (∏_{r ∈ 0..=8, r ≠ 1} (round_number - r)) · state_column
fn round_number_is_not_1_or(column: usize) -> (r: FactoredPolynomial)
    ensures
        r.num_variables == FULL_WIDTH,
        r.factors@ == consistency_factors(column),
{
    let mut factors = Vec::new();
    push_round_number_is_not(1, &mut factors);
    factors.push(LinearFactor { variable: column, constant: 0 });
    FactoredPolynomial { num_variables: FULL_WIDTH, factors }
}

impl ExtHashTable {
    /// The round number is 0 or 1 in the first row.
    pub fn ext_boundary_constraints() -> (r: Vec<FactoredPolynomial>)
        ensures
            polynomials_are(r@, FULL_WIDTH as int, boundary_constraints_spec()),
    {
        let mut factors = Vec::new();
        factors.push(LinearFactor { variable: ROUNDNUMBER, constant: 0 });
        factors.push(LinearFactor { variable: ROUNDNUMBER, constant: 1 });
        let mut r = Vec::new();
        r.push(FactoredPolynomial { num_variables: FULL_WIDTH, factors });
        assert(r@[0].factors@ =~= boundary_factors());
        r
    }

    /// In round 1 the capacity (state elements 12 to 15) is zero: each
    /// constraint is ∏_{r ∈ 0..=8, r ≠ 1} (round_number - r) · state, which
    /// vanishes in every other round.
    ///
    /// The table evaluates these constraints directly with
    /// `evaluate_consistency_constraints`; the polynomials agree with it.
    pub fn ext_consistency_constraints() -> (r: Vec<FactoredPolynomial>)
        ensures
            polynomials_are(r@, FULL_WIDTH as int, consistency_constraints_spec()),
    {
        let mut r = Vec::new();
        r.push(round_number_is_not_1_or(STATE12));
        r.push(round_number_is_not_1_or(STATE12 + 1));
        r.push(round_number_is_not_1_or(STATE12 + 2));
        r.push(round_number_is_not_1_or(STATE15));
        r
    }

    /// The round number goes 0 → 0, 1 → 2 → ... → 8, and 8 → 0 or 1.
    pub fn ext_transition_constraints(_challenges: &HashTableChallenges) -> (r: Vec<
        FactoredPolynomial,
    >)
        ensures
            polynomials_are(r@, 2 * FULL_WIDTH, transition_constraints_spec()),
    {
        let mut r = Vec::new();
        r.push(if_round_number_is_x_then_round_number_next_is_y(0, 0));
        r.push(if_round_number_is_x_then_round_number_next_is_y(1, 2));
        r.push(if_round_number_is_x_then_round_number_next_is_y(2, 3));
        r.push(if_round_number_is_x_then_round_number_next_is_y(3, 4));
        r.push(if_round_number_is_x_then_round_number_next_is_y(4, 5));
        r.push(if_round_number_is_x_then_round_number_next_is_y(5, 6));
        r.push(if_round_number_is_x_then_round_number_next_is_y(6, 7));
        r.push(if_round_number_is_x_then_round_number_next_is_y(7, 8));
        // if round number is 8, then round number next is 0 or 1
        let mut last = if_round_number_is_x_then_round_number_next_is_y(8, 0);
        last.factors.push(LinearFactor { variable: FULL_WIDTH + ROUNDNUMBER, constant: 1 });
        r.push(last);
        assert(polynomials_are(r@, 2 * FULL_WIDTH, transition_constraints_spec())) by {
            assert forall|i: int| 0 <= i < 9 implies (#[trigger] r@[i]).num_variables == 2
                * FULL_WIDTH && r@[i].factors@ == transition_constraints_spec()[i] by {
                if i == 8 {
                    assert(r@[i].factors@ =~= transition_constraint_factors(8));
                }
            }
        }
        r
    }

    /// The hash table has no terminal constraints.
    pub fn ext_terminal_constraints(
        _challenges: &HashTableChallenges,
        _terminals: &HashTableEndpoints,
    ) -> (r: Vec<FactoredPolynomial>)
        ensures
            r@.len() == 0,
    {
        Vec::new()
    }
}


// ---------------------------------------------------------------------------
// Direct evaluation of the consistency constraints
// ---------------------------------------------------------------------------

/// ∏_{r ∈ 0..n, r ≠ x} (rn - r), multiplied out from r = 0 upwards, starting from 1.
pub open spec fn round_number_is_not_value(rn: Xfe, x: u64, n: nat) -> Xfe
    decreases n,
{
    if n == 0 {
        xfe_one()
    } else {
        let prev = round_number_is_not_value(rn, x, (n - 1) as nat);
        if n - 1 == x {
            prev
        } else {
            xfe_mul_spec(prev, xfe_sub_spec(rn, lift_spec((n - 1) as u64)))
        }
    }
}

/// The consistency constraint on state column `column`, evaluated at `point`:
/// (∏_{r ∈ 0..=8, r ≠ 1} (round_number - r)) · point[column].
pub open spec fn consistency_value(point: Seq<Xfe>, column: int) -> Xfe {
    xfe_mul_spec(round_number_is_not_value(point[ROUNDNUMBER as int], 1, 9), point[column])
}

impl ExtHashTable {
    /// The four consistency constraints, evaluated directly at `evaluation_point`.
    pub fn evaluate_consistency_constraints(&self, evaluation_point: &[Xfe]) -> (r: Vec<Xfe>)
        requires
            evaluation_point@.len() > STATE15,
        ensures
            r@.len() == 4,
            forall|k: int|
                0 <= k < 4 ==> #[trigger] r@[k] == consistency_value(
                    evaluation_point@,
                    STATE12 + k,
                ),
    {
        let round_number = evaluation_point[ROUNDNUMBER];
        let state12 = evaluation_point[STATE12];
        let state13 = evaluation_point[STATE12 + 1];
        let state14 = evaluation_point[STATE12 + 2];
        let state15 = evaluation_point[STATE15];

        let mut round_number_is_not_1_or = Xfe::one();
        let mut r: u64 = 0;
        while r <= 8
            invariant
                r <= 9,
                round_number_is_not_1_or == round_number_is_not_value(round_number, 1, r as nat),
            decreases 9 - r,
        {
            if r != 1 {
                round_number_is_not_1_or = xfe_mul(
                    round_number_is_not_1_or,
                    xfe_sub(round_number, Xfe::lift(r)),
                );
            }
            r = r + 1;
        }

        let mut result = Vec::new();
        result.push(xfe_mul(round_number_is_not_1_or, state12));
        result.push(xfe_mul(round_number_is_not_1_or, state13));
        result.push(xfe_mul(round_number_is_not_1_or, state14));
        result.push(xfe_mul(round_number_is_not_1_or, state15));
        result
    }
}

// ---------------------------------------------------------------------------
// Laws of the constraints
// ---------------------------------------------------------------------------

/// The product of the factors (round_number - r), r ≠ x, evaluated at a point,
/// is the product of (point[round_number] - r).
pub proof fn lemma_not_factors_value(x: u64, n: nat, point: Seq<Xfe>)
    ensures
        product_value(not_factors(x, n), point) == round_number_is_not_value(
            point[ROUNDNUMBER as int],
            x,
            n,
        ),
    decreases n,
{
    if n > 0 {
        lemma_not_factors_value(x, (n - 1) as nat, point);
        if n - 1 != x {
            lemma_product_push(not_factors(x, (n - 1) as nat), lf(ROUNDNUMBER, (n - 1) as u64), point);
        }
    }
}

/// For r < n and r ≠ x, the factor (round_number - r) occurs among the factors.
pub proof fn lemma_not_factors_index(x: u64, n: nat, r: nat) -> (j: int)
    requires
        r < n,
        r != x,
    ensures
        0 <= j < not_factors(x, n).len(),
        not_factors(x, n)[j] == lf(ROUNDNUMBER, r as u64),
    decreases n,
{
    if r == n - 1 {
        not_factors(x, (n - 1) as nat).len() as int
    } else {
        lemma_not_factors_index(x, (n - 1) as nat, r)
    }
}

/// The consistency polynomials, evaluated at any point, give what
/// `evaluate_consistency_constraints` computes there.
pub proof fn law_consistency_polynomials_agree_with_direct_evaluation(point: Seq<Xfe>, k: int)
    requires
        0 <= k < 4,
        point.len() > STATE15,
    ensures
        product_value(consistency_constraints_spec()[k], point) == consistency_value(
            point,
            STATE12 + k,
        ),
{
    let column = (STATE12 + k) as usize;
    lemma_product_push(not_factors(1, 9), lf(column, 0), point);
    lemma_not_factors_value(1, 9, point);
    lemma_sub_zero_congruent(point[STATE12 + k]);
    lemma_mul_congruent_right(
        round_number_is_not_value(point[ROUNDNUMBER as int], 1, 9),
        factor_value(lf(column, 0), point),
        point[STATE12 + k],
    );
}

/// In the first row the round number is 0 or 1, and then the boundary
/// constraint vanishes.
pub proof fn law_boundary_constraint_holds_for_round_0_or_1(point: Seq<Xfe>, r: u64)
    requires
        point.len() == FULL_WIDTH,
        r == 0 || r == 1,
        point[ROUNDNUMBER as int] == lift_spec(r),
    ensures
        product_value(boundary_constraints_spec()[0], point) == xfe_zero(),
{
    lemma_sub_self(lift_spec(r));
    lemma_zero_factor(boundary_factors(), point, r as int);
}

/// A row whose round number is one of 0, 2, ..., 8, or whose capacity element
/// is zero, satisfies the consistency constraint on that element.
pub proof fn law_consistency_constraint_holds(point: Seq<Xfe>, k: int, r: u64)
    requires
        0 <= k < 4,
        point.len() == FULL_WIDTH,
        (r <= 8 && r != 1 && point[ROUNDNUMBER as int] == lift_spec(r)) || point[STATE12 + k]
            == xfe_zero(),
    ensures
        product_value(consistency_constraints_spec()[k], point) == xfe_zero(),
{
    let column = (STATE12 + k) as usize;
    let fs = consistency_factors(column);
    if point[STATE12 + k] == xfe_zero() {
        assert(factor_value(fs[fs.len() - 1], point) == xfe_zero());
        lemma_zero_factor(fs, point, fs.len() - 1);
    } else {
        let j = lemma_not_factors_index(1, 9, r as nat);
        lemma_sub_self(lift_spec(r));
        assert(fs[j] == not_factors(1, 9)[j]);
        lemma_zero_factor(fs, point, j);
    }
}

/// Two consecutive rows whose round numbers follow the schedule of a hash
/// (0 → 0, 1 → 2 → ... → 8, 8 → 0 or 1) satisfy every transition constraint.
pub proof fn law_round_schedule_satisfies_transition_constraints(
    point: Seq<Xfe>,
    x: u64,
    y: u64,
)
    requires
        point.len() == 2 * FULL_WIDTH,
        x <= 8,
        point[ROUNDNUMBER as int] == lift_spec(x),
        point[FULL_WIDTH + ROUNDNUMBER] == lift_spec(y),
        (x < 8 && y == next_round(x as int)) || (x == 8 && (y == 0 || y == 1)),
    ensures
        forall|i: int|
            0 <= i < 9 ==> product_value(#[trigger] transition_constraints_spec()[i], point)
                == xfe_zero(),
{
    lemma_sub_self(lift_spec(x));
    lemma_sub_self(lift_spec(y));
    assert forall|i: int| 0 <= i < 9 implies product_value(
        #[trigger] transition_constraints_spec()[i],
        point,
    ) == xfe_zero() by {
        let fs = transition_constraint_factors(i);
        if i == x {
            if i == 8 && y == 1 {
                lemma_zero_factor(fs, point, fs.len() - 1);
            } else {
                lemma_zero_factor(fs, point, 0);
            }
        } else {
            let j = lemma_not_factors_index(i as u64, 9, x as nat);
            assert(fs[j + 1] == not_factors(i as u64, 9)[j]);
            lemma_zero_factor(fs, point, j + 1);
        }
    }
}


// ---------------------------------------------------------------------------
// The constraints force what they are meant to
// ---------------------------------------------------------------------------

/// ∏_{r ∈ 0..n, r ≠ i} (x - r), as an integer.
pub open spec fn round_factor_product(i: u64, x: int, n: nat) -> int
    decreases n,
{
    if n == 0 {
        1
    } else {
        let prev = round_factor_product(i, x, (n - 1) as nat);
        if n - 1 == i {
            prev
        } else {
            prev * (x - (n - 1))
        }
    }
}

/// The inverse mod p of ∏_{r ∈ 0..=8, r ≠ x} (x - r) = (-1)^(8-x) · x! · (8-x)!.
pub open spec fn round_factor_product_inverse(x: u64) -> int {
    if x == 0 || x == 8 {
        877958875724369725
    } else if x == 1 || x == 7 {
        11423073063619626521
    } else if x == 2 || x == 6 {
        6136104450867767979
    } else if x == 3 || x == 5 {
        6174535167679048363
    } else {
        6116889092462127787
    }
}

/// ∏_{r ∈ 0..=8, r ≠ x} (x - r) is invertible mod p.
#[verifier::spinoff_prover]
#[verifier::rlimit(50)]
proof fn lemma_round_factor_product_invertible(x: u64)
    requires
        x <= 8,
    ensures
        (round_factor_product(x, x as int, 9) * round_factor_product_inverse(x)) % (P as int) == 1,
        (fmod(round_factor_product(x, x as int, 9)) * round_factor_product_inverse(x)) % (P as int)
            == 1,
        x == 8 ==> round_factor_product(x, x as int, 9) == 40320,
{
    if x == 0 {
        assert(round_factor_product(0, 0, 0) == 1);
        assert(round_factor_product(0, 0, 1) == 1);
        assert(round_factor_product(0, 0, 2) == -1);
        assert(round_factor_product(0, 0, 3) == 2);
        assert(round_factor_product(0, 0, 4) == -6);
        assert(round_factor_product(0, 0, 5) == 24);
        assert(round_factor_product(0, 0, 6) == -120);
        assert(round_factor_product(0, 0, 7) == 720);
        assert(round_factor_product(0, 0, 8) == -5040);
        assert(round_factor_product(0, 0, 9) == 40320);
    } else if x == 1 {
        assert(round_factor_product(1, 1, 0) == 1);
        assert(round_factor_product(1, 1, 1) == 1);
        assert(round_factor_product(1, 1, 2) == 1);
        assert(round_factor_product(1, 1, 3) == -1);
        assert(round_factor_product(1, 1, 4) == 2);
        assert(round_factor_product(1, 1, 5) == -6);
        assert(round_factor_product(1, 1, 6) == 24);
        assert(round_factor_product(1, 1, 7) == -120);
        assert(round_factor_product(1, 1, 8) == 720);
        assert(round_factor_product(1, 1, 9) == -5040);
    } else if x == 2 {
        assert(round_factor_product(2, 2, 0) == 1);
        assert(round_factor_product(2, 2, 1) == 2);
        assert(round_factor_product(2, 2, 2) == 2);
        assert(round_factor_product(2, 2, 3) == 2);
        assert(round_factor_product(2, 2, 4) == -2);
        assert(round_factor_product(2, 2, 5) == 4);
        assert(round_factor_product(2, 2, 6) == -12);
        assert(round_factor_product(2, 2, 7) == 48);
        assert(round_factor_product(2, 2, 8) == -240);
        assert(round_factor_product(2, 2, 9) == 1440);
    } else if x == 3 {
        assert(round_factor_product(3, 3, 0) == 1);
        assert(round_factor_product(3, 3, 1) == 3);
        assert(round_factor_product(3, 3, 2) == 6);
        assert(round_factor_product(3, 3, 3) == 6);
        assert(round_factor_product(3, 3, 4) == 6);
        assert(round_factor_product(3, 3, 5) == -6);
        assert(round_factor_product(3, 3, 6) == 12);
        assert(round_factor_product(3, 3, 7) == -36);
        assert(round_factor_product(3, 3, 8) == 144);
        assert(round_factor_product(3, 3, 9) == -720);
    } else if x == 4 {
        assert(round_factor_product(4, 4, 0) == 1);
        assert(round_factor_product(4, 4, 1) == 4);
        assert(round_factor_product(4, 4, 2) == 12);
        assert(round_factor_product(4, 4, 3) == 24);
        assert(round_factor_product(4, 4, 4) == 24);
        assert(round_factor_product(4, 4, 5) == 24);
        assert(round_factor_product(4, 4, 6) == -24);
        assert(round_factor_product(4, 4, 7) == 48);
        assert(round_factor_product(4, 4, 8) == -144);
        assert(round_factor_product(4, 4, 9) == 576);
    } else if x == 5 {
        assert(round_factor_product(5, 5, 0) == 1);
        assert(round_factor_product(5, 5, 1) == 5);
        assert(round_factor_product(5, 5, 2) == 20);
        assert(round_factor_product(5, 5, 3) == 60);
        assert(round_factor_product(5, 5, 4) == 120);
        assert(round_factor_product(5, 5, 5) == 120);
        assert(round_factor_product(5, 5, 6) == 120);
        assert(round_factor_product(5, 5, 7) == -120);
        assert(round_factor_product(5, 5, 8) == 240);
        assert(round_factor_product(5, 5, 9) == -720);
    } else if x == 6 {
        assert(round_factor_product(6, 6, 0) == 1);
        assert(round_factor_product(6, 6, 1) == 6);
        assert(round_factor_product(6, 6, 2) == 30);
        assert(round_factor_product(6, 6, 3) == 120);
        assert(round_factor_product(6, 6, 4) == 360);
        assert(round_factor_product(6, 6, 5) == 720);
        assert(round_factor_product(6, 6, 6) == 720);
        assert(round_factor_product(6, 6, 7) == 720);
        assert(round_factor_product(6, 6, 8) == -720);
        assert(round_factor_product(6, 6, 9) == 1440);
    } else if x == 7 {
        assert(round_factor_product(7, 7, 0) == 1);
        assert(round_factor_product(7, 7, 1) == 7);
        assert(round_factor_product(7, 7, 2) == 42);
        assert(round_factor_product(7, 7, 3) == 210);
        assert(round_factor_product(7, 7, 4) == 840);
        assert(round_factor_product(7, 7, 5) == 2520);
        assert(round_factor_product(7, 7, 6) == 5040);
        assert(round_factor_product(7, 7, 7) == 5040);
        assert(round_factor_product(7, 7, 8) == 5040);
        assert(round_factor_product(7, 7, 9) == -5040);
    } else {
        assert(round_factor_product(8, 8, 0) == 1);
        assert(round_factor_product(8, 8, 1) == 8);
        assert(round_factor_product(8, 8, 2) == 56);
        assert(round_factor_product(8, 8, 3) == 336);
        assert(round_factor_product(8, 8, 4) == 1680);
        assert(round_factor_product(8, 8, 5) == 6720);
        assert(round_factor_product(8, 8, 6) == 20160);
        assert(round_factor_product(8, 8, 7) == 40320);
        assert(round_factor_product(8, 8, 8) == 40320);
        assert(round_factor_product(8, 8, 9) == 40320);
    }
}

/// Every value of a product of factors is canonical.
proof fn lemma_product_value_wf(factors: Seq<LinearFactor>, point: Seq<Xfe>)
    ensures
        product_value(factors, point).wf(),
{
}

/// At a point whose round number is the lifted `x`, the factors
/// (round_number - r), r ≠ i, multiply what comes before them by
/// ∏_{r < n, r ≠ i} (x - r).
proof fn lemma_prefix_times_not_factors(
    prefix: Seq<LinearFactor>,
    i: u64,
    n: nat,
    point: Seq<Xfe>,
    x: u64,
)
    requires
        x < P,
        n <= 9,
        point[ROUNDNUMBER as int] == lift_spec(x),
    ensures
        product_value(prefix + not_factors(i, n), point) == scale(
            product_value(prefix, point),
            round_factor_product(i, x as int, n),
        ),
    decreases n,
{
    if n == 0 {
        assert(prefix + not_factors(i, 0) =~= prefix);
        lemma_product_value_wf(prefix, point);
        lemma_scale_one(product_value(prefix, point));
    } else {
        let m = (n - 1) as nat;
        lemma_prefix_times_not_factors(prefix, i, m, point, x);
        if m != i {
            let f = lf(ROUNDNUMBER, m as u64);
            let before = prefix + not_factors(i, m);
            assert(prefix + not_factors(i, n) =~= before.push(f));
            lemma_product_push(before, f, point);
            lemma_sub_lift(x, m as u64);
            let d = fmod(x - m);
            lemma_mul_lift(product_value(before, point), d);
            lemma_scale_scale(
                product_value(prefix, point),
                round_factor_product(i, x as int, m),
                x - m,
            );
        }
    }
}

/// If the round number is x ∈ 0..=7 and the transition constraint for round
/// x vanishes, then the next round number is the one that follows x
/// (0 → 0, x → x + 1).
pub proof fn law_transition_constraint_forces_next_round(point: Seq<Xfe>, x: u64)
    requires
        point.len() == 2 * FULL_WIDTH,
        x < 8,
        point[ROUNDNUMBER as int] == lift_spec(x),
        point[FULL_WIDTH + ROUNDNUMBER].wf(),
        product_value(transition_constraints_spec()[x as int], point) == xfe_zero(),
    ensures
        point[FULL_WIDTH + ROUNDNUMBER] == lift_spec(next_round(x as int)),
{
    let y = next_round(x as int);
    let f0 = lf((FULL_WIDTH + ROUNDNUMBER) as usize, y);
    let head = seq![f0];
    let fv0 = factor_value(f0, point);
    assert(transition_constraint_factors(x as int) == head + not_factors(x, 9));
    lemma_prefix_times_not_factors(head, x, 9, point, x);
    assert(head.drop_last() =~= Seq::<LinearFactor>::empty());
    assert(head.last() == f0);
    assert(product_value(Seq::<LinearFactor>::empty(), point) == xfe_one());
    assert(product_value(head, point) == xfe_mul_spec(xfe_one(), fv0));
    lemma_mul_lift(fv0, 1);
    lemma_scale_one(fv0);
    lemma_round_factor_product_invertible(x);
    lemma_scale_zero_inverse(
        fv0,
        round_factor_product(x, x as int, 9),
        round_factor_product_inverse(x),
    );
}

/// In round 1, where the processor hands in its input, the consistency
/// constraints force the capacity (state elements 12 to 15) to be zero.
pub proof fn law_consistency_constraint_clears_capacity_in_round_1(point: Seq<Xfe>, k: int)
    requires
        0 <= k < 4,
        point.len() == FULL_WIDTH,
        point[ROUNDNUMBER as int] == lift_spec(1),
        point[STATE12 + k].wf(),
        product_value(consistency_constraints_spec()[k], point) == xfe_zero(),
    ensures
        point[STATE12 + k] == xfe_zero(),
{
    let column = (STATE12 + k) as usize;
    let state = point[STATE12 + k];
    let c = round_factor_product(1, 1, 9);
    lemma_product_push(not_factors(1, 9), lf(column, 0), point);
    assert(Seq::<LinearFactor>::empty() + not_factors(1, 9) =~= not_factors(1, 9));
    lemma_prefix_times_not_factors(Seq::empty(), 1, 9, point, 1);
    assert(scale(xfe_one(), c) == lift_spec(fmod(c)));
    lemma_sub_zero(state);
    lemma_mul_lift(state, fmod(c));
    lemma_round_factor_product_invertible(1);
    lemma_scale_zero_inverse(state, fmod(c) as int, round_factor_product_inverse(1));
}

/// In the first row the round number is 0 or 1: a round number below 2^32
/// at which the boundary constraint vanishes is 0 or 1.
///
/// Above 2^32 the product z·(z - 1) wraps around p, and the claim would rest
/// on p being prime, which is not proved here.
pub proof fn law_boundary_constraint_forces_round_0_or_1(point: Seq<Xfe>, z: u64)
    requires
        point.len() == FULL_WIDTH,
        z < 0x1_0000_0000,
        point[ROUNDNUMBER as int] == lift_spec(z),
        product_value(boundary_constraints_spec()[0], point) == xfe_zero(),
    ensures
        z == 0 || z == 1,
{
    let fs = boundary_factors();
    let head = seq![lf(ROUNDNUMBER, 0)];
    assert(fs.drop_last() =~= head);
    assert(head.drop_last() =~= Seq::<LinearFactor>::empty());
    assert(head.last() == lf(ROUNDNUMBER, 0));
    assert(fs.last() == lf(ROUNDNUMBER, 1));
    assert(product_value(Seq::<LinearFactor>::empty(), point) == xfe_one());
    lemma_sub_lift(z, 0);
    lemma_sub_lift(z, 1);
    let v = lift_spec(fmod(z - 0));
    lemma_mul_lift(v, 1);
    lemma_scale_one(v);
    assert(product_value(head, point) == v);
    lemma_mul_lift(v, fmod(z - 1));
    if z >= 2 {
        assert(fmod(z - 0) == z);
        assert(fmod(z - 1) == z - 1);
        assert(0 < z * (z - 1) < P) by (nonlinear_arith)
            requires
                2 <= z < 0x1_0000_0000,
        ;
        assert(product_value(fs, point).c0 == fmod(z * (z - 1)));
    }
}

/// After round 8 comes round 0 or 1: if the round number is 8, the next one
/// a base field element below 2^24, and the transition constraint for round 8
/// vanishes, then the next round number is 0 or 1.
///
/// For larger values the product z·(z - 1)·8! wraps around p, and the claim
/// would rest on p being prime, which is not proved here.
pub proof fn law_transition_constraint_after_round_8(point: Seq<Xfe>, z: u64)
    requires
        point.len() == 2 * FULL_WIDTH,
        point[ROUNDNUMBER as int] == lift_spec(8),
        point[FULL_WIDTH + ROUNDNUMBER] == lift_spec(z),
        z < 0x100_0000,
        product_value(transition_constraints_spec()[8], point) == xfe_zero(),
    ensures
        z == 0 || z == 1,
{
    let next = (FULL_WIDTH + ROUNDNUMBER) as usize;
    let head = seq![lf(next, 0)];
    let body = head + not_factors(8, 9);
    assert(transition_factors(8, 0) == body);
    lemma_product_push(body, lf(next, 1), point);
    lemma_prefix_times_not_factors(head, 8, 9, point, 8);
    assert(head.drop_last() =~= Seq::<LinearFactor>::empty());
    assert(head.last() == lf(next, 0));
    assert(product_value(Seq::<LinearFactor>::empty(), point) == xfe_one());
    lemma_sub_lift(z, 0);
    lemma_sub_lift(z, 1);
    let v = lift_spec(fmod(z - 0));
    lemma_mul_lift(v, 1);
    lemma_scale_one(v);
    assert(product_value(head, point) == v);
    lemma_round_factor_product_invertible(8);
    let c = round_factor_product(8, 8, 9);
    lemma_mul_lift(scale(v, c), fmod(z - 1));
    lemma_scale_scale(v, c, z - 1);
    if z >= 2 {
        assert(fmod(z - 0) == z);
        assert(0 < z * (40320 * (z - 1)) < P) by (nonlinear_arith)
            requires
                2 <= z < 0x100_0000,
        ;
        assert(product_value(transition_constraints_spec()[8], point).c0 == fmod(z * (c * (z - 1))));
    }
}

} // verus!
