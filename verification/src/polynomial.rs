//! Multivariate polynomials over the extension field that are products of
//! linear factors (x_i - c), the shape of every constraint of the hash table.
use crate::field::{
    lemma_mul_lift, lemma_mul_zero, lemma_scale_one, lemma_sub_add_cancel, lift_spec, xfe_add_spec,
    xfe_mul, xfe_mul_spec, xfe_one, xfe_sub, xfe_sub_spec, xfe_zero, Xfe,
};
use vstd::prelude::*;

verus! {

/// The linear polynomial x_variable - constant.
#[derive(Clone, Copy, Debug, PartialEq, Eq, Structural)]
pub struct LinearFactor {
    pub variable: usize,
    pub constant: u64,
}

/// The product of `factors`, a polynomial in `num_variables` variables.
/// The empty product is the constant 1.
#[derive(Clone, Debug)]
pub struct FactoredPolynomial {
    pub num_variables: usize,
    pub factors: Vec<LinearFactor>,
}

pub open spec fn lf(variable: usize, constant: u64) -> LinearFactor {
    LinearFactor { variable, constant }
}

/// The value of x_variable - constant at `point`.
pub open spec fn factor_value(f: LinearFactor, point: Seq<Xfe>) -> Xfe {
    xfe_sub_spec(point[f.variable as int], lift_spec(f.constant))
}

/// The value of the product of `factors` at `point`, multiplied out from the
/// first factor to the last, starting from 1.
pub open spec fn product_value(factors: Seq<LinearFactor>, point: Seq<Xfe>) -> Xfe
    decreases factors.len(),
{
    if factors.len() == 0 {
        xfe_one()
    } else {
        xfe_mul_spec(product_value(factors.drop_last(), point), factor_value(factors.last(), point))
    }
}

/// Every variable of `factors` is a coordinate of a point with `n` coordinates.
pub open spec fn variables_below(factors: Seq<LinearFactor>, n: int) -> bool {
    forall|i: int| 0 <= i < factors.len() ==> (#[trigger] factors[i]).variable < n
}

impl FactoredPolynomial {
    /// A copy of the polynomial.
    pub fn copy(&self) -> (r: FactoredPolynomial)
        ensures
            r.num_variables == self.num_variables,
            r.factors@ == self.factors@,
    {
        let mut factors: Vec<LinearFactor> = Vec::new();
        let mut i: usize = 0;
        while i < self.factors.len()
            invariant
                i <= self.factors@.len(),
                factors@ == self.factors@.take(i as int),
            decreases self.factors@.len() - i,
        {
            factors.push(self.factors[i]);
            assert(self.factors@.take(i + 1) =~= self.factors@.take(i as int).push(self.factors@[i as int]));
            i = i + 1;
        }
        assert(self.factors@.take(self.factors@.len() as int) =~= self.factors@);
        FactoredPolynomial { num_variables: self.num_variables, factors }
    }

    /// The value of the polynomial at `point`.
    pub fn evaluate(&self, point: &[Xfe]) -> (r: Xfe)
        requires
            variables_below(self.factors@, point@.len() as int),
        ensures
            r == product_value(self.factors@, point@),
    {
        let mut acc = Xfe::one();
        let n = self.factors.len();
        let mut i: usize = 0;
        while i < n
            invariant
                n == self.factors@.len(),
                0 <= i <= n,
                variables_below(self.factors@, point@.len() as int),
                acc == product_value(self.factors@.take(i as int), point@),
            decreases n - i,
        {
            let f = self.factors[i];
            assert(self.factors@[i as int].variable < point@.len());
            let value = xfe_sub(point[f.variable], Xfe::lift(f.constant));
            acc = xfe_mul(acc, value);
            assert(self.factors@.take(i + 1).drop_last() =~= self.factors@.take(i as int));
            i = i + 1;
        }
        assert(self.factors@.take(n as int) =~= self.factors@);
        acc
    }
}

/// A product with a zero factor is zero.
pub proof fn lemma_zero_factor(factors: Seq<LinearFactor>, point: Seq<Xfe>, j: int)
    requires
        0 <= j < factors.len(),
        factor_value(factors[j], point) == xfe_zero(),
    ensures
        product_value(factors, point) == xfe_zero(),
    decreases factors.len(),
{
    let last = factors.len() - 1;
    if j == last {
        lemma_mul_zero(product_value(factors.drop_last(), point));
    } else {
        assert(factors.drop_last()[j] == factors[j]);
        lemma_zero_factor(factors.drop_last(), point, j);
        lemma_mul_zero(factor_value(factors.last(), point));
    }
}

/// Appending a factor multiplies the product by that factor's value.
pub proof fn lemma_product_push(factors: Seq<LinearFactor>, f: LinearFactor, point: Seq<Xfe>)
    ensures
        product_value(factors.push(f), point) == xfe_mul_spec(
            product_value(factors, point),
            factor_value(f, point),
        ),
{
    assert(factors.push(f).drop_last() =~= factors);
}

/// `a` and `b` are the same polynomials, in the same order.
pub open spec fn same_polynomials(a: Seq<FactoredPolynomial>, b: Seq<FactoredPolynomial>) -> bool {
    &&& a.len() == b.len()
    &&& forall|i: int|
        0 <= i < a.len() ==> (#[trigger] a[i]).num_variables == b[i].num_variables
            && a[i].factors@ == b[i].factors@
}

/// A copy of the polynomials.
pub fn copy_polynomials(ps: &Vec<FactoredPolynomial>) -> (r: Vec<FactoredPolynomial>)
    ensures
        same_polynomials(r@, ps@),
{
    let mut r: Vec<FactoredPolynomial> = Vec::new();
    let mut i: usize = 0;
    while i < ps.len()
        invariant
            i <= ps@.len(),
            r@.len() == i,
            forall|j: int|
                0 <= j < i ==> (#[trigger] r@[j]).num_variables == ps@[j].num_variables
                    && r@[j].factors@ == ps@[j].factors@,
        decreases ps@.len() - i,
    {
        r.push(ps[i].copy());
        i = i + 1;
    }
    r
}

/// A factor x_v - c, and the polynomial made of it alone, take at a point the
/// value of coordinate v minus c: adding c back gives the coordinate, with
/// all three of its coefficients.
pub proof fn law_factor_value_is_coordinate_minus_constant(f: LinearFactor, point: Seq<Xfe>)
    requires
        f.variable < point.len(),
        point[f.variable as int].wf(),
    ensures
        xfe_add_spec(factor_value(f, point), lift_spec(f.constant)) == point[f.variable as int],
        xfe_add_spec(product_value(seq![f], point), lift_spec(f.constant))
            == point[f.variable as int],
{
    let v = factor_value(f, point);
    lemma_sub_add_cancel(point[f.variable as int], f.constant);
    assert(seq![f].drop_last() =~= Seq::<LinearFactor>::empty());
    assert(seq![f].last() == f);
    assert(product_value(Seq::<LinearFactor>::empty(), point) == xfe_one());
    lemma_mul_lift(v, 1);
    lemma_scale_one(v);
}

} // verus!
