//! Elements of the base field F_p, p = 2^64 - 2^32 + 1, and of its cubic
//! extension F_p[x] / (x^3 - x + 1).
//!
//! A base field element is held as its canonical `u64` value; an extension
//! field element as its three canonical coefficients. The arithmetic itself is
//! done by `twenty-first`, whose results are stated here over integers mod p.
use twenty_first::prelude::BFieldElement;
use twenty_first::prelude::XFieldElement;
use vstd::arithmetic::div_mod::{
    lemma_add_mod_noop, lemma_add_mod_noop_right, lemma_mul_mod_noop_general, lemma_mul_mod_noop_left,
    lemma_mod_twice, lemma_mul_mod_noop_right, lemma_sub_mod_noop,
};
use vstd::arithmetic::mul::{lemma_mul_is_associative, lemma_mul_is_commutative};
use vstd::prelude::*;

verus! {

/// The prime of the base field, 2^64 - 2^32 + 1.
pub const P: u64 = 0xffff_ffff_0000_0001u64;

/// An element c0 + c1·x + c2·x² of the extension field F_p[x] / (x³ - x + 1).
#[derive(Clone, Copy, Debug, PartialEq, Eq, Structural)]
pub struct Xfe {
    pub c0: u64,
    pub c1: u64,
    pub c2: u64,
}

impl Xfe {
    /// Every coefficient is the canonical representative of its residue class.
    pub open spec fn wf(self) -> bool {
        self.c0 < P && self.c1 < P && self.c2 < P
    }

    /// The element whose coefficients are those given, each reduced mod p.
    pub fn new(c0: u64, c1: u64, c2: u64) -> (r: Xfe)
        ensures
            r.c0 == c0 % P,
            r.c1 == c1 % P,
            r.c2 == c2 % P,
            r.wf(),
    {
        Xfe { c0: c0 % P, c1: c1 % P, c2: c2 % P }
    }

    /// The additive identity.
    pub fn zero() -> (r: Xfe)
        ensures
            r == xfe_zero(),
    {
        Xfe { c0: 0, c1: 0, c2: 0 }
    }

    /// The multiplicative identity.
    pub fn one() -> (r: Xfe)
        ensures
            r == xfe_one(),
    {
        Xfe { c0: 1, c1: 0, c2: 0 }
    }

    /// The base field element `b`, seen as an element of the extension field.
    pub fn lift(b: u64) -> (r: Xfe)
        ensures
            r == lift_spec(b),
    {
        Xfe { c0: b, c1: 0, c2: 0 }
    }
}

/// The canonical representative of `x` mod p.
pub open spec fn fmod(x: int) -> u64 {
    (x % (P as int)) as u64
}

pub open spec fn xfe_zero() -> Xfe {
    Xfe { c0: 0, c1: 0, c2: 0 }
}

pub open spec fn xfe_one() -> Xfe {
    Xfe { c0: 1, c1: 0, c2: 0 }
}

/// The embedding of the base field into the extension field.
pub open spec fn lift_spec(b: u64) -> Xfe {
    Xfe { c0: b, c1: 0, c2: 0 }
}

/// Coefficient-wise sum mod p.
pub open spec fn xfe_add_spec(a: Xfe, b: Xfe) -> Xfe {
    Xfe { c0: fmod(a.c0 + b.c0), c1: fmod(a.c1 + b.c1), c2: fmod(a.c2 + b.c2) }
}

/// Coefficient-wise difference mod p.
pub open spec fn xfe_sub_spec(a: Xfe, b: Xfe) -> Xfe {
    Xfe { c0: fmod(a.c0 - b.c0), c1: fmod(a.c1 - b.c1), c2: fmod(a.c2 - b.c2) }
}

/// The product of the two polynomials, reduced with x³ = x - 1 (and so
/// x⁴ = x² - x), coefficients mod p.
pub open spec fn xfe_mul_spec(a: Xfe, b: Xfe) -> Xfe {
    Xfe {
        c0: fmod(a.c0 * b.c0 - a.c2 * b.c1 - a.c1 * b.c2),
        c1: fmod(a.c1 * b.c0 + a.c0 * b.c1 - a.c2 * b.c2 + a.c2 * b.c1 + a.c1 * b.c2),
        c2: fmod(a.c2 * b.c0 + a.c1 * b.c1 + a.c0 * b.c2 + a.c2 * b.c2),
    }
}

/// `Add` of twenty-first's `XFieldElement`: the coefficients are added in the
/// base field, i.e. mod p.
#[verifier::external_body]
pub(crate) fn xfe_add(a: Xfe, b: Xfe) -> (r: Xfe)
    ensures
        r == xfe_add_spec(a, b),
{
    let x = XFieldElement::new([BFieldElement::new(a.c0), BFieldElement::new(a.c1), BFieldElement::new(a.c2)]);
    let y = XFieldElement::new([BFieldElement::new(b.c0), BFieldElement::new(b.c1), BFieldElement::new(b.c2)]);
    let [r0, r1, r2] = (x + y).coefficients;
    Xfe { c0: r0.value(), c1: r1.value(), c2: r2.value() }
}

/// `Sub` of twenty-first's `XFieldElement` (`a + (-b)`): the coefficients are
/// subtracted in the base field, i.e. mod p.
#[verifier::external_body]
pub(crate) fn xfe_sub(a: Xfe, b: Xfe) -> (r: Xfe)
    ensures
        r == xfe_sub_spec(a, b),
{
    let x = XFieldElement::new([BFieldElement::new(a.c0), BFieldElement::new(a.c1), BFieldElement::new(a.c2)]);
    let y = XFieldElement::new([BFieldElement::new(b.c0), BFieldElement::new(b.c1), BFieldElement::new(b.c2)]);
    let [r0, r1, r2] = (x - y).coefficients;
    Xfe { c0: r0.value(), c1: r1.value(), c2: r2.value() }
}

/// `Mul` of twenty-first's `XFieldElement`: polynomial product modulo
/// x³ - x + 1 with coefficients in the base field, as its source writes it.
#[verifier::external_body]
pub(crate) fn xfe_mul(a: Xfe, b: Xfe) -> (r: Xfe)
    ensures
        r == xfe_mul_spec(a, b),
{
    let x = XFieldElement::new([BFieldElement::new(a.c0), BFieldElement::new(a.c1), BFieldElement::new(a.c2)]);
    let y = XFieldElement::new([BFieldElement::new(b.c0), BFieldElement::new(b.c1), BFieldElement::new(b.c2)]);
    let [r0, r1, r2] = (x * y).coefficients;
    Xfe { c0: r0.value(), c1: r1.value(), c2: r2.value() }
}

/// Subtracting the lifted zero leaves a canonical element unchanged.
pub proof fn lemma_sub_zero(a: Xfe)
    requires
        a.wf(),
    ensures
        xfe_sub_spec(a, lift_spec(0)) == a,
{
}

/// An element minus itself is zero.
pub proof fn lemma_sub_self(a: Xfe)
    ensures
        xfe_sub_spec(a, a) == xfe_zero(),
{
}

/// Zero absorbs multiplication from either side.
pub proof fn lemma_mul_zero(a: Xfe)
    ensures
        xfe_mul_spec(a, xfe_zero()) == xfe_zero(),
        xfe_mul_spec(xfe_zero(), a) == xfe_zero(),
{
}

/// Every coefficient of `v` multiplied by the integer `c`, mod p: the product
/// of `v` with the base field element `c`.
pub open spec fn scale(v: Xfe, c: int) -> Xfe {
    Xfe { c0: fmod(v.c0 * c), c1: fmod(v.c1 * c), c2: fmod(v.c2 * c) }
}

/// Multiplying by a lifted base field element scales every coefficient, from
/// either side.
pub proof fn lemma_mul_lift(a: Xfe, d: u64)
    ensures
        xfe_mul_spec(a, lift_spec(d)) == scale(a, d as int),
        xfe_mul_spec(lift_spec(d), a) == scale(a, d as int),
{
    lemma_mul_is_commutative(d as int, a.c0 as int);
    lemma_mul_is_commutative(d as int, a.c1 as int);
    lemma_mul_is_commutative(d as int, a.c2 as int);
}

/// The difference of two lifted canonical elements is the lifted difference.
pub proof fn lemma_sub_lift(x: u64, r: u64)
    ensures
        xfe_sub_spec(lift_spec(x), lift_spec(r)) == lift_spec(fmod(x - r)),
{
}

/// Scaling by 1 leaves a canonical element unchanged.
pub proof fn lemma_scale_one(v: Xfe)
    requires
        v.wf(),
    ensures
        scale(v, 1) == v,
{
}

/// (a·c mod p)·(d mod p) ≡ a·(c·d) (mod p).
proof fn lemma_mod_mul_assoc(a: int, c: int, d: int)
    ensures
        ((a * c) % (P as int)) * (d % (P as int)) % (P as int) == (a * (c * d)) % (P as int),
{
    let m = P as int;
    lemma_mul_mod_noop_left(a * c, d % m, m);
    lemma_mul_mod_noop_right(a * c, d, m);
    lemma_mul_is_associative(a, c, d);
}

/// Scaling twice is scaling by the product; a scale factor counts only mod p.
pub proof fn lemma_scale_scale(v: Xfe, c: int, d: int)
    ensures
        scale(scale(v, c), d % (P as int)) == scale(v, c * d),
{
    lemma_mod_mul_assoc(v.c0 as int, c, d);
    lemma_mod_mul_assoc(v.c1 as int, c, d);
    lemma_mod_mul_assoc(v.c2 as int, c, d);
}

/// A canonical `a` with a·c ≡ 0 (mod p), for `c` invertible mod p, is 0.
proof fn lemma_cancel_invertible(a: int, c: int, inverse: int)
    requires
        0 <= a < P,
        (c * inverse) % (P as int) == 1,
        (a * c) % (P as int) == 0,
    ensures
        a == 0,
{
    let m = P as int;
    lemma_mul_mod_noop_left(a * c, inverse, m);
    lemma_mul_is_associative(a, c, inverse);
    lemma_mul_mod_noop_right(a, c * inverse, m);
}

/// A scale factor with an inverse mod p only scales zero to zero.
pub proof fn lemma_scale_zero_inverse(w: Xfe, c: int, inverse: int)
    requires
        w.wf(),
        (c * inverse) % (P as int) == 1,
        scale(w, c) == xfe_zero(),
    ensures
        w == xfe_zero(),
{
    lemma_cancel_invertible(w.c0 as int, c, inverse);
    lemma_cancel_invertible(w.c1 as int, c, inverse);
    lemma_cancel_invertible(w.c2 as int, c, inverse);
}

// ---------------------------------------------------------------------------
// Ring laws of the extension field operations
// ---------------------------------------------------------------------------

/// `x` and `y` are congruent mod p.
pub open spec fn congruent(x: int, y: int) -> bool {
    x % (P as int) == y % (P as int)
}

/// Coefficient 0 of the product of (a0, a1, a2) and (b0, b1, b2) before reduction mod p.
pub open spec fn product0(a0: int, a1: int, a2: int, b0: int, b1: int, b2: int) -> int {
    a0 * b0 - a2 * b1 - a1 * b2
}

/// Coefficient 1 of the product before reduction mod p.
pub open spec fn product1(a0: int, a1: int, a2: int, b0: int, b1: int, b2: int) -> int {
    a1 * b0 + a0 * b1 - a2 * b2 + a2 * b1 + a1 * b2
}

/// Coefficient 2 of the product before reduction mod p.
pub open spec fn product2(a0: int, a1: int, a2: int, b0: int, b1: int, b2: int) -> int {
    a2 * b0 + a1 * b1 + a0 * b2 + a2 * b2
}

proof fn lemma_congruent_mul(x: int, y: int, x2: int, y2: int)
    requires
        congruent(x, x2),
        congruent(y, y2),
    ensures
        congruent(x * y, x2 * y2),
{
    lemma_mul_mod_noop_general(x, y, P as int);
    lemma_mul_mod_noop_general(x2, y2, P as int);
}

proof fn lemma_congruent_add_sub(x: int, y: int, x2: int, y2: int)
    requires
        congruent(x, x2),
        congruent(y, y2),
    ensures
        congruent(x + y, x2 + y2),
        congruent(x - y, x2 - y2),
{
    lemma_add_mod_noop(x, y, P as int);
    lemma_add_mod_noop(x2, y2, P as int);
    lemma_sub_mod_noop(x, y, P as int);
    lemma_sub_mod_noop(x2, y2, P as int);
}

/// The unreduced product coefficients respect congruence of the first factor.
proof fn lemma_products_congruent(
    a0: int,
    a1: int,
    a2: int,
    c0: int,
    c1: int,
    c2: int,
    b0: int,
    b1: int,
    b2: int,
)
    requires
        congruent(a0, c0),
        congruent(a1, c1),
        congruent(a2, c2),
    ensures
        congruent(product0(a0, a1, a2, b0, b1, b2), product0(c0, c1, c2, b0, b1, b2)),
        congruent(product1(a0, a1, a2, b0, b1, b2), product1(c0, c1, c2, b0, b1, b2)),
        congruent(product2(a0, a1, a2, b0, b1, b2), product2(c0, c1, c2, b0, b1, b2)),
{
    lemma_congruent_mul(a0, b0, c0, b0);
    lemma_congruent_mul(a0, b1, c0, b1);
    lemma_congruent_mul(a0, b2, c0, b2);
    lemma_congruent_mul(a1, b0, c1, b0);
    lemma_congruent_mul(a1, b1, c1, b1);
    lemma_congruent_mul(a1, b2, c1, b2);
    lemma_congruent_mul(a2, b0, c2, b0);
    lemma_congruent_mul(a2, b1, c2, b1);
    lemma_congruent_mul(a2, b2, c2, b2);
    // coefficient 0
    lemma_congruent_add_sub(a0 * b0, a2 * b1, c0 * b0, c2 * b1);
    lemma_congruent_add_sub(a0 * b0 - a2 * b1, a1 * b2, c0 * b0 - c2 * b1, c1 * b2);
    // coefficient 1
    lemma_congruent_add_sub(a1 * b0, a0 * b1, c1 * b0, c0 * b1);
    lemma_congruent_add_sub(a1 * b0 + a0 * b1, a2 * b2, c1 * b0 + c0 * b1, c2 * b2);
    lemma_congruent_add_sub(
        a1 * b0 + a0 * b1 - a2 * b2,
        a2 * b1,
        c1 * b0 + c0 * b1 - c2 * b2,
        c2 * b1,
    );
    lemma_congruent_add_sub(
        a1 * b0 + a0 * b1 - a2 * b2 + a2 * b1,
        a1 * b2,
        c1 * b0 + c0 * b1 - c2 * b2 + c2 * b1,
        c1 * b2,
    );
    // coefficient 2
    lemma_congruent_add_sub(a2 * b0, a1 * b1, c2 * b0, c1 * b1);
    lemma_congruent_add_sub(a2 * b0 + a1 * b1, a0 * b2, c2 * b0 + c1 * b1, c0 * b2);
    lemma_congruent_add_sub(
        a2 * b0 + a1 * b1 + a0 * b2,
        a2 * b2,
        c2 * b0 + c1 * b1 + c0 * b2,
        c2 * b2,
    );
}

/// The product coefficients are linear in the first factor.
proof fn lemma_products_distribute(
    a0: int,
    a1: int,
    a2: int,
    c0: int,
    c1: int,
    c2: int,
    b0: int,
    b1: int,
    b2: int,
)
    ensures
        product0(a0 + c0, a1 + c1, a2 + c2, b0, b1, b2) == product0(a0, a1, a2, b0, b1, b2)
            + product0(c0, c1, c2, b0, b1, b2),
        product1(a0 + c0, a1 + c1, a2 + c2, b0, b1, b2) == product1(a0, a1, a2, b0, b1, b2)
            + product1(c0, c1, c2, b0, b1, b2),
        product2(a0 + c0, a1 + c1, a2 + c2, b0, b1, b2) == product2(a0, a1, a2, b0, b1, b2)
            + product2(c0, c1, c2, b0, b1, b2),
{
    assert(product0(a0 + c0, a1 + c1, a2 + c2, b0, b1, b2) == product0(a0, a1, a2, b0, b1, b2)
        + product0(c0, c1, c2, b0, b1, b2)) by (nonlinear_arith);
    assert(product1(a0 + c0, a1 + c1, a2 + c2, b0, b1, b2) == product1(a0, a1, a2, b0, b1, b2)
        + product1(c0, c1, c2, b0, b1, b2)) by (nonlinear_arith);
    assert(product2(a0 + c0, a1 + c1, a2 + c2, b0, b1, b2) == product2(a0, a1, a2, b0, b1, b2)
        + product2(c0, c1, c2, b0, b1, b2)) by (nonlinear_arith);
}

/// The reduced product is the unreduced one, taken mod p.
proof fn lemma_mul_as_products(a: Xfe, b: Xfe)
    ensures
        xfe_mul_spec(a, b).c0 == fmod(product0(a.c0 as int, a.c1 as int, a.c2 as int, b.c0 as int, b.c1 as int, b.c2 as int)),
        xfe_mul_spec(a, b).c1 == fmod(product1(a.c0 as int, a.c1 as int, a.c2 as int, b.c0 as int, b.c1 as int, b.c2 as int)),
        xfe_mul_spec(a, b).c2 == fmod(product2(a.c0 as int, a.c1 as int, a.c2 as int, b.c0 as int, b.c1 as int, b.c2 as int)),
{
}

/// A product depends on the coefficients of its first factor only mod p.
pub proof fn lemma_mul_congruent_left(a: Xfe, c: Xfe, b: Xfe)
    requires
        congruent(a.c0 as int, c.c0 as int),
        congruent(a.c1 as int, c.c1 as int),
        congruent(a.c2 as int, c.c2 as int),
    ensures
        xfe_mul_spec(a, b) == xfe_mul_spec(c, b),
{
    lemma_mul_as_products(a, b);
    lemma_mul_as_products(c, b);
    lemma_products_congruent(
        a.c0 as int, a.c1 as int, a.c2 as int, c.c0 as int, c.c1 as int, c.c2 as int,
        b.c0 as int, b.c1 as int, b.c2 as int,
    );
}

/// Multiplication distributes over addition: (a + c)·b = a·b + c·b.
pub proof fn lemma_mul_distributes_over_add(a: Xfe, c: Xfe, b: Xfe)
    ensures
        xfe_mul_spec(xfe_add_spec(a, c), b) == xfe_add_spec(xfe_mul_spec(a, b), xfe_mul_spec(c, b)),
{
    let m = P as int;
    let s = xfe_add_spec(a, c);
    let (a0, a1, a2) = (a.c0 as int, a.c1 as int, a.c2 as int);
    let (c0, c1, c2) = (c.c0 as int, c.c1 as int, c.c2 as int);
    let (b0, b1, b2) = (b.c0 as int, b.c1 as int, b.c2 as int);
    lemma_mul_as_products(s, b);
    lemma_mul_as_products(a, b);
    lemma_mul_as_products(c, b);
    assert(congruent(s.c0 as int, a0 + c0));
    assert(congruent(s.c1 as int, a1 + c1));
    assert(congruent(s.c2 as int, a2 + c2));
    lemma_products_congruent(s.c0 as int, s.c1 as int, s.c2 as int, a0 + c0, a1 + c1, a2 + c2, b0, b1, b2);
    lemma_products_distribute(a0, a1, a2, c0, c1, c2, b0, b1, b2);
    lemma_add_mod_noop(product0(a0, a1, a2, b0, b1, b2), product0(c0, c1, c2, b0, b1, b2), m);
    lemma_add_mod_noop(product1(a0, a1, a2, b0, b1, b2), product1(c0, c1, c2, b0, b1, b2), m);
    lemma_add_mod_noop(product2(a0, a1, a2, b0, b1, b2), product2(c0, c1, c2, b0, b1, b2), m);
}

/// ((x + y) mod p + z) ≡ ((x + z) mod p + y) (mod p).
proof fn lemma_mod_add_swap(x: int, y: int, z: int)
    ensures
        ((x + y) % (P as int) + z) % (P as int) == ((x + z) % (P as int) + y) % (P as int),
{
    let m = P as int;
    lemma_add_mod_noop_right(z, x + y, m);
    lemma_add_mod_noop_right(y, x + z, m);
    assert(z + (x + y) == y + (x + z));
}

/// Addition may be reordered: (x + y) + z = (x + z) + y.
pub proof fn lemma_add_swap(x: Xfe, y: Xfe, z: Xfe)
    ensures
        xfe_add_spec(xfe_add_spec(x, y), z) == xfe_add_spec(xfe_add_spec(x, z), y),
{
    lemma_mod_add_swap(x.c0 as int, y.c0 as int, z.c0 as int);
    lemma_mod_add_swap(x.c1 as int, y.c1 as int, z.c1 as int);
    lemma_mod_add_swap(x.c2 as int, y.c2 as int, z.c2 as int);
}

/// Multiplication commutes.
pub proof fn lemma_mul_commutes(a: Xfe, b: Xfe)
    ensures
        xfe_mul_spec(a, b) == xfe_mul_spec(b, a),
{
    let (a0, a1, a2) = (a.c0 as int, a.c1 as int, a.c2 as int);
    let (b0, b1, b2) = (b.c0 as int, b.c1 as int, b.c2 as int);
    lemma_mul_as_products(a, b);
    lemma_mul_as_products(b, a);
    assert(product0(a0, a1, a2, b0, b1, b2) == product0(b0, b1, b2, a0, a1, a2)) by (nonlinear_arith);
    assert(product1(a0, a1, a2, b0, b1, b2) == product1(b0, b1, b2, a0, a1, a2)) by (nonlinear_arith);
    assert(product2(a0, a1, a2, b0, b1, b2) == product2(b0, b1, b2, a0, a1, a2)) by (nonlinear_arith);
}

/// A product depends on the coefficients of its second factor only mod p.
pub proof fn lemma_mul_congruent_right(a: Xfe, b: Xfe, c: Xfe)
    requires
        congruent(b.c0 as int, c.c0 as int),
        congruent(b.c1 as int, c.c1 as int),
        congruent(b.c2 as int, c.c2 as int),
    ensures
        xfe_mul_spec(a, b) == xfe_mul_spec(a, c),
{
    lemma_mul_commutes(a, b);
    lemma_mul_commutes(a, c);
    lemma_mul_congruent_left(b, c, a);
}

/// Subtracting the lifted zero reduces each coefficient mod p.
pub proof fn lemma_sub_zero_congruent(a: Xfe)
    ensures
        congruent(xfe_sub_spec(a, lift_spec(0)).c0 as int, a.c0 as int),
        congruent(xfe_sub_spec(a, lift_spec(0)).c1 as int, a.c1 as int),
        congruent(xfe_sub_spec(a, lift_spec(0)).c2 as int, a.c2 as int),
{
    lemma_mod_twice(a.c0 as int, P as int);
    lemma_mod_twice(a.c1 as int, P as int);
    lemma_mod_twice(a.c2 as int, P as int);
}

/// (x mod p + (y + z) mod p) ≡ ((x + y) mod p + z) (mod p).
proof fn lemma_mod_add_assoc(x: int, y: int, z: int)
    ensures
        (x + (y + z) % (P as int)) % (P as int) == ((x + y) % (P as int) + z) % (P as int),
{
    let m = P as int;
    lemma_add_mod_noop_right(x, y + z, m);
    lemma_add_mod_noop_right(z, x + y, m);
    assert(x + (y + z) == z + (x + y));
}

/// Addition is associative: x + (y + z) = (x + y) + z.
pub proof fn lemma_add_associates(x: Xfe, y: Xfe, z: Xfe)
    ensures
        xfe_add_spec(x, xfe_add_spec(y, z)) == xfe_add_spec(xfe_add_spec(x, y), z),
{
    lemma_mod_add_assoc(x.c0 as int, y.c0 as int, z.c0 as int);
    lemma_mod_add_assoc(x.c1 as int, y.c1 as int, z.c1 as int);
    lemma_mod_add_assoc(x.c2 as int, y.c2 as int, z.c2 as int);
}

/// Multiplication distributes over addition from the left: w·(a + c) = w·a + w·c.
pub proof fn lemma_mul_distributes_over_add_left(w: Xfe, a: Xfe, c: Xfe)
    ensures
        xfe_mul_spec(w, xfe_add_spec(a, c)) == xfe_add_spec(xfe_mul_spec(w, a), xfe_mul_spec(w, c)),
{
    lemma_mul_commutes(w, xfe_add_spec(a, c));
    lemma_mul_distributes_over_add(a, c, w);
    lemma_mul_commutes(a, w);
    lemma_mul_commutes(c, w);
}

/// Zero is neutral for addition on canonical elements.
pub proof fn lemma_zero_add(x: Xfe)
    requires
        x.wf(),
    ensures
        xfe_add_spec(xfe_zero(), x) == x,
        xfe_add_spec(x, xfe_zero()) == x,
{
}

/// The sum of two lifted base field elements is the lifted sum.
pub proof fn lemma_add_lift(a: u64, d: u64)
    ensures
        xfe_add_spec(lift_spec(a), lift_spec(d)) == lift_spec(fmod(a + d)),
{
}

/// Subtracting and adding back the same lifted constant gives a canonical
/// element back.
pub proof fn lemma_sub_add_cancel(a: Xfe, c: u64)
    requires
        a.wf(),
    ensures
        xfe_add_spec(xfe_sub_spec(a, lift_spec(c)), lift_spec(c)) == a,
{
    let m = P as int;
    lemma_add_mod_noop(a.c0 - c, c as int, m);
    lemma_mod_twice(c as int, m);
    lemma_add_mod_noop(a.c0 - c, (c as int) % m, m);
}

} // verus!
