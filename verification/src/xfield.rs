//! The extension field carrying challenges and running-argument values.
//!
//! An element is a degree-three polynomial over the base field, reduced modulo
//! `x^3 - x + 1`. Its mathematical value is the triple of coefficient
//! residues, `vals()`; the executable operations carry exact contracts over
//! the triple arithmetic (`xadd_v`, `xsub_v`, `xmul_v`).

use vstd::prelude::*;
use crate::field::{Bfe, fadd, fsub, fmul, fvalid, lemma_field_identities};

verus! {

/// The coefficient triple of the additive identity.
pub open spec fn xzero_v() -> (int, int, int) {
    (0, 0, 0)
}

/// The coefficient triple of the multiplicative identity.
pub open spec fn xone_v() -> (int, int, int) {
    (1, 0, 0)
}

/// The triple a base residue lifts to.
pub open spec fn lift_v(a: int) -> (int, int, int) {
    (a, 0, 0)
}

/// Whether every coefficient of the triple is a canonical residue.
pub open spec fn xvalid(a: (int, int, int)) -> bool {
    fvalid(a.0) && fvalid(a.1) && fvalid(a.2)
}

/// Coefficient-wise addition.
pub open spec fn xadd_v(a: (int, int, int), b: (int, int, int)) -> (int, int, int) {
    (fadd(a.0, b.0), fadd(a.1, b.1), fadd(a.2, b.2))
}

/// Coefficient-wise subtraction.
pub open spec fn xsub_v(a: (int, int, int), b: (int, int, int)) -> (int, int, int) {
    (fsub(a.0, b.0), fsub(a.1, b.1), fsub(a.2, b.2))
}

/// Polynomial multiplication reduced modulo `x^3 - x + 1`, so that
/// `x^3 = x - 1` and `x^4 = x^2 - x`.
pub open spec fn xmul_v(a: (int, int, int), b: (int, int, int)) -> (int, int, int) {
    let d0 = fmul(a.0, b.0);
    let d1 = fadd(fmul(a.0, b.1), fmul(a.1, b.0));
    let d2 = fadd(fadd(fmul(a.0, b.2), fmul(a.1, b.1)), fmul(a.2, b.0));
    let d3 = fadd(fmul(a.1, b.2), fmul(a.2, b.1));
    let d4 = fmul(a.2, b.2);
    (fsub(d0, d3), fsub(fadd(d1, d3), d4), fadd(d2, d4))
}

/// An extension-field element with coefficients `c0 + c1*x + c2*x^2`.
#[derive(Clone, Copy, Debug, PartialEq, Eq, Structural)]
pub struct Xfe {
    c0: Bfe,
    c1: Bfe,
    c2: Bfe,
}

impl Xfe {
    /// The coefficient triple this element stands for.
    pub closed spec fn vals(self) -> (int, int, int) {
        (self.c0.val(), self.c1.val(), self.c2.val())
    }

    /// Every element's coefficients are canonical residues.
    pub proof fn lemma_valid(self)
        ensures
            xvalid(self.vals()),
    {
        self.c0.lemma_valid();
        self.c1.lemma_valid();
        self.c2.lemma_valid();
    }

    /// The element with the given coefficients.
    pub fn new(c0: Bfe, c1: Bfe, c2: Bfe) -> (r: Self)
        ensures
            r.vals() == (c0.val(), c1.val(), c2.val()),
    {
        Xfe { c0, c1, c2 }
    }

    /// The additive identity.
    pub fn zero() -> (r: Self)
        ensures
            r.vals() == xzero_v(),
    {
        Xfe { c0: Bfe::zero(), c1: Bfe::zero(), c2: Bfe::zero() }
    }

    /// The multiplicative identity.
    pub fn one() -> (r: Self)
        ensures
            r.vals() == xone_v(),
    {
        Xfe { c0: Bfe::one(), c1: Bfe::zero(), c2: Bfe::zero() }
    }

    /// The lift of a base-field element.
    pub fn lift(a: Bfe) -> (r: Self)
        ensures
            r.vals() == lift_v(a.val()),
    {
        Xfe { c0: a, c1: Bfe::zero(), c2: Bfe::zero() }
    }

    /// The constant coefficient, the whole residue for a lifted element.
    pub fn coefficient0(self) -> (r: Bfe)
        ensures
            r.val() == self.vals().0,
    {
        self.c0
    }

    /// Whether this element is the additive identity.
    pub fn is_zero(self) -> (r: bool)
        ensures
            r <==> self.vals() == xzero_v(),
    {
        self.c0.is_zero() && self.c1.is_zero() && self.c2.is_zero()
    }

    /// Extension-field addition.
    pub fn add(self, other: Self) -> (r: Self)
        ensures
            r.vals() == xadd_v(self.vals(), other.vals()),
    {
        Xfe { c0: self.c0.add(other.c0), c1: self.c1.add(other.c1), c2: self.c2.add(other.c2) }
    }

    /// Extension-field subtraction.
    pub fn sub(self, other: Self) -> (r: Self)
        ensures
            r.vals() == xsub_v(self.vals(), other.vals()),
    {
        Xfe { c0: self.c0.sub(other.c0), c1: self.c1.sub(other.c1), c2: self.c2.sub(other.c2) }
    }

    /// Extension-field multiplication.
    pub fn mul(self, other: Self) -> (r: Self)
        ensures
            r.vals() == xmul_v(self.vals(), other.vals()),
    {
        let d0 = self.c0.mul(other.c0);
        let d1 = self.c0.mul(other.c1).add(self.c1.mul(other.c0));
        let d2 = self.c0.mul(other.c2).add(self.c1.mul(other.c1)).add(self.c2.mul(other.c0));
        let d3 = self.c1.mul(other.c2).add(self.c2.mul(other.c1));
        let d4 = self.c2.mul(other.c2);
        Xfe { c0: d0.sub(d3), c1: d1.add(d3).sub(d4), c2: d2.add(d4) }
    }
}

/// Identities of the triple arithmetic on canonical triples.
pub proof fn lemma_xfield_identities(a: (int, int, int))
    requires
        xvalid(a),
    ensures
        xadd_v(a, xzero_v()) == a,
        xadd_v(xzero_v(), a) == a,
        xsub_v(a, xzero_v()) == a,
        xsub_v(a, a) == xzero_v(),
        xmul_v(a, xzero_v()) == xzero_v(),
        xmul_v(xzero_v(), a) == xzero_v(),
        xmul_v(a, xone_v()) == a,
        xmul_v(xone_v(), a) == a,
{
    lemma_field_identities(a.0, a.1);
    lemma_field_identities(a.1, a.2);
    lemma_field_identities(a.2, a.0);
    lemma_field_identities(0, 0);
    lemma_field_identities(fadd(0, 0), 0);
}

/// Validity of the triple arithmetic's results.
pub proof fn lemma_xfield_valid(a: (int, int, int), b: (int, int, int))
    ensures
        xvalid(xadd_v(a, b)),
        xvalid(xsub_v(a, b)),
        xvalid(xmul_v(a, b)),
        xvalid(xzero_v()),
        xvalid(xone_v()),
{
}

/// Lifting base residues commutes with the field operations.
pub proof fn lemma_lift_homomorphism(a: int, b: int)
    requires
        fvalid(a),
        fvalid(b),
    ensures
        xadd_v(lift_v(a), lift_v(b)) == lift_v(fadd(a, b)),
        xsub_v(lift_v(a), lift_v(b)) == lift_v(fsub(a, b)),
        xmul_v(lift_v(a), lift_v(b)) == lift_v(fmul(a, b)),
        lift_v(0) == xzero_v(),
        lift_v(1) == xone_v(),
{
    lemma_field_identities(a, b);
    lemma_field_identities(fmul(a, b), 0);
    lemma_field_identities(fadd(0, 0), 0);
    lemma_field_identities(0, 0);
}

} // verus!
