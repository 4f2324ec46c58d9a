//! The algebraic interface that field elements must offer.
//!
//! Weights and constants of an affine column combination are drawn from a
//! commutative ring with the identities `zero`, `one` and `neg_one` (the
//! additive inverse of `one`). The interface is deliberately minimal: it
//! lists exactly the operations and laws that affine evaluation relies on.

use vstd::prelude::*;

verus! {

/// A commutative ring of field elements, as affine column combinations use it.
///
/// Each implementation supplies a well-formedness predicate `inv`, spec-level
/// operations that are total on the carrier, executable operations that agree
/// with them on well-formed values, and proofs of the ring laws.
///
/// The commutativity and associativity laws (and the laws that relate
/// multiplication by an identity to negation) are required on *all* carrier
/// values, so spec-level operations must normalise their operands; the
/// identity laws are required only on well-formed values.
pub trait PairRing: Sized + Copy {
    /// Well-formedness of a carrier value.
    spec fn inv(self) -> bool;

    /// The additive identity.
    spec fn spec_zero() -> Self;

    /// The multiplicative identity.
    spec fn spec_one() -> Self;

    /// The additive inverse of the multiplicative identity.
    spec fn spec_neg_one() -> Self;

    /// Addition on the carrier.
    spec fn spec_add(self, o: Self) -> Self;

    /// Multiplication on the carrier.
    spec fn spec_mul(self, o: Self) -> Self;

    /// Additive inverse on the carrier.
    spec fn spec_neg(self) -> Self;

    fn zero() -> (r: Self)
        ensures
            r == Self::spec_zero(),
            r.inv(),
    ;

    fn one() -> (r: Self)
        ensures
            r == Self::spec_one(),
            r.inv(),
    ;

    fn neg_one() -> (r: Self)
        ensures
            r == Self::spec_neg_one(),
            r.inv(),
    ;

    fn add(self, o: Self) -> (r: Self)
        requires
            self.inv(),
            o.inv(),
        ensures
            r == self.spec_add(o),
            r.inv(),
    ;

    fn mul(self, o: Self) -> (r: Self)
        requires
            self.inv(),
            o.inv(),
        ensures
            r == self.spec_mul(o),
            r.inv(),
    ;

    fn neg(self) -> (r: Self)
        requires
            self.inv(),
        ensures
            r == self.spec_neg(),
            r.inv(),
    ;

    /// Addition is commutative.
    proof fn law_add_comm(a: Self, b: Self)
        ensures
            a.spec_add(b) == b.spec_add(a),
    ;

    /// Addition is associative.
    proof fn law_add_assoc(a: Self, b: Self, c: Self)
        ensures
            a.spec_add(b).spec_add(c) == a.spec_add(b.spec_add(c)),
    ;

    /// Multiplication is commutative.
    proof fn law_mul_comm(a: Self, b: Self)
        ensures
            a.spec_mul(b) == b.spec_mul(a),
    ;

    /// `zero` is an additive identity on well-formed values.
    proof fn law_add_zero(a: Self)
        requires
            a.inv(),
        ensures
            a.spec_add(Self::spec_zero()) == a,
    ;

    /// `one` is a multiplicative identity on well-formed values.
    proof fn law_mul_one(a: Self)
        requires
            a.inv(),
        ensures
            a.spec_mul(Self::spec_one()) == a,
    ;

    /// Multiplying a well-formed value by `neg_one` negates it.
    proof fn law_mul_neg_one(a: Self)
        requires
            a.inv(),
        ensures
            a.spec_mul(Self::spec_neg_one()) == a.spec_neg(),
    ;

    /// Negation distributes over addition of well-formed values.
    proof fn law_neg_add(a: Self, b: Self)
        requires
            a.inv(),
            b.inv(),
        ensures
            a.spec_add(b).spec_neg() == a.spec_neg().spec_add(b.spec_neg()),
    ;

    /// Negation is an involution on well-formed values.
    proof fn law_neg_neg(a: Self)
        requires
            a.inv(),
        ensures
            a.spec_neg().spec_neg() == a,
    ;

    /// Addition preserves well-formedness.
    proof fn law_add_inv(a: Self, b: Self)
        requires
            a.inv(),
            b.inv(),
        ensures
            a.spec_add(b).inv(),
    ;

    /// Multiplication preserves well-formedness.
    proof fn law_mul_inv(a: Self, b: Self)
        requires
            a.inv(),
            b.inv(),
        ensures
            a.spec_mul(b).inv(),
    ;

    /// Negation preserves well-formedness.
    proof fn law_neg_inv(a: Self)
        requires
            a.inv(),
        ensures
            a.spec_neg().inv(),
    ;

    /// The identities are well-formed.
    proof fn law_consts_inv()
        ensures
            Self::spec_zero().inv(),
            Self::spec_one().inv(),
            Self::spec_neg_one().inv(),
    ;
}

} // verus!
