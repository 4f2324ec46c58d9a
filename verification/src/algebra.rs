//! The evaluation algebra for affine column combinations.
//!
//! The same combination is interpretable under two algebras: concrete field
//! arithmetic, and symbolic expression composition. [`PairAlgebra`] is the
//! minimal interface the evaluator needs: a conversion from a field element,
//! a conversion from a row value, addition of results, and multiplication of
//! a result by a field-element weight. [`apply_fold`] is the spec-level
//! meaning of evaluation: the left-to-right fold the evaluator performs.

use vstd::prelude::*;

use crate::ring::PairRing;
use crate::virtual_column::{col_val, PairCol};

verus! {

/// A result algebra `Self` over row values `V`, with weights drawn from `F`.
///
/// `expr_inv` is well-formedness of a result, `var_inv` of a row value.
/// Every executable operation agrees with its spec-level counterpart and
/// preserves well-formedness.
pub trait PairAlgebra<F: PairRing, V: Copy>: Sized {
    /// Well-formedness of a result value.
    spec fn expr_inv(self) -> bool;

    /// Well-formedness of a row value.
    spec fn var_inv(v: V) -> bool;

    /// The image of a field element in the algebra.
    spec fn spec_from_field(f: F) -> Self;

    /// The image of a row value in the algebra.
    spec fn spec_from_var(v: V) -> Self;

    /// Addition of results.
    spec fn spec_add_expr(self, o: Self) -> Self;

    /// Multiplication of a result by a field-element weight.
    spec fn spec_mul_weight(self, w: F) -> Self;

    fn lift_field(f: F) -> (r: Self)
        requires
            f.inv(),
        ensures
            r == Self::spec_from_field(f),
            r.expr_inv(),
    ;

    fn lift_var(v: V) -> (r: Self)
        requires
            Self::var_inv(v),
        ensures
            r == Self::spec_from_var(v),
            r.expr_inv(),
    ;

    fn add_expr(self, o: Self) -> (r: Self)
        requires
            self.expr_inv(),
            o.expr_inv(),
        ensures
            r == self.spec_add_expr(o),
            r.expr_inv(),
    ;

    fn mul_weight(self, w: F) -> (r: Self)
        requires
            self.expr_inv(),
            w.inv(),
        ensures
            r == self.spec_mul_weight(w),
            r.expr_inv(),
    ;
}

/// Concrete evaluation: any ring of field elements is an algebra over itself,
/// with both conversions the identity.
impl<F: PairRing> PairAlgebra<F, F> for F {
    open spec fn expr_inv(self) -> bool {
        self.inv()
    }

    open spec fn var_inv(v: F) -> bool {
        v.inv()
    }

    open spec fn spec_from_field(f: F) -> F {
        f
    }

    open spec fn spec_from_var(v: F) -> F {
        v
    }

    open spec fn spec_add_expr(self, o: F) -> F {
        self.spec_add(o)
    }

    open spec fn spec_mul_weight(self, w: F) -> F {
        self.spec_mul(w)
    }

    fn lift_field(f: F) -> (r: F) {
        f
    }

    fn lift_var(v: F) -> (r: F) {
        v
    }

    fn add_expr(self, o: F) -> (r: F) {
        self.add(o)
    }

    fn mul_weight(self, w: F) -> (r: F) {
        self.mul(w)
    }
}

/// The meaning of evaluating the combination `(entries, constant)` against
/// the rows `pre` and `main` under the algebra `E`: start from the image of
/// the constant and, for each entry in stored order, add the image of the
/// referenced row value multiplied by the entry's weight.
pub open spec fn apply_fold<F: PairRing, V: Copy, E: PairAlgebra<F, V>>(
    entries: Seq<(PairCol, F)>,
    constant: F,
    pre: Seq<V>,
    main: Seq<V>,
) -> E
    decreases entries.len(),
{
    if entries.len() == 0 {
        E::spec_from_field(constant)
    } else {
        apply_fold::<F, V, E>(entries.drop_last(), constant, pre, main).spec_add_expr(
            E::spec_from_var(col_val(entries.last().0, pre, main)).spec_mul_weight(
                entries.last().1,
            ),
        )
    }
}

} // verus!
