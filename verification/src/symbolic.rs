//! Symbolic interpretation of affine column combinations.
//!
//! During constraint compilation an affine form is not evaluated over field
//! values but over expression nodes. [`SymExpr`] is such a deferred
//! expression: a tree of literals, column variables, sums and scalings. It
//! implements [`PairAlgebra`](crate::algebra::PairAlgebra), so
//! [`VirtualPairCol::apply`](crate::virtual_column::VirtualPairCol::apply)
//! can build it, and [`SymExpr::eval`] later substitutes concrete rows.

use vstd::prelude::*;

use crate::algebra::PairAlgebra;
use crate::ring::PairRing;
use crate::virtual_column::{col_in_range, col_val, PairCol};

verus! {

/// A deferred arithmetic expression over column variables, with weights and
/// literals drawn from `F`.
#[derive(Debug)]
pub enum SymExpr<F> {
    /// A literal field element.
    Lit(F),
    /// The value of one column, to be substituted later.
    Var(PairCol),
    /// The sum of two expressions.
    Add(Box<SymExpr<F>>, Box<SymExpr<F>>),
    /// An expression multiplied by a field-element weight.
    Scale(Box<SymExpr<F>>, F),
}

/// The value of the expression once the two concrete rows are substituted
/// for its column variables.
pub open spec fn sym_eval<F: PairRing>(e: SymExpr<F>, pre: Seq<F>, main: Seq<F>) -> F
    decreases e,
{
    match e {
        SymExpr::Lit(x) => x,
        SymExpr::Var(c) => col_val(c, pre, main),
        SymExpr::Add(a, b) => sym_eval(*a, pre, main).spec_add(sym_eval(*b, pre, main)),
        SymExpr::Scale(a, w) => sym_eval(*a, pre, main).spec_mul(w),
    }
}

/// Well-formedness of the expression against rows of the given lengths:
/// every column variable is in range and every embedded field element is
/// well formed.
pub open spec fn sym_wf<F: PairRing>(e: SymExpr<F>, pre_len: nat, main_len: nat) -> bool
    decreases e,
{
    match e {
        SymExpr::Lit(x) => x.inv(),
        SymExpr::Var(c) => col_in_range(c, pre_len, main_len),
        SymExpr::Add(a, b) => sym_wf(*a, pre_len, main_len) && sym_wf(*b, pre_len, main_len),
        SymExpr::Scale(a, w) => sym_wf(*a, pre_len, main_len) && w.inv(),
    }
}

/// Well-formedness of the embedded field elements alone, independent of any
/// row lengths.
pub open spec fn sym_consts_inv<F: PairRing>(e: SymExpr<F>) -> bool
    decreases e,
{
    match e {
        SymExpr::Lit(x) => x.inv(),
        SymExpr::Var(_) => true,
        SymExpr::Add(a, b) => sym_consts_inv(*a) && sym_consts_inv(*b),
        SymExpr::Scale(a, w) => sym_consts_inv(*a) && w.inv(),
    }
}

/// Symbolic composition: expressions form an algebra over column-reference
/// row values, where addition and scaling build nodes instead of computing.
impl<F: PairRing> PairAlgebra<F, PairCol> for SymExpr<F> {
    open spec fn expr_inv(self) -> bool {
        sym_consts_inv(self)
    }

    open spec fn var_inv(v: PairCol) -> bool {
        true
    }

    open spec fn spec_from_field(f: F) -> Self {
        SymExpr::Lit(f)
    }

    open spec fn spec_from_var(v: PairCol) -> Self {
        SymExpr::Var(v)
    }

    open spec fn spec_add_expr(self, o: Self) -> Self {
        SymExpr::Add(Box::new(self), Box::new(o))
    }

    open spec fn spec_mul_weight(self, w: F) -> Self {
        SymExpr::Scale(Box::new(self), w)
    }

    fn lift_field(f: F) -> (r: Self) {
        SymExpr::Lit(f)
    }

    fn lift_var(v: PairCol) -> (r: Self) {
        SymExpr::Var(v)
    }

    fn add_expr(self, o: Self) -> (r: Self) {
        SymExpr::Add(Box::new(self), Box::new(o))
    }

    fn mul_weight(self, w: F) -> (r: Self) {
        SymExpr::Scale(Box::new(self), w)
    }
}

impl<F: PairRing> SymExpr<F> {
    /// Substitutes one concrete row of each table for the column variables
    /// and computes the expression's value.
    pub fn eval(&self, preprocessed: &[F], main: &[F]) -> (r: F)
        requires
            sym_wf(*self, preprocessed@.len(), main@.len()),
            forall|k: int| 0 <= k < preprocessed@.len() ==> (#[trigger] preprocessed@[k]).inv(),
            forall|k: int| 0 <= k < main@.len() ==> (#[trigger] main@[k]).inv(),
        ensures
            r == sym_eval(*self, preprocessed@, main@),
            r.inv(),
        decreases *self,
    {
        match self {
            SymExpr::Lit(x) => *x,
            SymExpr::Var(c) => c.get(preprocessed, main),
            SymExpr::Add(a, b) => {
                let x = a.eval(preprocessed, main);
                let y = b.eval(preprocessed, main);
                x.add(y)
            },
            SymExpr::Scale(a, w) => {
                let x = a.eval(preprocessed, main);
                x.mul(*w)
            },
        }
    }
}

} // verus!
