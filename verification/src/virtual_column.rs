//! Column references and weighted affine forms over a pair of trace tables.
//!
//! A [`PairCol`] names one column in either the preprocessed table or the
//! main table. A [`VirtualPairCol`] is an affine function
//! `constant + sum of weight * column` over such columns; it is built once,
//! is immutable afterward, and can be evaluated under any
//! [`PairAlgebra`](crate::algebra::PairAlgebra) — concrete field arithmetic
//! or symbolic expression composition — through [`VirtualPairCol::apply`].

use vstd::prelude::*;

use crate::algebra::{apply_fold, PairAlgebra};
use crate::ring::PairRing;
use vstd::slice::slice_index_get;

verus! {

/// A column in a pair of tables: either a preprocessed column or a main
/// trace column. The index must be valid for whichever table it addresses
/// at lookup time; that is a caller obligation.
#[derive(Clone, Copy, Debug, PartialEq, Eq, Structural)]
pub enum PairCol {
    Preprocessed(usize),
    Main(usize),
}

/// Whether the column reference is in range for rows of the given lengths.
pub open spec fn col_in_range(c: PairCol, pre_len: nat, main_len: nat) -> bool {
    match c {
        PairCol::Preprocessed(i) => i < pre_len,
        PairCol::Main(i) => i < main_len,
    }
}

/// The value the column reference selects from the two rows.
pub open spec fn col_val<T>(c: PairCol, pre: Seq<T>, main: Seq<T>) -> T {
    match c {
        PairCol::Preprocessed(i) => pre[i as int],
        PairCol::Main(i) => main[i as int],
    }
}

impl PairCol {
    /// Resolves the reference against one row of each table.
    pub fn get<T: Copy>(&self, preprocessed: &[T], main: &[T]) -> (r: T)
        requires
            col_in_range(*self, preprocessed@.len(), main@.len()),
        ensures
            r == col_val(*self, preprocessed@, main@),
    {
        match self {
            PairCol::Preprocessed(i) => *slice_index_get(preprocessed, *i),
            PairCol::Main(i) => *slice_index_get(main, *i),
        }
    }
}

/// An affine function over columns in a pair of tables: an ordered list of
/// `(column, weight)` entries plus a constant, standing for
/// `constant + sum of weight * column`.
#[derive(Clone, Debug)]
pub struct VirtualPairCol<F> {
    column_weights: Vec<(PairCol, F)>,
    constant: F,
}

/// The entry list obtained by tagging each indexed weight as a preprocessed
/// column.
pub open spec fn pre_entries<F>(s: Seq<(usize, F)>) -> Seq<(PairCol, F)> {
    s.map_values(|p: (usize, F)| (PairCol::Preprocessed(p.0), p.1))
}

/// The entry list obtained by tagging each indexed weight as a main column.
pub open spec fn main_entries<F>(s: Seq<(usize, F)>) -> Seq<(PairCol, F)> {
    s.map_values(|p: (usize, F)| (PairCol::Main(p.0), p.1))
}

/// A single column with weight one.
pub open spec fn single_entries<F: PairRing>(column: PairCol) -> Seq<(PairCol, F)> {
    seq![(column, F::spec_one())]
}

/// The listed main columns, each with weight one.
pub open spec fn sum_main_entries<F: PairRing>(columns: Seq<usize>) -> Seq<(PairCol, F)> {
    columns.map_values(|c: usize| (PairCol::Main(c), F::spec_one()))
}

/// The listed preprocessed columns, each with weight one.
pub open spec fn sum_pre_entries<F: PairRing>(columns: Seq<usize>) -> Seq<(PairCol, F)> {
    columns.map_values(|c: usize| (PairCol::Preprocessed(c), F::spec_one()))
}

/// Weight one on preprocessed column `a_col`, weight minus one on `b_col`.
pub open spec fn diff_pre_entries<F: PairRing>(a_col: usize, b_col: usize) -> Seq<
    (PairCol, F),
> {
    seq![
        (PairCol::Preprocessed(a_col), F::spec_one()),
        (PairCol::Preprocessed(b_col), F::spec_neg_one()),
    ]
}

/// Weight one on main column `a_col`, weight minus one on `b_col`.
pub open spec fn diff_main_entries<F: PairRing>(a_col: usize, b_col: usize) -> Seq<
    (PairCol, F),
> {
    seq![(PairCol::Main(a_col), F::spec_one()), (PairCol::Main(b_col), F::spec_neg_one())]
}

impl<F: PairRing> VirtualPairCol<F> {
    /// The entry list, in stored order.
    pub closed spec fn entries(self) -> Seq<(PairCol, F)> {
        self.column_weights@
    }

    /// The constant term.
    pub closed spec fn constant_val(self) -> F {
        self.constant
    }

    /// Well-formedness: the constant and every weight are well formed.
    pub open spec fn wf(self) -> bool {
        &&& self.constant_val().inv()
        &&& forall|k: int|
            0 <= k < self.entries().len() ==> (#[trigger] self.entries()[k]).1.inv()
    }

    /// General constructor from an entry list and a constant.
    pub fn new(column_weights: Vec<(PairCol, F)>, constant: F) -> (r: Self)
        requires
            constant.inv(),
            forall|k: int|
                0 <= k < column_weights@.len() ==> (#[trigger] column_weights@[k]).1.inv(),
        ensures
            r.entries() == column_weights@,
            r.constant_val() == constant,
            r.wf(),
    {
        VirtualPairCol { column_weights, constant }
    }

    /// Constructor from an entry list the form will own.
    pub fn new_owned(column_weights: Vec<(PairCol, F)>, constant: F) -> (r: Self)
        requires
            constant.inv(),
            forall|k: int|
                0 <= k < column_weights@.len() ==> (#[trigger] column_weights@[k]).1.inv(),
        ensures
            r.entries() == column_weights@,
            r.constant_val() == constant,
            r.wf(),
    {
        Self::new(column_weights, constant)
    }

    /// Constructor from externally owned entry storage; the entries are
    /// copied into the form.
    pub fn new_borrowed(column_weights: &[(PairCol, F)], constant: F) -> (r: Self)
        requires
            constant.inv(),
            forall|k: int|
                0 <= k < column_weights@.len() ==> (#[trigger] column_weights@[k]).1.inv(),
        ensures
            r.entries() == column_weights@,
            r.constant_val() == constant,
            r.wf(),
    {
        Self::new(vstd::slice::slice_to_vec(column_weights), constant)
    }

    /// Constructor from weights on preprocessed columns.
    pub fn new_preprocessed(column_weights: Vec<(usize, F)>, constant: F) -> (r: Self)
        requires
            constant.inv(),
            forall|k: int|
                0 <= k < column_weights@.len() ==> (#[trigger] column_weights@[k]).1.inv(),
        ensures
            r.entries() == pre_entries(column_weights@),
            r.constant_val() == constant,
            r.wf(),
    {
        let mut entries: Vec<(PairCol, F)> = Vec::new();
        let mut k: usize = 0;
        while k < column_weights.len()
            invariant
                k <= column_weights@.len(),
                entries@.len() == k,
                forall|j: int|
                    0 <= j < k ==> entries@[j] == (
                        PairCol::Preprocessed((#[trigger] column_weights@[j]).0),
                        column_weights@[j].1,
                    ),
                forall|j: int|
                    0 <= j < column_weights@.len() ==> (#[trigger] column_weights@[j]).1.inv(),
            decreases column_weights@.len() - k,
        {
            let p = column_weights[k];
            entries.push((PairCol::Preprocessed(p.0), p.1));
            k += 1;
        }
        proof {
            assert(entries@ =~= pre_entries(column_weights@));
        }
        Self::new(entries, constant)
    }

    /// Constructor from weights on main columns.
    pub fn new_main(column_weights: Vec<(usize, F)>, constant: F) -> (r: Self)
        requires
            constant.inv(),
            forall|k: int|
                0 <= k < column_weights@.len() ==> (#[trigger] column_weights@[k]).1.inv(),
        ensures
            r.entries() == main_entries(column_weights@),
            r.constant_val() == constant,
            r.wf(),
    {
        let mut entries: Vec<(PairCol, F)> = Vec::new();
        let mut k: usize = 0;
        while k < column_weights.len()
            invariant
                k <= column_weights@.len(),
                entries@.len() == k,
                forall|j: int|
                    0 <= j < k ==> entries@[j] == (
                        PairCol::Main((#[trigger] column_weights@[j]).0),
                        column_weights@[j].1,
                    ),
                forall|j: int|
                    0 <= j < column_weights@.len() ==> (#[trigger] column_weights@[j]).1.inv(),
            decreases column_weights@.len() - k,
        {
            let p = column_weights[k];
            entries.push((PairCol::Main(p.0), p.1));
            k += 1;
        }
        proof {
            assert(entries@ =~= main_entries(column_weights@));
        }
        Self::new(entries, constant)
    }

    /// Read-only view of the entry list.
    pub fn get_column_weights(&self) -> (r: &[(PairCol, F)])
        ensures
            r@ == self.entries(),
    {
        self.column_weights.as_slice()
    }

    /// The constant term.
    pub fn get_constant(&self) -> (r: F)
        ensures
            r == self.constant_val(),
    {
        self.constant
    }

    /// The constant form whose value is the multiplicative identity.
    pub fn one() -> (r: Self)
        ensures
            r.entries() == Seq::<(PairCol, F)>::empty(),
            r.constant_val() == F::spec_one(),
            r.wf(),
    {
        Self::constant(F::one())
    }

    /// The form with no entries whose value is `x` on every row.
    pub fn constant(x: F) -> (r: Self)
        requires
            x.inv(),
        ensures
            r.entries() == Seq::<(PairCol, F)>::empty(),
            r.constant_val() == x,
            r.wf(),
    {
        let entries: Vec<(PairCol, F)> = Vec::new();
        proof {
            assert(entries@ =~= Seq::<(PairCol, F)>::empty());
        }
        Self::new(entries, x)
    }

    /// Weight one on the given column, constant zero.
    pub fn single(column: PairCol) -> (r: Self)
        ensures
            r.entries() == single_entries::<F>(column),
            r.constant_val() == F::spec_zero(),
            r.wf(),
    {
        let mut entries: Vec<(PairCol, F)> = Vec::new();
        entries.push((column, F::one()));
        proof {
            assert(entries@ =~= single_entries::<F>(column));
        }
        Self::new(entries, F::zero())
    }

    /// Weight one on one preprocessed column, constant zero.
    pub fn single_preprocessed(column: usize) -> (r: Self)
        ensures
            r.entries() == single_entries::<F>(PairCol::Preprocessed(column)),
            r.constant_val() == F::spec_zero(),
            r.wf(),
    {
        Self::single(PairCol::Preprocessed(column))
    }

    /// Weight one on one main column, constant zero.
    pub fn single_main(column: usize) -> (r: Self)
        ensures
            r.entries() == single_entries::<F>(PairCol::Main(column)),
            r.constant_val() == F::spec_zero(),
            r.wf(),
    {
        Self::single(PairCol::Main(column))
    }

    /// Weight one on each listed main column, constant zero.
    pub fn sum_main(columns: Vec<usize>) -> (r: Self)
        ensures
            r.entries() == sum_main_entries::<F>(columns@),
            r.constant_val() == F::spec_zero(),
            r.wf(),
    {
        let mut column_weights: Vec<(usize, F)> = Vec::new();
        let mut k: usize = 0;
        while k < columns.len()
            invariant
                k <= columns@.len(),
                column_weights@.len() == k,
                forall|j: int|
                    0 <= j < k ==> column_weights@[j] == (
                        (#[trigger] columns@[j]),
                        F::spec_one(),
                    ),
            decreases columns@.len() - k,
        {
            column_weights.push((columns[k], F::one()));
            k += 1;
        }
        proof {
            F::law_consts_inv();
            let ghost cw = column_weights@;
            assert(main_entries(cw) =~= sum_main_entries::<F>(columns@));
            assert forall|j: int| 0 <= j < cw.len() implies (#[trigger] cw[j]).1.inv() by {
                assert(cw[j] == (columns@[j], F::spec_one()));
            }
        }
        Self::new_main(column_weights, F::zero())
    }

    /// Weight one on each listed preprocessed column, constant zero.
    pub fn sum_preprocessed(columns: Vec<usize>) -> (r: Self)
        ensures
            r.entries() == sum_pre_entries::<F>(columns@),
            r.constant_val() == F::spec_zero(),
            r.wf(),
    {
        let mut column_weights: Vec<(usize, F)> = Vec::new();
        let mut k: usize = 0;
        while k < columns.len()
            invariant
                k <= columns@.len(),
                column_weights@.len() == k,
                forall|j: int|
                    0 <= j < k ==> column_weights@[j] == (
                        (#[trigger] columns@[j]),
                        F::spec_one(),
                    ),
            decreases columns@.len() - k,
        {
            column_weights.push((columns[k], F::one()));
            k += 1;
        }
        proof {
            F::law_consts_inv();
            let ghost cw = column_weights@;
            assert(pre_entries(cw) =~= sum_pre_entries::<F>(columns@));
            assert forall|j: int| 0 <= j < cw.len() implies (#[trigger] cw[j]).1.inv() by {
                assert(cw[j] == (columns@[j], F::spec_one()));
            }
        }
        Self::new_preprocessed(column_weights, F::zero())
    }

    /// `a - b`, where `a` and `b` are columns in the preprocessed trace.
    pub fn diff_preprocessed(a_col: usize, b_col: usize) -> (r: Self)
        ensures
            r.entries() == diff_pre_entries::<F>(a_col, b_col),
            r.constant_val() == F::spec_zero(),
            r.wf(),
    {
        let mut column_weights: Vec<(usize, F)> = Vec::new();
        column_weights.push((a_col, F::one()));
        column_weights.push((b_col, F::neg_one()));
        let ghost cw = column_weights@;
        let r = Self::new_preprocessed(column_weights, F::zero());
        proof {
            assert(pre_entries(cw) =~= diff_pre_entries::<F>(a_col, b_col));
        }
        r
    }

    /// `a - b`, where `a` and `b` are columns in the main trace.
    pub fn diff_main(a_col: usize, b_col: usize) -> (r: Self)
        ensures
            r.entries() == diff_main_entries::<F>(a_col, b_col),
            r.constant_val() == F::spec_zero(),
            r.wf(),
    {
        let mut column_weights: Vec<(usize, F)> = Vec::new();
        column_weights.push((a_col, F::one()));
        column_weights.push((b_col, F::neg_one()));
        let ghost cw = column_weights@;
        let r = Self::new_main(column_weights, F::zero());
        proof {
            assert(main_entries(cw) =~= diff_main_entries::<F>(a_col, b_col));
        }
        r
    }

    /// Evaluates the form against one row of each table, under any result
    /// algebra: concrete field arithmetic or symbolic composition. The
    /// result is the fold described by
    /// [`apply_fold`](crate::algebra::apply_fold).
    pub fn apply<E: PairAlgebra<F, V>, V: Copy>(
        &self,
        preprocessed: &[V],
        main: &[V],
    ) -> (r: E)
        requires
            self.wf(),
            forall|k: int|
                0 <= k < self.entries().len() ==> col_in_range(
                    (#[trigger] self.entries()[k]).0,
                    preprocessed@.len(),
                    main@.len(),
                ),
            forall|k: int|
                0 <= k < preprocessed@.len() ==> E::var_inv(#[trigger] preprocessed@[k]),
            forall|k: int| 0 <= k < main@.len() ==> E::var_inv(#[trigger] main@[k]),
        ensures
            r == apply_fold::<F, V, E>(
                self.entries(),
                self.constant_val(),
                preprocessed@,
                main@,
            ),
            r.expr_inv(),
    {
        let mut result: E = E::lift_field(self.constant);
        let n: usize = self.column_weights.len();
        let mut k: usize = 0;
        while k < n
            invariant
                k <= n,
                n == self.entries().len(),
                self.wf(),
                forall|j: int|
                    0 <= j < self.entries().len() ==> col_in_range(
                        (#[trigger] self.entries()[j]).0,
                        preprocessed@.len(),
                        main@.len(),
                    ),
                forall|j: int|
                    0 <= j < preprocessed@.len() ==> E::var_inv(#[trigger] preprocessed@[j]),
                forall|j: int| 0 <= j < main@.len() ==> E::var_inv(#[trigger] main@[j]),
                result == apply_fold::<F, V, E>(
                    self.entries().take(k as int),
                    self.constant_val(),
                    preprocessed@,
                    main@,
                ),
                result.expr_inv(),
            decreases n - k,
        {
            let e = self.column_weights[k];
            let v: V = e.0.get(preprocessed, main);
            let term: E = E::lift_var(v).mul_weight(e.1);
            result = result.add_expr(term);
            proof {
                let taken = self.entries().take(k as int + 1);
                assert(taken.drop_last() =~= self.entries().take(k as int));
                assert(taken.last() == self.entries()[k as int]);
            }
            k += 1;
        }
        proof {
            assert(self.entries().take(n as int) =~= self.entries());
        }
        result
    }
}

} // verus!
