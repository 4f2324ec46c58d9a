//! The algebraic laws of affine evaluation.
//!
//! [`VirtualPairCol::apply`](crate::virtual_column::VirtualPairCol::apply)
//! promises exactly the fold [`apply_fold`](crate::algebra::apply_fold).
//! The proof functions here relate that fold, for every ring of field
//! elements, to the direct arithmetic reading
//! `constant + sum of weight * column`, to the values of the factory forms,
//! and to symbolic evaluation followed by substitution.

use vstd::prelude::*;

use crate::algebra::apply_fold;
use crate::ring::PairRing;
use crate::symbolic::{sym_eval, sym_wf, SymExpr};
use crate::virtual_column::{
    col_in_range, col_val, diff_main_entries, single_entries, sum_main_entries, PairCol,
};
use vstd::seq_lib::{commutative_foldl, lemma_fold_left_permutation};

verus! {

/// The weighted sum `sum of weight * column` of an entry list, read against
/// two concrete rows, accumulated in stored order.
pub open spec fn weighted_sum<F: PairRing>(
    entries: Seq<(PairCol, F)>,
    pre: Seq<F>,
    main: Seq<F>,
) -> F
    decreases entries.len(),
{
    if entries.len() == 0 {
        F::spec_zero()
    } else {
        weighted_sum(entries.drop_last(), pre, main).spec_add(
            entries.last().1.spec_mul(col_val(entries.last().0, pre, main)),
        )
    }
}

/// The direct arithmetic reading of an affine form against two concrete
/// rows: `constant + sum of weight * column`.
pub open spec fn affine_value<F: PairRing>(
    entries: Seq<(PairCol, F)>,
    constant: F,
    pre: Seq<F>,
    main: Seq<F>,
) -> F {
    constant.spec_add(weighted_sum(entries, pre, main))
}

/// Evaluating with field elements as both the result algebra and the row
/// values equals the direct arithmetic `constant + sum of weight * column`
/// computed with ordinary field operations.
pub proof fn lemma_apply_concrete<F: PairRing>(
    entries: Seq<(PairCol, F)>,
    constant: F,
    pre: Seq<F>,
    main: Seq<F>,
)
    requires
        constant.inv(),
    ensures
        apply_fold::<F, F, F>(entries, constant, pre, main) == affine_value(
            entries,
            constant,
            pre,
            main,
        ),
    decreases entries.len(),
{
    if entries.len() == 0 {
        F::law_add_zero(constant);
    } else {
        let dl = entries.drop_last();
        lemma_apply_concrete(dl, constant, pre, main);
        let v = col_val(entries.last().0, pre, main);
        let w = entries.last().1;
        F::law_mul_comm(v, w);
        F::law_add_assoc(constant, weighted_sum(dl, pre, main), w.spec_mul(v));
    }
}

/// A constant form evaluates to its constant on every pair of rows: no
/// column is looked up.
pub proof fn lemma_constant_apply<F: PairRing>(x: F, pre: Seq<F>, main: Seq<F>)
    ensures
        apply_fold::<F, F, F>(Seq::<(PairCol, F)>::empty(), x, pre, main) == x,
{
}

/// The form `one()` evaluates to the field's multiplicative identity on
/// every pair of rows.
pub proof fn lemma_one_apply<F: PairRing>(pre: Seq<F>, main: Seq<F>)
    ensures
        apply_fold::<F, F, F>(Seq::<(PairCol, F)>::empty(), F::spec_one(), pre, main)
            == F::spec_one(),
{
}

/// A single-column form on a main column evaluates to that column's value.
pub proof fn lemma_single_main_apply<F: PairRing>(i: usize, pre: Seq<F>, main: Seq<F>)
    requires
        i < main.len(),
        main[i as int].inv(),
    ensures
        apply_fold::<F, F, F>(
            single_entries::<F>(PairCol::Main(i)),
            F::spec_zero(),
            pre,
            main,
        ) == main[i as int],
{
    let entries = single_entries::<F>(PairCol::Main(i));
    assert(entries.drop_last() =~= Seq::<(PairCol, F)>::empty());
    assert(entries.last() == (PairCol::Main(i), F::spec_one()));
    let v = main[i as int];
    F::law_mul_one(v);
    F::law_consts_inv();
    F::law_add_comm(F::spec_zero(), v);
    F::law_add_zero(v);
    assert(apply_fold::<F, F, F>(Seq::<(PairCol, F)>::empty(), F::spec_zero(), pre, main)
        == F::spec_zero());
    assert(apply_fold::<F, F, F>(entries, F::spec_zero(), pre, main) == F::spec_zero().spec_add(
        v.spec_mul(F::spec_one()),
    ));
}

/// A single-column form on a preprocessed column evaluates to that column's
/// value.
pub proof fn lemma_single_preprocessed_apply<F: PairRing>(i: usize, pre: Seq<F>, main: Seq<F>)
    requires
        i < pre.len(),
        pre[i as int].inv(),
    ensures
        apply_fold::<F, F, F>(
            single_entries::<F>(PairCol::Preprocessed(i)),
            F::spec_zero(),
            pre,
            main,
        ) == pre[i as int],
{
    let entries = single_entries::<F>(PairCol::Preprocessed(i));
    assert(entries.drop_last() =~= Seq::<(PairCol, F)>::empty());
    assert(entries.last() == (PairCol::Preprocessed(i), F::spec_one()));
    let v = pre[i as int];
    F::law_mul_one(v);
    F::law_consts_inv();
    F::law_add_comm(F::spec_zero(), v);
    F::law_add_zero(v);
    assert(apply_fold::<F, F, F>(Seq::<(PairCol, F)>::empty(), F::spec_zero(), pre, main)
        == F::spec_zero());
    assert(apply_fold::<F, F, F>(entries, F::spec_zero(), pre, main) == F::spec_zero().spec_add(
        v.spec_mul(F::spec_one()),
    ));
}

/// The sum form over two main columns evaluates to the sum of the two
/// column values.
pub proof fn lemma_sum_main_pair<F: PairRing>(i: usize, j: usize, pre: Seq<F>, main: Seq<F>)
    requires
        i < main.len(),
        j < main.len(),
        main[i as int].inv(),
        main[j as int].inv(),
    ensures
        apply_fold::<F, F, F>(sum_main_entries::<F>(seq![i, j]), F::spec_zero(), pre, main)
            == main[i as int].spec_add(main[j as int]),
{
    let entries = sum_main_entries::<F>(seq![i, j]);
    let e1 = entries.drop_last();
    assert(e1 =~= single_entries::<F>(PairCol::Main(i)));
    assert(entries.last() == (PairCol::Main(j), F::spec_one()));
    lemma_single_main_apply(i, pre, main);
    F::law_mul_one(main[j as int]);
}

/// Relates the evaluation fold to `Seq::fold_left` over the entries, for a
/// step function that adds `weight * column` into the accumulator.
proof fn lemma_apply_fold_as_fold_left<F: PairRing>(
    entries: Seq<(PairCol, F)>,
    constant: F,
    pre: Seq<F>,
    main: Seq<F>,
    f: spec_fn(F, (PairCol, F)) -> F,
)
    requires
        forall|acc: F, e: (PairCol, F)| #[trigger] f(acc, e) == acc.spec_add(
            col_val(e.0, pre, main).spec_mul(e.1),
        ),
    ensures
        apply_fold::<F, F, F>(entries, constant, pre, main) == entries.fold_left(constant, f),
    decreases entries.len(),
{
    if entries.len() > 0 {
        lemma_apply_fold_as_fold_left(entries.drop_last(), constant, pre, main, f);
    }
}

/// Evaluation over field elements does not depend on the order of the
/// entries: two entry lists that are permutations of each other evaluate to
/// the same value, because field addition is commutative and associative.
pub proof fn lemma_apply_fold_permutation<F: PairRing>(
    entries1: Seq<(PairCol, F)>,
    entries2: Seq<(PairCol, F)>,
    constant: F,
    pre: Seq<F>,
    main: Seq<F>,
)
    requires
        entries1.to_multiset() == entries2.to_multiset(),
    ensures
        apply_fold::<F, F, F>(entries1, constant, pre, main) == apply_fold::<F, F, F>(
            entries2,
            constant,
            pre,
            main,
        ),
{
    let f = |acc: F, e: (PairCol, F)| acc.spec_add(col_val(e.0, pre, main).spec_mul(e.1));
    assert forall|x: (PairCol, F), y: (PairCol, F), v: F|
        #[trigger] f(f(v, x), y) == f(f(v, y), x) by {
        let tx = col_val(x.0, pre, main).spec_mul(x.1);
        let ty = col_val(y.0, pre, main).spec_mul(y.1);
        F::law_add_assoc(v, tx, ty);
        F::law_add_comm(tx, ty);
        F::law_add_assoc(v, ty, tx);
    }
    assert(commutative_foldl(f));
    lemma_apply_fold_as_fold_left(entries1, constant, pre, main, f);
    lemma_apply_fold_as_fold_left(entries2, constant, pre, main, f);
    lemma_fold_left_permutation(entries1, entries2, f, constant);
}

/// Relates the evaluation fold of a sum form to `Seq::fold_left` over the
/// column index list itself.
proof fn lemma_sum_main_as_fold_left<F: PairRing>(
    cols: Seq<usize>,
    pre: Seq<F>,
    main: Seq<F>,
    g: spec_fn(F, usize) -> F,
)
    requires
        forall|acc: F, c: usize| #[trigger] g(acc, c) == acc.spec_add(
            main[c as int].spec_mul(F::spec_one()),
        ),
    ensures
        apply_fold::<F, F, F>(sum_main_entries::<F>(cols), F::spec_zero(), pre, main)
            == cols.fold_left(F::spec_zero(), g),
    decreases cols.len(),
{
    if cols.len() == 0 {
        assert(sum_main_entries::<F>(cols) =~= Seq::<(PairCol, F)>::empty());
    } else {
        let entries = sum_main_entries::<F>(cols);
        assert(entries.drop_last() =~= sum_main_entries::<F>(cols.drop_last()));
        assert(entries.last() == (PairCol::Main(cols.last()), F::spec_one()));
        lemma_sum_main_as_fold_left(cols.drop_last(), pre, main, g);
    }
}

/// The value of a sum form over main columns is invariant under permuting
/// the index list.
pub proof fn lemma_sum_main_permutation<F: PairRing>(
    cols1: Seq<usize>,
    cols2: Seq<usize>,
    pre: Seq<F>,
    main: Seq<F>,
)
    requires
        cols1.to_multiset() == cols2.to_multiset(),
    ensures
        apply_fold::<F, F, F>(sum_main_entries::<F>(cols1), F::spec_zero(), pre, main)
            == apply_fold::<F, F, F>(sum_main_entries::<F>(cols2), F::spec_zero(), pre, main),
{
    let g = |acc: F, c: usize| acc.spec_add(main[c as int].spec_mul(F::spec_one()));
    assert forall|x: usize, y: usize, v: F| #[trigger] g(g(v, x), y) == g(g(v, y), x) by {
        let tx = main[x as int].spec_mul(F::spec_one());
        let ty = main[y as int].spec_mul(F::spec_one());
        F::law_add_assoc(v, tx, ty);
        F::law_add_comm(tx, ty);
        F::law_add_assoc(v, ty, tx);
    }
    assert(commutative_foldl(g));
    lemma_sum_main_as_fold_left(cols1, pre, main, g);
    lemma_sum_main_as_fold_left(cols2, pre, main, g);
    lemma_fold_left_permutation(cols1, cols2, g, F::spec_zero());
}

/// A difference form over two main columns evaluates to the difference of
/// the two column values.
pub proof fn lemma_diff_main_apply<F: PairRing>(
    a_col: usize,
    b_col: usize,
    pre: Seq<F>,
    main: Seq<F>,
)
    requires
        a_col < main.len(),
        b_col < main.len(),
        main[a_col as int].inv(),
        main[b_col as int].inv(),
    ensures
        apply_fold::<F, F, F>(diff_main_entries::<F>(a_col, b_col), F::spec_zero(), pre, main)
            == main[a_col as int].spec_add(main[b_col as int].spec_neg()),
{
    let entries = diff_main_entries::<F>(a_col, b_col);
    let e1 = entries.drop_last();
    assert(e1 =~= single_entries::<F>(PairCol::Main(a_col)));
    assert(entries.last() == (PairCol::Main(b_col), F::spec_neg_one()));
    lemma_single_main_apply(a_col, pre, main);
    F::law_mul_neg_one(main[b_col as int]);
}

/// A difference form evaluates to the negation of the difference form with
/// its columns swapped.
pub proof fn lemma_diff_main_antisym<F: PairRing>(
    a_col: usize,
    b_col: usize,
    pre: Seq<F>,
    main: Seq<F>,
)
    requires
        a_col < main.len(),
        b_col < main.len(),
        main[a_col as int].inv(),
        main[b_col as int].inv(),
    ensures
        apply_fold::<F, F, F>(diff_main_entries::<F>(a_col, b_col), F::spec_zero(), pre, main)
            == apply_fold::<F, F, F>(
            diff_main_entries::<F>(b_col, a_col),
            F::spec_zero(),
            pre,
            main,
        ).spec_neg(),
{
    lemma_diff_main_apply(a_col, b_col, pre, main);
    lemma_diff_main_apply(b_col, a_col, pre, main);
    let va = main[a_col as int];
    let vb = main[b_col as int];
    F::law_neg_inv(va);
    F::law_neg_add(vb, va.spec_neg());
    F::law_neg_neg(va);
    F::law_add_comm(vb.spec_neg(), va);
}

/// The canonical symbolic preprocessed row: variable `k` names
/// preprocessed column `k`.
pub open spec fn id_pre_vars(n: nat) -> Seq<PairCol> {
    Seq::new(n, |i: int| PairCol::Preprocessed(i as usize))
}

/// The canonical symbolic main row: variable `k` names main column `k`.
pub open spec fn id_main_vars(n: nat) -> Seq<PairCol> {
    Seq::new(n, |i: int| PairCol::Main(i as usize))
}

/// Consistency of the two interpretations: evaluating a form symbolically
/// over the canonical variable rows and then substituting concrete rows
/// into the resulting expression yields the same value as evaluating the
/// form directly over those rows with field arithmetic.
pub proof fn lemma_symbolic_consistency<F: PairRing>(
    entries: Seq<(PairCol, F)>,
    constant: F,
    pre: Seq<F>,
    main: Seq<F>,
)
    requires
        forall|k: int|
            0 <= k < entries.len() ==> col_in_range(
                (#[trigger] entries[k]).0,
                pre.len(),
                main.len(),
            ),
    ensures
        sym_eval(
            apply_fold::<F, PairCol, SymExpr<F>>(
                entries,
                constant,
                id_pre_vars(pre.len()),
                id_main_vars(main.len()),
            ),
            pre,
            main,
        ) == apply_fold::<F, F, F>(entries, constant, pre, main),
    decreases entries.len(),
{
    if entries.len() > 0 {
        let dl = entries.drop_last();
        assert forall|k: int|
            0 <= k < dl.len() implies col_in_range(
            (#[trigger] dl[k]).0,
            pre.len(),
            main.len(),
        ) by {
            assert(dl[k] == entries[k]);
        }
        lemma_symbolic_consistency(dl, constant, pre, main);
        let idp = id_pre_vars(pre.len());
        let idm = id_main_vars(main.len());
        let c = entries.last().0;
        let w = entries.last().1;
        assert(col_in_range(c, pre.len(), main.len())) by {
            assert(entries[entries.len() - 1] == entries.last());
        }
        assert(col_val(c, idp, idm) == c);
        let prev = apply_fold::<F, PairCol, SymExpr<F>>(dl, constant, idp, idm);
        let term = SymExpr::Scale(Box::new(SymExpr::Var(c)), w);
        assert(apply_fold::<F, PairCol, SymExpr<F>>(entries, constant, idp, idm)
            == SymExpr::Add(Box::new(prev), Box::new(term)));
        assert(sym_eval(SymExpr::<F>::Var(c), pre, main) == col_val(c, pre, main));
        assert(sym_eval(term, pre, main) == col_val(c, pre, main).spec_mul(w));
        assert(sym_eval(SymExpr::Add(Box::new(prev), Box::new(term)), pre, main)
            == sym_eval(prev, pre, main).spec_add(col_val(c, pre, main).spec_mul(w)));
    }
}

/// A symbolic evaluation result built over the canonical variable rows is
/// well formed against rows of the corresponding lengths, provided the
/// form's constant and weights are well formed and its columns in range.
pub proof fn lemma_apply_fold_sym_wf<F: PairRing>(
    entries: Seq<(PairCol, F)>,
    constant: F,
    pre_len: nat,
    main_len: nat,
)
    requires
        constant.inv(),
        forall|k: int| 0 <= k < entries.len() ==> (#[trigger] entries[k]).1.inv(),
        forall|k: int|
            0 <= k < entries.len() ==> col_in_range((#[trigger] entries[k]).0, pre_len, main_len),
    ensures
        sym_wf(
            apply_fold::<F, PairCol, SymExpr<F>>(
                entries,
                constant,
                id_pre_vars(pre_len),
                id_main_vars(main_len),
            ),
            pre_len,
            main_len,
        ),
    decreases entries.len(),
{
    if entries.len() > 0 {
        let dl = entries.drop_last();
        assert forall|k: int| 0 <= k < dl.len() implies (#[trigger] dl[k]).1.inv()
            && col_in_range(dl[k].0, pre_len, main_len) by {
            assert(dl[k] == entries[k]);
        }
        lemma_apply_fold_sym_wf(dl, constant, pre_len, main_len);
        let idp = id_pre_vars(pre_len);
        let idm = id_main_vars(main_len);
        let c = entries.last().0;
        let w = entries.last().1;
        assert(col_in_range(c, pre_len, main_len) && w.inv()) by {
            assert(entries[entries.len() - 1] == entries.last());
        }
        assert(col_val(c, idp, idm) == c);
        let prev = apply_fold::<F, PairCol, SymExpr<F>>(dl, constant, idp, idm);
        let term = SymExpr::Scale(Box::new(SymExpr::Var(c)), w);
        assert(apply_fold::<F, PairCol, SymExpr<F>>(entries, constant, idp, idm)
            == SymExpr::Add(Box::new(prev), Box::new(term)));
        assert(sym_wf(SymExpr::<F>::Var(c), pre_len, main_len));
        assert(sym_wf(term, pre_len, main_len));
        assert(sym_wf(SymExpr::Add(Box::new(prev), Box::new(term)), pre_len, main_len));
    }
}

} // verus!
