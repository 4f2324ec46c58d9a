use air::f7::F7;
use air::ring::PairRing;
use air::symbolic::SymExpr;
use air::virtual_column::{PairCol, VirtualPairCol};

fn f(x: u64) -> F7 {
    F7::from_u64(x)
}

fn row(values: &[u64]) -> Vec<F7> {
    values.iter().map(|&x| f(x)).collect()
}

#[test]
fn field_arithmetic_mod_seven() {
    assert_eq!(F7::zero(), f(0));
    assert_eq!(F7::one(), f(1));
    assert_eq!(F7::neg_one(), f(6));
    assert_eq!(f(3).add(f(5)), f(1));
    assert_eq!(f(4).mul(f(5)), f(6));
    assert_eq!(f(2).neg(), f(5));
    assert_eq!(f(0).neg(), f(0));
    assert_eq!(f(16), f(2));
    assert_eq!(f(3).value(), 3);
}

#[test]
fn pair_col_get_resolves_each_table() {
    let pre = row(&[3, 4]);
    let main = row(&[5, 2, 6]);
    assert_eq!(PairCol::Preprocessed(1).get(&pre, &main), f(4));
    assert_eq!(PairCol::Main(0).get(&pre, &main), f(5));
    assert_eq!(PairCol::Main(2).get(&pre, &main), f(6));
}

#[test]
fn constant_ignores_rows() {
    let form = VirtualPairCol::<F7>::constant(f(5));
    let pre = row(&[3]);
    let main = row(&[5, 2]);
    assert_eq!(form.apply::<F7, F7>(&pre, &main), f(5));
    let other_pre = row(&[1, 1, 1]);
    let other_main = row(&[0]);
    assert_eq!(form.apply::<F7, F7>(&other_pre, &other_main), f(5));
    assert_eq!(form.apply::<F7, F7>(&[], &[]), f(5));
}

#[test]
fn one_is_the_multiplicative_identity() {
    let form = VirtualPairCol::<F7>::one();
    let pre = row(&[2]);
    let main = row(&[3, 4]);
    assert_eq!(form.apply::<F7, F7>(&pre, &main), F7::one());
    assert_eq!(form.apply::<F7, F7>(&[], &[]), F7::one());
}

#[test]
fn single_selects_one_column() {
    let pre = row(&[3, 6]);
    let main = row(&[5, 2]);
    let m1 = VirtualPairCol::<F7>::single_main(1);
    assert_eq!(m1.apply::<F7, F7>(&pre, &main), f(2));
    let p0 = VirtualPairCol::<F7>::single_preprocessed(0);
    assert_eq!(p0.apply::<F7, F7>(&pre, &main), f(3));
    let s = VirtualPairCol::<F7>::single(PairCol::Main(0));
    assert_eq!(s.apply::<F7, F7>(&pre, &main), f(5));
}

#[test]
fn sum_main_adds_the_listed_columns() {
    let pre = row(&[0]);
    let main = row(&[5, 2, 4]);
    let form = VirtualPairCol::<F7>::sum_main(vec![0, 1]);
    // 5 + 2 == 0 mod 7
    assert_eq!(form.apply::<F7, F7>(&pre, &main), f(0));
    let form = VirtualPairCol::<F7>::sum_main(vec![1, 2]);
    assert_eq!(form.apply::<F7, F7>(&pre, &main), f(6));
}

#[test]
fn sum_is_invariant_under_permuting_the_index_list() {
    let pre = row(&[0]);
    let main = row(&[5, 2, 4, 1]);
    let a = VirtualPairCol::<F7>::sum_main(vec![0, 1, 3]);
    let b = VirtualPairCol::<F7>::sum_main(vec![3, 0, 1]);
    let c = VirtualPairCol::<F7>::sum_main(vec![1, 3, 0]);
    let va = a.apply::<F7, F7>(&pre, &main);
    assert_eq!(va, b.apply::<F7, F7>(&pre, &main));
    assert_eq!(va, c.apply::<F7, F7>(&pre, &main));
    assert_eq!(va, f(1));
}

#[test]
fn sum_of_no_columns_is_zero() {
    let pre = row(&[3]);
    let main = row(&[5, 2]);
    let form = VirtualPairCol::<F7>::sum_main(vec![]);
    assert_eq!(form.apply::<F7, F7>(&pre, &main), F7::zero());
}

#[test]
fn diff_main_subtracts() {
    let pre = row(&[0]);
    let main = row(&[5, 2]);
    let form = VirtualPairCol::<F7>::diff_main(0, 1);
    // 5 - 2 == 3 mod 7
    assert_eq!(form.apply::<F7, F7>(&pre, &main), f(3));
    let form = VirtualPairCol::<F7>::diff_main(1, 0);
    // 2 - 5 == -3 == 4 mod 7
    assert_eq!(form.apply::<F7, F7>(&pre, &main), f(4));
}

#[test]
fn diff_swapped_is_the_negation() {
    let pre = row(&[0]);
    let main = row(&[3, 6, 1]);
    for &(a, b) in &[(0usize, 1usize), (1, 2), (0, 2), (2, 2)] {
        let ab = VirtualPairCol::<F7>::diff_main(a, b).apply::<F7, F7>(&pre, &main);
        let ba = VirtualPairCol::<F7>::diff_main(b, a).apply::<F7, F7>(&pre, &main);
        assert_eq!(ab, ba.neg());
    }
}

#[test]
fn diff_preprocessed_subtracts() {
    let pre = row(&[5, 2]);
    let main = row(&[0]);
    let form = VirtualPairCol::<F7>::diff_preprocessed(0, 1);
    assert_eq!(form.apply::<F7, F7>(&pre, &main), f(3));
}

#[test]
fn diff_of_a_column_with_itself_is_zero() {
    let pre = row(&[0]);
    let main = row(&[5, 2]);
    let form = VirtualPairCol::<F7>::diff_main(1, 1);
    assert_eq!(form.apply::<F7, F7>(&pre, &main), F7::zero());
}

#[test]
fn apply_matches_direct_arithmetic() {
    // constant + sum of weight * column, computed by hand with field
    // operations, for a form mixing both tables.
    let pre = row(&[3, 1]);
    let main = row(&[5, 2]);
    let entries = vec![
        (PairCol::Preprocessed(0), f(2)),
        (PairCol::Main(0), f(3)),
        (PairCol::Main(1), f(6)),
    ];
    let form = VirtualPairCol::<F7>::new(entries, f(4));
    // 4 + 2*3 + 3*5 + 6*2 == 4 + 6 + 1 + 5 == 16 == 2 mod 7
    assert_eq!(form.apply::<F7, F7>(&pre, &main), f(2));
}

#[test]
fn scenario_main_difference_plus_one() {
    // preprocessed row [3], main row [5, 2]; entries
    // [(Main(0), 1), (Main(1), -1)], constant 1: (5 - 2 + 1) mod 7 == 4.
    let pre = row(&[3]);
    let main = row(&[5, 2]);
    let entries = vec![
        (PairCol::Main(0), F7::one()),
        (PairCol::Main(1), F7::neg_one()),
    ];
    let form = VirtualPairCol::<F7>::new(entries, F7::one());
    assert_eq!(form.apply::<F7, F7>(&pre, &main), f(4));
}

#[test]
fn scenario_sum_preprocessed_single_column() {
    // sum_preprocessed([0]) against preprocessed row [6]: 6 mod 7.
    let pre = row(&[6]);
    let main = row(&[]);
    let form = VirtualPairCol::<F7>::sum_preprocessed(vec![0]);
    assert_eq!(form.apply::<F7, F7>(&pre, &main), f(6));
}

#[test]
fn constructors_build_the_same_form() {
    let pre = row(&[3, 1]);
    let main = row(&[5, 2]);
    let entries = vec![(PairCol::Main(1), f(4)), (PairCol::Preprocessed(0), f(2))];
    let owned = VirtualPairCol::<F7>::new_owned(entries.clone(), f(5));
    let borrowed = VirtualPairCol::<F7>::new_borrowed(&entries, f(5));
    let plain = VirtualPairCol::<F7>::new(entries.clone(), f(5));
    let expected = plain.apply::<F7, F7>(&pre, &main);
    assert_eq!(owned.apply::<F7, F7>(&pre, &main), expected);
    assert_eq!(borrowed.apply::<F7, F7>(&pre, &main), expected);
}

#[test]
fn new_preprocessed_and_new_main_tag_their_table() {
    let pre = row(&[3, 1]);
    let main = row(&[5, 2]);
    let p = VirtualPairCol::<F7>::new_preprocessed(vec![(1, f(2))], f(0));
    // 2 * 1 == 2 mod 7
    assert_eq!(p.apply::<F7, F7>(&pre, &main), f(2));
    let m = VirtualPairCol::<F7>::new_main(vec![(1, f(2))], f(0));
    // 2 * 2 == 4 mod 7
    assert_eq!(m.apply::<F7, F7>(&pre, &main), f(4));
}

#[test]
fn accessors_return_what_was_stored() {
    let entries = vec![(PairCol::Main(0), f(1)), (PairCol::Preprocessed(2), f(6))];
    let form = VirtualPairCol::<F7>::new(entries.clone(), f(3));
    assert_eq!(form.get_column_weights(), &entries[..]);
    assert_eq!(form.get_constant(), f(3));
}

#[test]
fn symbolic_evaluation_matches_concrete_evaluation() {
    // Build a form, evaluate it symbolically over canonical column
    // variables, substitute the concrete rows into the expression, and
    // compare with direct concrete evaluation.
    let pre = row(&[3, 1]);
    let main = row(&[5, 2]);
    let pre_vars: Vec<PairCol> = (0..pre.len()).map(PairCol::Preprocessed).collect();
    let main_vars: Vec<PairCol> = (0..main.len()).map(PairCol::Main).collect();
    let forms = vec![
        VirtualPairCol::<F7>::new(
            vec![
                (PairCol::Preprocessed(1), f(5)),
                (PairCol::Main(0), f(3)),
                (PairCol::Main(1), F7::neg_one()),
            ],
            f(2),
        ),
        VirtualPairCol::<F7>::diff_main(0, 1),
        VirtualPairCol::<F7>::sum_preprocessed(vec![0, 1]),
        VirtualPairCol::<F7>::constant(f(6)),
    ];
    for form in &forms {
        let expr: SymExpr<F7> = form.apply::<SymExpr<F7>, PairCol>(&pre_vars, &main_vars);
        let substituted = expr.eval(&pre, &main);
        let direct = form.apply::<F7, F7>(&pre, &main);
        assert_eq!(substituted, direct);
    }
}

#[test]
fn symbolic_expression_records_structure() {
    let form = VirtualPairCol::<F7>::single_main(0);
    let pre_vars: Vec<PairCol> = vec![];
    let main_vars = vec![PairCol::Main(0)];
    let expr: SymExpr<F7> = form.apply::<SymExpr<F7>, PairCol>(&pre_vars, &main_vars);
    // The expression must reference the column, not its value: substituting
    // two different rows gives two different results.
    let main_a = row(&[4]);
    let main_b = row(&[6]);
    assert_eq!(expr.eval(&[], &main_a), f(4));
    assert_eq!(expr.eval(&[], &main_b), f(6));
}
