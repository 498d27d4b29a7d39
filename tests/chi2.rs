use statest::chi2::{Chi2Fit, Chi2Indep, ChiTerm};
use statest::StatError;

fn reference_table() -> Vec<Vec<usize>> {
    vec![vec![85, 60], vec![5, 40]]
}

fn statistic(e: &Chi2Indep) -> f64 {
    let n = e.n() as f64;
    let mut q = 0.0;
    for i in 0..e.r() {
        for j in 0..e.c() {
            let t = e.cell_term(i, j);
            let d = t.deviation as f64;
            q += d * d / (n * t.expected_numerator as f64);
        }
    }
    q
}

#[test]
fn fit_totals_and_degrees_of_freedom() {
    let f = Chi2Fit::new(&[317, 168, 230, 85]).unwrap();
    assert_eq!(f.n(), 800);
    assert_eq!(f.k(), 4);
    assert_eq!(f.degrees_of_freedom(), 3);
    assert_eq!(f.observed(), &[317, 168, 230, 85]);
}

#[test]
fn fit_owns_a_copy_of_the_counts() {
    let mut x = vec![1usize, 2, 3];
    let f = Chi2Fit::new(&x).unwrap();
    x[0] = 100;
    assert_eq!(f.observed(), &[1, 2, 3]);
    assert_eq!(f.n(), 6);
}

#[test]
fn fit_rejects_fewer_than_two_categories() {
    assert_eq!(Chi2Fit::new(&[]).err(), Some(StatError::InvalidParameter));
    assert_eq!(Chi2Fit::new(&[7]).err(), Some(StatError::InvalidParameter));
}

#[test]
fn fit_rejects_all_zero_counts() {
    assert_eq!(Chi2Fit::new(&[0, 0, 0]).err(), Some(StatError::DegenerateInput));
}

#[test]
fn fit_checks_the_number_of_probabilities() {
    let f = Chi2Fit::new(&[317, 168, 230, 85]).unwrap();
    assert_eq!(f.check_probabilities(4), Ok(()));
    assert_eq!(f.check_probabilities(3), Err(StatError::DimensionMismatch));
    assert_eq!(f.check_probabilities(5), Err(StatError::DimensionMismatch));
}

#[test]
fn indep_marginals_of_reference_table() {
    let e = Chi2Indep::new(&reference_table()).unwrap();
    assert_eq!(e.n(), 190);
    assert_eq!((e.r(), e.c()), (2, 2));
    assert_eq!((e.row_total(0), e.row_total(1)), (145, 45));
    assert_eq!((e.column_total(0), e.column_total(1)), (90, 100));
    assert_eq!(e.degrees_of_freedom(), 1);
    assert_eq!(e.observed(1, 0), 5);
}

#[test]
fn indep_expected_frequencies_of_reference_table() {
    let e = Chi2Indep::new(&reference_table()).unwrap();
    assert_eq!(e.expected_numerator(0, 0), 13050);
    assert_eq!(e.expected_numerator(0, 1), 14500);
    assert_eq!(e.expected_numerator(1, 0), 4050);
    assert_eq!(e.expected_numerator(1, 1), 4500);
}

#[test]
fn indep_cell_terms_of_reference_table() {
    let e = Chi2Indep::new(&reference_table()).unwrap();
    assert_eq!(e.cell_term(0, 0), ChiTerm { deviation: 3100, expected_numerator: 13050 });
    assert_eq!(e.cell_term(1, 1), ChiTerm { deviation: 3100, expected_numerator: 4500 });
    let q = statistic(&e);
    assert!((q - 31.092379736057897).abs() < 1e-9);
}

#[test]
fn indep_is_deterministic() {
    let a = Chi2Indep::new(&reference_table()).unwrap();
    let b = Chi2Indep::new(&reference_table()).unwrap();
    assert_eq!(statistic(&a).to_bits(), statistic(&b).to_bits());
    for i in 0..2 {
        for j in 0..2 {
            assert_eq!(a.cell_term(i, j), b.cell_term(i, j));
        }
    }
}

#[test]
fn indep_scaled_rows_have_zero_statistic() {
    let t = vec![vec![2, 6, 4], vec![5, 15, 10], vec![1, 3, 2]];
    let e = Chi2Indep::new(&t).unwrap();
    for i in 0..3 {
        for j in 0..3 {
            assert_eq!(e.cell_term(i, j).deviation, 0);
        }
    }
    assert_eq!(statistic(&e), 0.0);
    assert_eq!(e.degrees_of_freedom(), 4);
}

#[test]
fn indep_rejects_empty_shapes() {
    let none: Vec<Vec<usize>> = vec![];
    assert_eq!(Chi2Indep::new(&none).err(), Some(StatError::InvalidParameter));
    assert_eq!(Chi2Indep::new(&[vec![], vec![]]).err(), Some(StatError::InvalidParameter));
}

#[test]
fn indep_rejects_ragged_rows() {
    let t = vec![vec![1, 2], vec![3]];
    assert_eq!(Chi2Indep::new(&t).err(), Some(StatError::DimensionMismatch));
}

#[test]
fn indep_rejects_a_single_row_or_column() {
    assert_eq!(Chi2Indep::new(&[vec![1, 2, 3]]).err(), Some(StatError::InvalidParameter));
    assert_eq!(Chi2Indep::new(&[vec![1], vec![2]]).err(), Some(StatError::InvalidParameter));
}

#[test]
fn indep_rejects_zero_marginals() {
    let zero_row = vec![vec![1, 2], vec![0, 0]];
    assert_eq!(Chi2Indep::new(&zero_row).err(), Some(StatError::DegenerateInput));
    let zero_column = vec![vec![0, 2], vec![0, 3]];
    assert_eq!(Chi2Indep::new(&zero_column).err(), Some(StatError::DegenerateInput));
    let all_zero = vec![vec![0, 0], vec![0, 0]];
    assert_eq!(Chi2Indep::new(&all_zero).err(), Some(StatError::DegenerateInput));
}
