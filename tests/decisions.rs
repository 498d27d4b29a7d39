use statest::ks::{check_sample_size, series_action, SeriesAction, SeriesCursor, MAXJ};
use statest::numerical::{newton_action, NewtonAction, NewtonSearch, MAX_NEWTON_STEPS};
use statest::ttest::{level_divisor, rejects, t_degrees_of_freedom, Side, UPLO};
use statest::StatError;

#[test]
fn one_sided_tests_look_at_one_tail() {
    let lower = Side::One(UPLO::Lower);
    let upper = Side::One(UPLO::Upper);
    assert!(rejects(lower, true, false));
    assert!(!rejects(lower, false, true));
    assert!(rejects(upper, false, true));
    assert!(!rejects(upper, true, false));
}

#[test]
fn two_sided_test_looks_at_both_tails() {
    assert!(rejects(Side::Two, true, false));
    assert!(rejects(Side::Two, false, true));
    assert!(!rejects(Side::Two, false, false));
}

#[test]
fn level_divisor_counts_tests_and_tails() {
    assert_eq!(level_divisor(Side::One(UPLO::Upper), 1), Ok(1));
    assert_eq!(level_divisor(Side::Two, 1), Ok(2));
    assert_eq!(level_divisor(Side::Two, 5), Ok(10));
    assert_eq!(level_divisor(Side::One(UPLO::Lower), 3), Ok(3));
    assert_eq!(level_divisor(Side::Two, 0), Err(StatError::InvalidParameter));
}

#[test]
fn t_degrees_of_freedom_is_one_less_than_size() {
    assert_eq!(t_degrees_of_freedom(10), Ok(9));
    assert_eq!(t_degrees_of_freedom(2), Ok(1));
    assert_eq!(t_degrees_of_freedom(1), Err(StatError::InvalidParameter));
    assert_eq!(t_degrees_of_freedom(0), Err(StatError::InvalidParameter));
}

#[test]
fn newton_accepts_a_point_within_tolerance() {
    assert_eq!(newton_action(0, true, false), NewtonAction::Accept);
    assert_eq!(newton_action(MAX_NEWTON_STEPS, true, true), NewtonAction::Accept);
}

#[test]
fn newton_steps_until_the_budget_is_spent() {
    assert_eq!(newton_action(0, false, true), NewtonAction::Step);
    assert_eq!(newton_action(199, false, true), NewtonAction::Step);
    assert_eq!(
        newton_action(200, false, true),
        NewtonAction::Fail(StatError::NonConvergence)
    );
}

#[test]
fn newton_fails_on_a_flat_slope() {
    assert_eq!(
        newton_action(3, false, false),
        NewtonAction::Fail(StatError::DegenerateDerivative)
    );
}

#[test]
fn series_finishes_on_a_negligible_term() {
    assert_eq!(series_action(1, true), SeriesAction::Finish);
    assert_eq!(series_action(MAXJ, true), SeriesAction::Finish);
}

#[test]
fn series_gives_up_after_the_last_term() {
    assert_eq!(series_action(1, false), SeriesAction::Next);
    assert_eq!(series_action(99, false), SeriesAction::Next);
    assert_eq!(series_action(100, false), SeriesAction::GiveUp);
}

#[test]
fn empty_sample_is_invalid() {
    assert_eq!(check_sample_size(0), Err(StatError::InvalidParameter));
    assert_eq!(check_sample_size(1), Ok(()));
}

#[test]
fn newton_search_counts_its_steps() {
    let mut s = NewtonSearch::new();
    assert_eq!(s.steps(), 0);
    assert_eq!(s.advance(false, true), NewtonAction::Step);
    assert_eq!(s.advance(false, true), NewtonAction::Step);
    assert_eq!(s.steps(), 2);
    assert_eq!(s.advance(true, true), NewtonAction::Accept);
    assert_eq!(s.steps(), 2);
}

#[test]
fn newton_search_that_never_converges_fails_after_the_budget() {
    let mut s = NewtonSearch::new();
    let mut steps = 0;
    loop {
        match s.advance(false, true) {
            NewtonAction::Step => steps += 1,
            other => {
                assert_eq!(other, NewtonAction::Fail(StatError::NonConvergence));
                break;
            }
        }
    }
    assert_eq!(steps, 200);
    assert_eq!(s.steps(), MAX_NEWTON_STEPS);
}

#[test]
fn series_cursor_alternates_signs() {
    let mut c = SeriesCursor::new();
    assert_eq!(c.index_of_term(), 1);
    assert!(c.term_is_positive());
    assert_eq!(c.advance(false), SeriesAction::Next);
    assert_eq!(c.index_of_term(), 2);
    assert!(!c.term_is_positive());
    assert_eq!(c.advance(false), SeriesAction::Next);
    assert!(c.term_is_positive());
    assert_eq!(c.advance(true), SeriesAction::Finish);
    assert_eq!(c.index_of_term(), 3);
}

#[test]
fn series_cursor_gives_up_after_one_hundred_terms() {
    let mut c = SeriesCursor::new();
    let mut terms = 1;
    while c.advance(false) == SeriesAction::Next {
        terms += 1;
    }
    assert_eq!(terms, 100);
    assert_eq!(c.index_of_term(), MAXJ);
    assert_eq!(c.advance(false), SeriesAction::GiveUp);
}
