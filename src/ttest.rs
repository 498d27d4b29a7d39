use vstd::prelude::*;

use crate::StatError;

verus! {

/// Tail of a one-sided test.
#[derive(Debug, Clone, Copy, PartialEq, Eq, Structural)]
pub enum UPLO {
    Upper,
    Lower,
}

/// One-sided or two-sided test.
#[derive(Debug, Clone, Copy, PartialEq, Eq, Structural)]
pub enum Side {
    One(UPLO),
    Two,
}

/// Number of tails the significance level is shared between.
pub open spec fn tail_count(side: Side) -> nat {
    match side {
        Side::One(_) => 1,
        Side::Two => 2,
    }
}

/// Whether a test on `side` rejects, given whether the probability fell
/// below the per-tail level (`lower_hit`) and whether its complement did
/// (`upper_hit`).
pub open spec fn rejection(side: Side, lower_hit: bool, upper_hit: bool) -> bool {
    match side {
        Side::One(UPLO::Lower) => lower_hit,
        Side::One(UPLO::Upper) => upper_hit,
        Side::Two => lower_hit || upper_hit,
    }
}

/// What the significance level is divided by before it is compared with a
/// tail probability: the number of simultaneous tests (Bonferroni) times the
/// number of tails. No tests at all is `InvalidParameter`.
pub fn level_divisor(side: Side, n_test: usize) -> (r: Result<u128, StatError>)
    ensures
        n_test == 0 ==> r == Err::<u128, StatError>(StatError::InvalidParameter),
        n_test > 0 ==> r == Ok::<u128, StatError>((n_test * tail_count(side)) as u128),
{
    if n_test == 0 {
        return Err(StatError::InvalidParameter);
    }
    let tails: u128 = match side {
        Side::One(_) => 1,
        Side::Two => 2,
    };
    Ok(n_test as u128 * tails)
}

/// The decision of a t-test: `Lower` rejects when the probability is below
/// the per-tail level, `Upper` when its complement is, `Two` when either is.
pub fn rejects(side: Side, lower_hit: bool, upper_hit: bool) -> (r: bool)
    ensures
        r == rejection(side, lower_hit, upper_hit),
{
    match side {
        Side::One(UPLO::Lower) => lower_hit,
        Side::One(UPLO::Upper) => upper_hit,
        Side::Two => lower_hit || upper_hit,
    }
}

/// Degrees of freedom of the Student's t law for a sample of `n` values:
/// `n - 1`. Fewer than two values leave none: `InvalidParameter`.
pub fn t_degrees_of_freedom(n: usize) -> (r: Result<usize, StatError>)
    ensures
        n < 2 ==> r == Err::<usize, StatError>(StatError::InvalidParameter),
        n >= 2 ==> r == Ok::<usize, StatError>((n - 1) as usize),
{
    if n < 2 {
        Err(StatError::InvalidParameter)
    } else {
        Ok(n - 1)
    }
}

/// A two-sided test rejects exactly when one of the one-sided tests on the
/// same tail outcomes does.
pub proof fn lemma_two_sided_is_either_tail(lower_hit: bool, upper_hit: bool)
    ensures
        rejection(Side::Two, lower_hit, upper_hit) == (rejection(
            Side::One(UPLO::Lower),
            lower_hit,
            upper_hit,
        ) || rejection(Side::One(UPLO::Upper), lower_hit, upper_hit)),
{
}

} // verus!
