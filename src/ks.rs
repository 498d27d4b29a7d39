use vstd::prelude::*;

use crate::StatError;

verus! {

/// Most terms of the Kolmogorov-Smirnov series that are summed.
pub const MAXJ: u32 = 100;

/// What the evaluation of the Kolmogorov-Smirnov series does after adding
/// term `j`.
#[derive(Debug, Clone, Copy, PartialEq, Eq, Structural)]
pub enum SeriesAction {
    /// The term was negligible: the partial sum is the value.
    Finish,
    /// Add term `j + 1`, of the opposite sign.
    Next,
    /// The series did not settle within `MAXJ` terms: the value is `1`.
    GiveUp,
}

/// The action after term `j` (counted from 1) was added: finish once a term
/// is negligible, give up after `MAXJ` terms, else go on.
pub fn series_action(j: u32, negligible: bool) -> (r: SeriesAction)
    ensures
        negligible ==> r == SeriesAction::Finish,
        !negligible && j >= MAXJ ==> r == SeriesAction::GiveUp,
        !negligible && j < MAXJ ==> r == SeriesAction::Next,
{
    if negligible {
        SeriesAction::Finish
    } else if j >= MAXJ {
        SeriesAction::GiveUp
    } else {
        SeriesAction::Next
    }
}

/// Position in the Kolmogorov-Smirnov series: the index `j` (from 1) of
/// the term about to be added, whose sign is `(-1)^(j - 1)`.
pub struct SeriesCursor {
    j: u32,
}

impl SeriesCursor {
    /// Index of the current term.
    pub closed spec fn index(&self) -> nat {
        self.j as nat
    }

    #[verifier::type_invariant]
    closed spec fn inv(&self) -> bool {
        1 <= self.j <= MAXJ
    }

    /// At the first term.
    pub fn new() -> (r: SeriesCursor)
        ensures
            r.index() == 1,
    {
        SeriesCursor { j: 1 }
    }

    /// Index of the current term, in `1..=MAXJ`.
    pub fn index_of_term(&self) -> (r: u32)
        ensures
            r == self.index(),
            1 <= r <= MAXJ,
    {
        proof {
            use_type_invariant(self);
        }
        self.j
    }

    /// Whether the current term is added (odd index) or subtracted.
    pub fn term_is_positive(&self) -> (r: bool)
        ensures
            r == (self.index() % 2 == 1),
    {
        self.j % 2 == 1
    }

    /// Decides what follows the current term (see `series_action`) and moves
    /// to the next term when there is one.
    pub fn advance(&mut self, negligible: bool) -> (r: SeriesAction)
        ensures
            negligible ==> r == SeriesAction::Finish,
            !negligible && old(self).index() >= MAXJ ==> r == SeriesAction::GiveUp,
            !negligible && old(self).index() < MAXJ ==> r == SeriesAction::Next,
            r == SeriesAction::Next ==> final(self).index() == old(self).index() + 1,
            r != SeriesAction::Next ==> final(self).index() == old(self).index(),
    {
        proof {
            use_type_invariant(&*self);
        }
        let r = series_action(self.j, negligible);
        if r == SeriesAction::Next {
            self.j = self.j + 1;
        }
        r
    }
}

/// Checks that a sample holds at least one value.
pub fn check_sample_size(n: usize) -> (r: Result<(), StatError>)
    ensures
        n == 0 <==> r == Err::<(), StatError>(StatError::InvalidParameter),
        n > 0 <==> r is Ok,
{
    if n == 0 {
        Err(StatError::InvalidParameter)
    } else {
        Ok(())
    }
}

} // verus!
