use vstd::prelude::*;

use crate::StatError;

verus! {

/// Most Newton steps a root search may take before it gives up.
pub const MAX_NEWTON_STEPS: u32 = 200;

/// What a Newton root search does after evaluating the function at its
/// current point.
#[derive(Debug, Clone, Copy, PartialEq, Eq, Structural)]
pub enum NewtonAction {
    /// The point is within tolerance of the target: return it.
    Accept,
    /// Move to `x + (y - F(x)) / slope` and evaluate again.
    Step,
    /// Stop with this failure.
    Fail(StatError),
}

/// The action after `steps` steps, as `newton_action` decides it.
pub open spec fn newton_action_spec(steps: nat, within_tolerance: bool, slope_usable: bool) -> NewtonAction {
    if within_tolerance {
        NewtonAction::Accept
    } else if steps >= MAX_NEWTON_STEPS {
        NewtonAction::Fail(StatError::NonConvergence)
    } else if !slope_usable {
        NewtonAction::Fail(StatError::DegenerateDerivative)
    } else {
        NewtonAction::Step
    }
}

/// The action after `steps` steps have been taken: accept a point within
/// tolerance; otherwise fail with `NonConvergence` once the step budget is
/// spent, or with `DegenerateDerivative` when the slope is too flat to
/// divide by; otherwise take another step.
pub fn newton_action(steps: u32, within_tolerance: bool, slope_usable: bool) -> (r: NewtonAction)
    ensures
        within_tolerance ==> r == NewtonAction::Accept,
        !within_tolerance && steps >= MAX_NEWTON_STEPS ==> r == NewtonAction::Fail(
            StatError::NonConvergence,
        ),
        !within_tolerance && steps < MAX_NEWTON_STEPS && !slope_usable ==> r == NewtonAction::Fail(
            StatError::DegenerateDerivative,
        ),
        !within_tolerance && steps < MAX_NEWTON_STEPS && slope_usable ==> r == NewtonAction::Step,
        r == newton_action_spec(steps as nat, within_tolerance, slope_usable),
{
    if within_tolerance {
        NewtonAction::Accept
    } else if steps >= MAX_NEWTON_STEPS {
        NewtonAction::Fail(StatError::NonConvergence)
    } else if !slope_usable {
        NewtonAction::Fail(StatError::DegenerateDerivative)
    } else {
        NewtonAction::Step
    }
}

/// The state of one Newton root search: how many steps it has taken.
///
/// A search never takes more than `MAX_NEWTON_STEPS` steps, so a loop that
/// stops on any action but `Step` ends.
pub struct NewtonSearch {
    steps: u32,
}

impl NewtonSearch {
    /// Steps taken so far.
    pub closed spec fn steps_taken(&self) -> nat {
        self.steps as nat
    }

    #[verifier::type_invariant]
    closed spec fn inv(&self) -> bool {
        self.steps <= MAX_NEWTON_STEPS
    }

    /// A search that has taken no step.
    pub fn new() -> (r: NewtonSearch)
        ensures
            r.steps_taken() == 0,
    {
        NewtonSearch { steps: 0 }
    }

    /// Steps taken so far; never more than `MAX_NEWTON_STEPS`.
    pub fn steps(&self) -> (r: u32)
        ensures
            r == self.steps_taken(),
            r <= MAX_NEWTON_STEPS,
    {
        proof {
            use_type_invariant(self);
        }
        self.steps
    }

    /// Decides what follows an evaluation (see `newton_action`) and counts
    /// the step when one is taken.
    pub fn advance(&mut self, within_tolerance: bool, slope_usable: bool) -> (r: NewtonAction)
        ensures
            r == newton_action_spec(old(self).steps_taken(), within_tolerance, slope_usable),
            r == NewtonAction::Step ==> final(self).steps_taken() == old(self).steps_taken() + 1,
            r != NewtonAction::Step ==> final(self).steps_taken() == old(self).steps_taken(),
    {
        proof {
            use_type_invariant(&*self);
        }
        let r = newton_action(self.steps, within_tolerance, slope_usable);
        if r == NewtonAction::Step {
            self.steps = self.steps + 1;
        }
        r
    }
}

} // verus!
