//! The stepping policy a driver runs the processor under: step once,
//! run freely, or stay paused.

use vstd::prelude::*;

verus! {

/// Whether the next frame should execute a step.
#[derive(Debug, Clone, Copy, PartialEq, Eq, Structural)]
pub enum Step {
    Once,
    Forever,
    Never,
}

impl Step {
    /// Whether to step now; a one-shot request spends itself.
    pub fn should_step(&mut self) -> (r: bool)
        ensures
            r == !(*old(self) is Never),
            *final(self) == (if *old(self) is Once {
                Step::Never
            } else {
                *old(self)
            }),
    {
        match *self {
            Step::Once => {
                *self = Step::Never;
                true
            },
            Step::Forever => true,
            Step::Never => false,
        }
    }

    /// Flip between running and paused: a running or one-shot policy
    /// pauses, a paused one runs freely.
    pub fn toggle(&mut self)
        ensures
            *final(self) == (if *old(self) is Never {
                Step::Forever
            } else {
                Step::Never
            }),
    {
        match *self {
            Step::Once | Step::Forever => *self = Step::Never,
            Step::Never => *self = Step::Forever,
        }
    }
}

} // verus!
