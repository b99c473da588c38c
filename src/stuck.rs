use vstd::prelude::*;

verus! {

/// The two states of the stuck/escape process. Each state runs its own
/// exponential timer; the robot starts free.
#[derive(Debug, Clone, Copy, PartialEq, Eq, Structural)]
pub enum StuckPhase {
    Free,
    Stuck,
}

impl StuckPhase {
    /// The state every robot starts in.
    pub fn initial() -> (p: StuckPhase)
        ensures
            p == StuckPhase::Free,
    {
        StuckPhase::Free
    }

    /// The state after one tick. `crossed` tells whether the timer of the
    /// current state reached zero this tick; that timer is then redrawn and
    /// the state flips, otherwise it stays.
    pub fn advance(self, crossed: bool) -> (next: StuckPhase)
        ensures
            crossed ==> next != self,
            !crossed ==> next == self,
    {
        if !crossed {
            self
        } else {
            match self {
                StuckPhase::Free => StuckPhase::Stuck,
                StuckPhase::Stuck => StuckPhase::Free,
            }
        }
    }

    /// Whether the robot's speeds are forced to zero in this state.
    pub fn halts(self) -> (h: bool)
        ensures
            h == (self == StuckPhase::Stuck),
    {
        match self {
            StuckPhase::Free => false,
            StuckPhase::Stuck => true,
        }
    }
}

} // verus!
