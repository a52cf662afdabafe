//! Engine-level failures.  Both are fatal to the session: the engine never
//! leaves an invariant half-applied.

use vstd::prelude::*;

verus! {

#[derive(Copy, Clone, Debug, PartialEq, Eq, Structural)]
pub enum EngineError {
    /// The active combatant has no dice pool to materialize a drafting
    /// snapshot from.
    MissingDicePool,
    /// The game-loop driver exceeded its iteration budget without the
    /// snapshot stabilizing.
    NonConvergent,
}

} // verus!
