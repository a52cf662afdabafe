//! The authoritative combat state: phase, turn order and the last
//! materialized snapshot.

use vstd::prelude::*;
use crate::shared::{ClientGameState, ClientGameStateV, ClientCombatantV, ClientPhaseV};

verus! {

/// The current step of a combatant's turn.
#[derive(Debug)]
pub enum CombatPhase {
    Drafting,
    Roll,
    /// The labelled actions offered to the active combatant; an empty list
    /// asks the action system to populate it.
    SelectAction(Vec<(String, CombatAction)>),
    /// A chosen action awaiting resolution.
    Action(CombatAction),
}

/// An action a combatant can take.  A target is a handle into the entity
/// store; `None` means the target has not been chosen yet.
#[derive(Copy, Clone, Debug)]
pub enum CombatAction {
    LightAttack(Option<usize>),
    PrepHeavyAttack,
    HeavyAttack(Option<usize>),
    Defend,
}

#[verifier::ext_equal]
pub enum CombatPhaseV {
    Drafting,
    Roll,
    SelectAction(Seq<(Seq<char>, CombatAction)>),
    Action(CombatAction),
}

impl View for CombatPhase {
    type V = CombatPhaseV;

    open spec fn view(&self) -> CombatPhaseV {
        match self {
            CombatPhase::Drafting => CombatPhaseV::Drafting,
            CombatPhase::Roll => CombatPhaseV::Roll,
            CombatPhase::SelectAction(actions) => CombatPhaseV::SelectAction(
                actions@.map_values(|p: (String, CombatAction)| (p.0@, p.1)),
            ),
            CombatPhase::Action(a) => CombatPhaseV::Action(*a),
        }
    }
}

/// The singleton combat state.  `combatants` is the turn order, a list of
/// handles into the entity store; `current_character` is the cursor of the
/// active combatant.
#[derive(Debug)]
pub struct CombatState {
    pub current_character: usize,
    pub combatants: Vec<usize>,
    pub current_phase: CombatPhase,
    /// The client-side version of the state, produced by the materialize
    /// system once per driver iteration.
    pub materialized_state: ClientGameState,
}

#[verifier::ext_equal]
pub struct CombatStateV {
    pub current_character: usize,
    pub combatants: Seq<usize>,
    pub current_phase: CombatPhaseV,
    pub materialized_state: ClientGameStateV,
}

impl View for CombatState {
    type V = CombatStateV;

    open spec fn view(&self) -> CombatStateV {
        CombatStateV {
            current_character: self.current_character,
            combatants: self.combatants@,
            current_phase: self.current_phase@,
            materialized_state: self.materialized_state@,
        }
    }
}

impl CombatState {
    /// A fresh combat over the given turn order: the first combatant drafts.
    /// The placeholder snapshot is replaced by the first materialization.
    pub fn new(combatants: Vec<usize>) -> (r: CombatState)
        ensures
            r@.current_character == 0,
            r@.combatants == combatants@,
            r@.current_phase == CombatPhaseV::Drafting,
            r@.materialized_state.client_phase == ClientPhaseV::Waiting,
            r@.materialized_state.combatants == Seq::<ClientCombatantV>::empty(),
            r@.materialized_state.combat_log == Seq::<Seq<char>>::empty(),
    {
        CombatState {
            current_character: 0,
            combatants,
            current_phase: CombatPhase::Drafting,
            materialized_state: ClientGameState::empty(),
        }
    }
}

} // verus!
