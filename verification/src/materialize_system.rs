//! The materialize system.  It produces the client snapshot from the
//! authoritative state: the drafting phase maps to a dice-drafting prompt
//! for the active combatant, every other phase maps to waiting; the
//! combatant list carries every turn-order entity that has both a name and
//! health; the log is copied verbatim.

use vstd::prelude::*;
use crate::combat_state::CombatStateV;
use crate::errors::EngineError;
use crate::shared::{
    copy_dice, copy_strings, ClientCombatant, ClientCombatantV, ClientGameState, ClientGameStateV,
    ClientPhase, ClientPhaseV,
};
use crate::world::{active, wf, CombatantV, World, WorldV};

verus! {

/// Materialization succeeds unless a drafting snapshot is owed and the
/// active combatant has no dice pool.
pub open spec fn materialize_ok(w: WorldV) -> bool {
    w.combat_state.current_phase is Drafting ==> w.entities[active(w)].pool is Some
}

/// The combatant rows of the snapshot: every turn-order entity that has
/// both a name and health, in turn order; the others are dropped silently.
pub open spec fn rows_of(entities: Seq<CombatantV>, order: Seq<usize>) -> Seq<ClientCombatantV>
    decreases order.len(),
{
    if order.len() == 0 {
        Seq::empty()
    } else {
        let rest = rows_of(entities, order.drop_last());
        let c = entities[order.last() as int];
        match (c.name, c.hp) {
            (Some(n), Some(hp)) => rest.push(ClientCombatantV { name: n, hp }),
            _ => rest,
        }
    }
}

/// The client phase of the snapshot.
pub open spec fn client_phase_of(w: WorldV) -> ClientPhaseV {
    if w.combat_state.current_phase is Drafting {
        match w.entities[active(w)].pool {
            Some(p) => ClientPhaseV::DraftDice(p.available, p.max_draft_amount),
            None => ClientPhaseV::Waiting,
        }
    } else {
        ClientPhaseV::Waiting
    }
}

/// The snapshot materialized from a world.
pub open spec fn snapshot_of(w: WorldV) -> ClientGameStateV {
    ClientGameStateV {
        client_phase: client_phase_of(w),
        combatants: rows_of(w.entities, w.combat_state.combatants),
        combat_log: w.combat_log,
    }
}

/// The whole system: the stored snapshot is replaced, nothing else moves.
pub open spec fn materialize_sys(w: WorldV) -> WorldV {
    WorldV {
        combat_state: CombatStateV { materialized_state: snapshot_of(w), ..w.combat_state },
        ..w
    }
}

/// The stateless materialize processor.
#[derive(Debug)]
pub struct MaterializeSystem;

impl MaterializeSystem {
    /// Runs the system on the world.  Fails, leaving the world untouched,
    /// exactly when a drafting snapshot is owed and the active combatant
    /// has no dice pool.
    pub fn run(&self, w: &mut World) -> (r: Result<(), EngineError>)
        requires
            wf(old(w)@),
        ensures
            r is Ok <==> materialize_ok(old(w)@),
            r is Ok ==> final (w)@ == materialize_sys(old(w)@),
            r is Err ==> final (w)@ == old(w)@ && r == Err::<(), EngineError>(
                EngineError::MissingDicePool,
            ),
    {
        let ghost w0 = w@;
        let h = w.combat_state.combatants[w.combat_state.current_character];
        let client_phase: ClientPhase = if matches!(
            w.combat_state.current_phase,
            crate::combat_state::CombatPhase::Drafting,
        ) {
            match &w.entities[h].dice_pool {
                Some(p) => ClientPhase::DraftDice(copy_dice(&p.available), p.max_draft_amount),
                None => {
                    return Err(EngineError::MissingDicePool);
                },
            }
        } else {
            ClientPhase::Waiting
        };
        proof {
            assert(client_phase@ =~~= client_phase_of(w0));
        }
        let ghost order = w0.combat_state.combatants;
        let mut rows: Vec<ClientCombatant> = Vec::new();
        let mut i: usize = 0;
        while i < w.combat_state.combatants.len()
            invariant
                wf(w0),
                w@ == w0,
                order == w0.combat_state.combatants,
                i <= order.len(),
                rows@.map_values(|c: ClientCombatant| c@) == rows_of(w0.entities, order.take(
                    i as int,
                )),
            decreases order.len() - i,
        {
            let hh = w.combat_state.combatants[i];
            match (&w.entities[hh].named, &w.entities[hh].health) {
                (Some(nm), Some(hl)) => {
                    rows.push(ClientCombatant { name: nm.name.clone(), hp: hl.hp });
                },
                _ => {},
            }
            proof {
                assert(order.take(i as int + 1).drop_last() =~= order.take(i as int));
                assert(order.take(i as int + 1).last() == order[i as int]);
                assert(rows@.map_values(|c: ClientCombatant| c@) =~= rows_of(
                    w0.entities,
                    order.take(i as int + 1),
                ));
            }
            i += 1;
        }
        proof {
            assert(order.take(order.len() as int) =~= order);
        }
        let combat_log = copy_strings(&w.combat_log.logs);
        w.combat_state.materialized_state = ClientGameState {
            client_phase,
            combatants: rows,
            combat_log,
        };
        proof {
            assert(w@.combat_state.materialized_state.combat_log =~= w0.combat_log);
            assert(w@ =~~= materialize_sys(w0));
        }
        Ok(())
    }
}

} // verus!
