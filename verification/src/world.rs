//! The entity store and the world: everything the combat engine owns, with
//! its global well-formedness invariant and the conserved dice quantity.

use vstd::prelude::*;
use vstd::multiset::Multiset;
use crate::combat_state::{CombatAction, CombatPhaseV, CombatState, CombatStateV};
use crate::components::{
    all_rolled, kind_multiset, pool_wf, Defender, DicePool, DicePoolV, Health, HeavyAttacker,
    LightAttacker, Named,
};
use crate::dice::{Color, Die};
use crate::events::{EventQueue, EventQueueV};
use crate::log::CombatLog;

verus! {

/// One entity of the store: a bag of optional capability components.  A
/// handle is the entity's index in the store; entities are created at
/// engine initialization and persist, so handles are stable.
#[derive(Debug)]
pub struct Combatant {
    pub named: Option<Named>,
    pub health: Option<Health>,
    pub light_attacker: Option<LightAttacker>,
    pub heavy_attacker: Option<HeavyAttacker>,
    pub defender: Option<Defender>,
    pub dice_pool: Option<DicePool>,
}

#[verifier::ext_equal]
pub struct CombatantV {
    pub name: Option<Seq<char>>,
    pub hp: Option<usize>,
    pub light_attacker: bool,
    pub prepped_attack: Option<Seq<Die>>,
    pub prepped_defense: Option<Seq<Die>>,
    pub pool: Option<DicePoolV>,
}

impl View for Combatant {
    type V = CombatantV;

    open spec fn view(&self) -> CombatantV {
        CombatantV {
            name: match self.named {
                Some(n) => Some(n.name@),
                None => None,
            },
            hp: match self.health {
                Some(h) => Some(h.hp),
                None => None,
            },
            light_attacker: self.light_attacker is Some,
            prepped_attack: match self.heavy_attacker {
                Some(h) => Some(h.prepped_attack@),
                None => None,
            },
            prepped_defense: match self.defender {
                Some(d) => Some(d.prepped_defense@),
                None => None,
            },
            pool: match self.dice_pool {
                Some(p) => Some(p@),
                None => None,
            },
        }
    }
}

/// The world: the entity store plus the engine's global resources.
#[derive(Debug)]
pub struct World {
    pub entities: Vec<Combatant>,
    pub combat_state: CombatState,
    pub event_queue: EventQueue,
    pub combat_log: CombatLog,
}

#[verifier::ext_equal]
pub struct WorldV {
    pub entities: Seq<CombatantV>,
    pub combat_state: CombatStateV,
    pub event_queue: EventQueueV,
    pub combat_log: Seq<Seq<char>>,
}

impl View for World {
    type V = WorldV;

    open spec fn view(&self) -> WorldV {
        WorldV {
            entities: self.entities@.map_values(|c: Combatant| c@),
            combat_state: self.combat_state@,
            event_queue: self.event_queue@,
            combat_log: self.combat_log@,
        }
    }
}

/// The handle of the active combatant.
pub open spec fn active(w: WorldV) -> int {
    w.combat_state.combatants[w.combat_state.current_character as int] as int
}

/// The pool invariants of one entity.
pub open spec fn combatant_wf(c: CombatantV) -> bool {
    &&& (c.pool matches Some(p) ==> pool_wf(p))
    &&& (c.prepped_attack matches Some(s) ==> all_rolled(s))
    &&& (c.prepped_defense matches Some(s) ==> all_rolled(s))
}

/// A target embedded in a pending action must be a valid handle with a
/// name, so that resolution can log it.
pub open spec fn target_wf(w: WorldV, t: Option<usize>) -> bool {
    match t {
        Some(h) => h < w.entities.len() && w.entities[h as int].name is Some,
        None => true,
    }
}

pub open spec fn action_wf(w: WorldV, a: CombatAction) -> bool {
    match a {
        CombatAction::LightAttack(t) => target_wf(w, t),
        CombatAction::HeavyAttack(t) => target_wf(w, t),
        CombatAction::PrepHeavyAttack => true,
        CombatAction::Defend => true,
    }
}

pub open spec fn phase_wf(w: WorldV) -> bool {
    match w.combat_state.current_phase {
        CombatPhaseV::Action(a) => action_wf(w, a),
        _ => true,
    }
}

/// The turn order is a non-empty list of valid handles, every member has a
/// name for the log to speak of, and the cursor points inside it.
pub open spec fn order_wf(w: WorldV) -> bool {
    &&& 0 < w.combat_state.combatants.len() <= usize::MAX
    &&& (w.combat_state.current_character as int) < w.combat_state.combatants.len()
    &&& forall|i: int|
        0 <= i < w.combat_state.combatants.len() ==> {
            let h = #[trigger] w.combat_state.combatants[i] as int;
            &&& h < w.entities.len()
            &&& w.entities[h].name is Some
        }
}

/// The global invariant of every reachable world.
pub open spec fn wf(w: WorldV) -> bool {
    &&& order_wf(w)
    &&& phase_wf(w)
    &&& forall|i: int| 0 <= i < w.entities.len() ==> combatant_wf(#[trigger] w.entities[i])
}

/// The display name of a combatant; every member of the turn order has one.
pub open spec fn the_name(c: CombatantV) -> Seq<char> {
    match c.name {
        Some(n) => n,
        None => Seq::empty(),
    }
}

pub open spec fn opt_dice(o: Option<Seq<Die>>) -> Seq<Die> {
    match o {
        Some(s) => s,
        None => Seq::empty(),
    }
}

pub open spec fn pool_dice(o: Option<DicePoolV>) -> Seq<Die> {
    match o {
        Some(p) => p.available + p.drafted + p.rolled,
        None => Seq::empty(),
    }
}

/// Every die an entity owns, across all five partitions.
pub open spec fn all_dice(c: CombatantV) -> Seq<Die> {
    pool_dice(c.pool) + opt_dice(c.prepped_attack) + opt_dice(c.prepped_defense)
}

/// The conserved quantity of an entity: the multiset of its dice kinds.
pub open spec fn combatant_kinds(c: CombatantV) -> Multiset<(Color, usize)> {
    kind_multiset(all_dice(c))
}

/// No die is created, duplicated or lost between two worlds.
pub open spec fn kinds_preserved(a: WorldV, b: WorldV) -> bool {
    &&& b.entities.len() == a.entities.len()
    &&& forall|i: int|
        0 <= i < a.entities.len() ==> combatant_kinds(#[trigger] b.entities[i])
            == combatant_kinds(a.entities[i])
}

/// The parts of one entity that no phase system changes: its name, whether
/// it has hit points, its capabilities and its draft cap.
pub open spec fn roster_entry_preserved(ca: CombatantV, cb: CombatantV) -> bool {
    &&& cb.name == ca.name
    &&& cb.hp is Some <==> ca.hp is Some
    &&& cb.light_attacker == ca.light_attacker
    &&& cb.prepped_attack is Some <==> ca.prepped_attack is Some
    &&& cb.prepped_defense is Some <==> ca.prepped_defense is Some
    &&& cb.pool is Some <==> ca.pool is Some
    &&& match (ca.pool, cb.pool) {
        (Some(pa), Some(pb)) => pb.max_draft_amount == pa.max_draft_amount,
        _ => true,
    }
}

/// The parts of the world that no phase system changes: the turn order, and
/// each entity's name, hit-point presence, capabilities and draft cap.
pub open spec fn roster_preserved(a: WorldV, b: WorldV) -> bool {
    &&& b.entities.len() == a.entities.len()
    &&& b.combat_state.combatants == a.combat_state.combatants
    &&& forall|i: int|
        0 <= i < a.entities.len() ==> roster_entry_preserved(
            a.entities[i],
            #[trigger] b.entities[i],
        )
}

} // verus!
