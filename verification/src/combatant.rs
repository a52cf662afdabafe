//! The stock roster: one player and two goblins, created once at engine
//! initialization.

use vstd::prelude::*;
use crate::combat_state::CombatPhaseV;
use crate::components::{Defender, DicePool, DicePoolV, Health, HeavyAttacker, LightAttacker, Named};
use crate::dice::{Color, Die};
use crate::events::EventQueueV;
use crate::shared::{ClientCombatantV, ClientGameStateV, ClientPhaseV};
use crate::world::{wf, Combatant, CombatantV, WorldV};

verus! {

/// The player's four configured dice, in insertion order.
pub open spec fn player_dice() -> Seq<Die> {
    seq![
        Die { color: Color::Blue, sides: 6usize, rolled_value: None },
        Die { color: Color::Red, sides: 6usize, rolled_value: None },
        Die { color: Color::Yellow, sides: 6usize, rolled_value: None },
        Die { color: Color::Red, sides: 6usize, rolled_value: None },
    ]
}

/// The player: light attacker, heavy attacker and defender, with four
/// six-sided dice and a draft cap of two.
pub open spec fn player_entity() -> CombatantV {
    CombatantV {
        name: Some("Player"@),
        hp: Some(100usize),
        light_attacker: true,
        prepped_attack: Some(Seq::empty()),
        prepped_defense: Some(Seq::empty()),
        pool: Some(
            DicePoolV {
                available: player_dice(),
                max_draft_amount: 2usize,
                drafted: Seq::empty(),
                rolled: Seq::empty(),
            },
        ),
    }
}

/// A goblin: light attacker and defender, with two four-sided dice of its
/// color and a draft cap of two.
pub open spec fn goblin_entity(name: Seq<char>, color: Color) -> CombatantV {
    CombatantV {
        name: Some(name),
        hp: Some(50usize),
        light_attacker: true,
        prepped_attack: None,
        prepped_defense: Some(Seq::empty()),
        pool: Some(
            DicePoolV {
                available: seq![
                    Die { color, sides: 4usize, rolled_value: None },
                    Die { color, sides: 4usize, rolled_value: None },
                ],
                max_draft_amount: 2usize,
                drafted: Seq::empty(),
                rolled: Seq::empty(),
            },
        ),
    }
}

/// The stock roster, in turn order.
pub open spec fn initial_entities() -> Seq<CombatantV> {
    seq![
        player_entity(),
        goblin_entity("Red Goblin"@, Color::Red),
        goblin_entity("Blue Goblin"@, Color::Blue),
    ]
}

/// The placeholder snapshot a fresh combat starts with.
pub open spec fn empty_snapshot() -> ClientGameStateV {
    ClientGameStateV {
        client_phase: ClientPhaseV::Waiting,
        combatants: Seq::<ClientCombatantV>::empty(),
        combat_log: Seq::<Seq<char>>::empty(),
    }
}

/// The snapshot a fresh session stabilizes on: the player's drafting
/// prompt with the four configured dice and the draft cap of two, every
/// roster row with its starting hit points, and an empty log.
pub open spec fn initial_snapshot() -> ClientGameStateV {
    ClientGameStateV {
        client_phase: ClientPhaseV::DraftDice(player_dice(), 2usize),
        combatants: seq![
            ClientCombatantV { name: "Player"@, hp: 100usize },
            ClientCombatantV { name: "Red Goblin"@, hp: 50usize },
            ClientCombatantV { name: "Blue Goblin"@, hp: 50usize },
        ],
        combat_log: Seq::<Seq<char>>::empty(),
    }
}

/// The world a session starts from: the stock roster, the first combatant
/// drafting, empty queue and log.
pub open spec fn initial_world() -> WorldV {
    WorldV {
        entities: initial_entities(),
        combat_state: crate::combat_state::CombatStateV {
            current_character: 0usize,
            combatants: seq![0usize, 1usize, 2usize],
            current_phase: CombatPhaseV::Drafting,
            materialized_state: empty_snapshot(),
        },
        event_queue: EventQueueV { events: Seq::empty(), new_events: Seq::empty() },
        combat_log: Seq::<Seq<char>>::empty(),
    }
}

/// The world a fresh session has settled into once the driver first
/// reaches quiescence: the starting world carrying its own materialized
/// snapshot.
pub open spec fn ready_world() -> WorldV {
    WorldV {
        combat_state: crate::combat_state::CombatStateV {
            materialized_state: initial_snapshot(),
            ..initial_world().combat_state
        },
        ..initial_world()
    }
}

/// The initial and settled worlds satisfy the engine's invariants.
pub proof fn lemma_initial_world_wf()
    ensures
        wf(initial_world()),
        wf(ready_world()),
{
    let w = initial_world();
    assert(w.combat_state.combatants[0] == 0usize);
    assert(w.combat_state.combatants[1] == 1usize);
    assert(w.combat_state.combatants[2] == 2usize);
    assert(forall|i: int|
        0 <= i < w.entities.len() ==> crate::world::combatant_wf(#[trigger] w.entities[i]));
    let r = ready_world();
    assert(r.combat_state.combatants[0] == 0usize);
    assert(r.combat_state.combatants[1] == 1usize);
    assert(r.combat_state.combatants[2] == 2usize);
    assert(forall|i: int|
        0 <= i < r.entities.len() ==> crate::world::combatant_wf(#[trigger] r.entities[i]));
}

/// Builds the stock roster into a fresh entity store and returns the
/// handles, in turn order.
pub fn create_combatants(entities: &mut Vec<Combatant>) -> (handles: Vec<usize>)
    requires
        old(entities)@.len() == 0,
    ensures
        final (entities)@.map_values(|c: Combatant| c@) == initial_entities(),
        handles@ == seq![0usize, 1usize, 2usize],
{
    let mut player_dice: Vec<Die> = Vec::new();
    player_dice.push(Die::blue(6));
    player_dice.push(Die::red(6));
    player_dice.push(Die::yellow(6));
    player_dice.push(Die::red(6));
    let player = Combatant {
        named: Some(Named { name: String::from_str("Player") }),
        health: Some(Health { hp: 100 }),
        light_attacker: Some(LightAttacker),
        heavy_attacker: Some(HeavyAttacker { prepped_attack: Vec::new() }),
        defender: Some(Defender { prepped_defense: Vec::new() }),
        dice_pool: Some(
            DicePool {
                available: player_dice,
                max_draft_amount: 2,
                drafted: Vec::new(),
                rolled: Vec::new(),
            },
        ),
    };
    proof {
        reveal_strlit("Player");
        assert(player@ =~~= player_entity());
    }
    entities.push(player);

    let mut red_dice: Vec<Die> = Vec::new();
    red_dice.push(Die::red(4));
    red_dice.push(Die::red(4));
    let red_goblin = Combatant {
        named: Some(Named { name: String::from_str("Red Goblin") }),
        health: Some(Health { hp: 50 }),
        light_attacker: Some(LightAttacker),
        heavy_attacker: None,
        defender: Some(Defender { prepped_defense: Vec::new() }),
        dice_pool: Some(
            DicePool {
                available: red_dice,
                max_draft_amount: 2,
                drafted: Vec::new(),
                rolled: Vec::new(),
            },
        ),
    };
    proof {
        reveal_strlit("Red Goblin");
        assert(red_goblin@ =~~= goblin_entity("Red Goblin"@, Color::Red));
    }
    entities.push(red_goblin);

    let mut blue_dice: Vec<Die> = Vec::new();
    blue_dice.push(Die::blue(4));
    blue_dice.push(Die::blue(4));
    let blue_goblin = Combatant {
        named: Some(Named { name: String::from_str("Blue Goblin") }),
        health: Some(Health { hp: 50 }),
        light_attacker: Some(LightAttacker),
        heavy_attacker: None,
        defender: Some(Defender { prepped_defense: Vec::new() }),
        dice_pool: Some(
            DicePool {
                available: blue_dice,
                max_draft_amount: 2,
                drafted: Vec::new(),
                rolled: Vec::new(),
            },
        ),
    };
    proof {
        reveal_strlit("Blue Goblin");
        assert(blue_goblin@ =~~= goblin_entity("Blue Goblin"@, Color::Blue));
    }
    entities.push(blue_goblin);

    let mut handles: Vec<usize> = Vec::new();
    handles.push(0);
    handles.push(1);
    handles.push(2);
    proof {
        assert(entities@.map_values(|c: Combatant| c@) =~= initial_entities());
        assert(handles@ =~= seq![0usize, 1usize, 2usize]);
    }
    handles
}

} // verus!
