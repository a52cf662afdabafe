use dice_combat::action_system::ActionSystem;
use dice_combat::combat_state::{CombatAction, CombatPhase, CombatState};
use dice_combat::components::{Defender, DicePool, Health, HeavyAttacker, LightAttacker, Named};
use dice_combat::dice::{Color, Die};
use dice_combat::drafting_system::DraftingSystem;
use dice_combat::errors::EngineError;
use dice_combat::events::{Event, EventQueue};
use dice_combat::log::CombatLog;
use dice_combat::materialize_system::MaterializeSystem;
use dice_combat::rolling_system::RollingSystem;
use dice_combat::server::Server;
use dice_combat::shared::{ClientMessage, ClientPhase, ServerMessage};
use dice_combat::world::{Combatant, World};

fn fighter(name: &str, hp: usize, dice: Vec<Die>) -> Combatant {
    Combatant {
        named: Some(Named { name: name.to_string() }),
        health: Some(Health { hp }),
        light_attacker: Some(LightAttacker),
        heavy_attacker: Some(HeavyAttacker { prepped_attack: Vec::new() }),
        defender: Some(Defender { prepped_defense: Vec::new() }),
        dice_pool: Some(DicePool {
            available: dice,
            max_draft_amount: 2,
            drafted: Vec::new(),
            rolled: Vec::new(),
        }),
    }
}

fn rolled(color: Color, sides: usize, value: usize) -> Die {
    Die { color, sides, rolled_value: Some(value) }
}

fn world_of(entities: Vec<Combatant>, phase: CombatPhase, current: usize) -> World {
    let n = entities.len();
    let handles: Vec<usize> = (0..n).collect();
    let mut combat_state = CombatState::new(handles);
    combat_state.current_phase = phase;
    combat_state.current_character = current;
    World { entities, combat_state, event_queue: EventQueue::new(), combat_log: CombatLog::new() }
}

fn color_code(c: Color) -> u8 {
    match c {
        Color::Colorless => 0,
        Color::Blue => 1,
        Color::Red => 2,
        Color::Yellow => 3,
        Color::Green => 4,
    }
}

/// Every die a combatant owns, as sorted (color, sides) pairs.
fn kinds_of(c: &Combatant) -> Vec<(u8, usize)> {
    let mut out: Vec<(u8, usize)> = Vec::new();
    if let Some(pool) = &c.dice_pool {
        for d in pool.available.iter().chain(&pool.drafted).chain(&pool.rolled) {
            out.push((color_code(d.color), d.sides));
        }
    }
    if let Some(ha) = &c.heavy_attacker {
        for d in &ha.prepped_attack {
            out.push((color_code(d.color), d.sides));
        }
    }
    if let Some(def) = &c.defender {
        for d in &def.prepped_defense {
            out.push((color_code(d.color), d.sides));
        }
    }
    out.sort();
    out
}

#[test]
fn initial_connect_snapshot() {
    let server = Server::new();
    let snap = &server.materialized_state;
    assert_eq!(snap.combatants.len(), 3);
    assert_eq!(snap.combatants[0].name, "Player");
    assert_eq!(snap.combatants[0].hp, 100);
    assert_eq!(snap.combatants[1].name, "Red Goblin");
    assert_eq!(snap.combatants[1].hp, 50);
    assert_eq!(snap.combatants[2].name, "Blue Goblin");
    assert_eq!(snap.combatants[2].hp, 50);
    assert!(snap.combat_log.is_empty());
    match &snap.client_phase {
        ClientPhase::DraftDice(dice, max) => {
            assert_eq!(*max, 2);
            assert_eq!(dice.len(), 4);
            assert!(matches!(dice[0].color, Color::Blue));
            assert!(matches!(dice[1].color, Color::Red));
            assert!(matches!(dice[2].color, Color::Yellow));
            assert!(matches!(dice[3].color, Color::Red));
            for d in dice {
                assert_eq!(d.sides, 6);
                assert!(d.rolled_value.is_none());
            }
        },
        other => panic!("expected a drafting prompt, got {:?}", other),
    }
}

#[test]
fn draft_two_dice_and_roll() {
    let mut server = Server::new();
    let reply = server.handle_message(ClientMessage::FinishDrafting(vec![0, 2])).unwrap();
    match &server.materialized_state.client_phase {
        ClientPhase::Waiting => {},
        other => panic!("expected waiting, got {:?}", other),
    }
    let player = &server.world.entities[0];
    let pool = player.dice_pool.as_ref().unwrap();
    assert_eq!(pool.available.len(), 2);
    assert!(pool.drafted.is_empty());
    assert_eq!(pool.rolled.len(), 2);
    // Descending-index removal: position 2 (yellow) first, then position 0
    // (blue).
    assert!(matches!(pool.rolled[0].color, Color::Yellow));
    assert!(matches!(pool.rolled[1].color, Color::Blue));
    for d in &pool.rolled {
        let v = d.rolled_value.unwrap();
        assert!(1 <= v && v <= 6);
    }
    let log = &server.world.combat_log.logs;
    assert_eq!(log.len(), 3);
    assert_eq!(log[0], "Player drafted yel6");
    assert_eq!(log[1], "Player drafted blu6");
    assert!(log[2].starts_with("Player rolled [yel"));
    match reply {
        ServerMessage::NewState(s) => assert!(s.same_as(&server.materialized_state)),
    }
}

#[test]
fn prep_heavy_attack_resolves() {
    let mut server = Server::new();
    server.handle_message(ClientMessage::FinishDrafting(vec![0, 2])).unwrap();
    server.world.combat_state.current_phase =
        CombatPhase::Action(CombatAction::PrepHeavyAttack);
    server.game_loop().unwrap();
    let player = &server.world.entities[0];
    let prepped = &player.heavy_attacker.as_ref().unwrap().prepped_attack;
    assert_eq!(prepped.len(), 2);
    for d in prepped {
        assert!(d.rolled_value.is_some());
    }
    assert!(player.dice_pool.as_ref().unwrap().rolled.is_empty());
    assert!(matches!(server.world.combat_state.current_phase, CombatPhase::Drafting));
    assert_eq!(server.world.combat_state.current_character, 1);
    let log = &server.world.combat_log.logs;
    assert_eq!(log[log.len() - 1], "Player prepped for heavy attack");
}

#[test]
fn heavy_attack_discharges() {
    let mut player = fighter(
        "Player",
        100,
        vec![Die::blue(6)],
    );
    player.heavy_attacker.as_mut().unwrap().prepped_attack =
        vec![rolled(Color::Red, 6, 4), rolled(Color::Yellow, 6, 5)];
    player.dice_pool.as_mut().unwrap().rolled = vec![rolled(Color::Blue, 6, 2)];
    let goblin = fighter("Red Goblin", 50, vec![Die::red(4), Die::red(4)]);
    let mut world = world_of(
        vec![player, goblin],
        CombatPhase::Action(CombatAction::HeavyAttack(Some(1))),
        0,
    );
    let action = ActionSystem;
    action.run(&mut world);
    assert_eq!(world.entities[1].health.as_ref().unwrap().hp, 50 - (4 + 5 + 2));
    assert!(world.entities[0].heavy_attacker.as_ref().unwrap().prepped_attack.is_empty());
    assert_eq!(world.entities[0].dice_pool.as_ref().unwrap().rolled.len(), 3);
    assert!(matches!(world.combat_state.current_phase, CombatPhase::Drafting));
    assert_eq!(world.combat_state.current_character, 1);
    assert_eq!(
        world.combat_log.logs[0],
        "Player heavy attack did 11 damage to Red Goblin"
    );
}

#[test]
fn defend_then_recycle() {
    let mut player = fighter("Player", 100, vec![Die::blue(6)]);
    player.dice_pool.as_mut().unwrap().rolled = vec![rolled(Color::Red, 6, 3)];
    let goblin = fighter("Red Goblin", 50, vec![Die::red(4)]);
    let mut world = world_of(vec![player, goblin], CombatPhase::Action(CombatAction::Defend), 0);
    let action = ActionSystem;
    action.run(&mut world);
    {
        let p = &world.entities[0];
        let def = &p.defender.as_ref().unwrap().prepped_defense;
        assert_eq!(def.len(), 1);
        assert_eq!(def[0].rolled_value, Some(3));
        assert!(p.dice_pool.as_ref().unwrap().rolled.is_empty());
        assert_eq!(world.combat_log.logs[0], "Player prepped for defense");
    }
    // Back on the player's turn, entering the drafting phase returns the
    // prepared defense dice to the pool, cleared.
    world.combat_state.current_character = 0;
    world.combat_state.current_phase = CombatPhase::Drafting;
    let drafting = DraftingSystem;
    drafting.run(&mut world);
    let p = &world.entities[0];
    assert!(p.defender.as_ref().unwrap().prepped_defense.is_empty());
    let avail = &p.dice_pool.as_ref().unwrap().available;
    assert_eq!(avail.len(), 2);
    assert!(matches!(avail[1].color, Color::Red));
    assert_eq!(avail[1].sides, 6);
    assert!(avail[1].rolled_value.is_none());
}

#[test]
fn out_of_range_draft_index_ignored() {
    let mut server = Server::new();
    server.handle_message(ClientMessage::FinishDrafting(vec![999])).unwrap();
    let pool = server.world.entities[0].dice_pool.as_ref().unwrap();
    assert_eq!(pool.available.len(), 4);
    assert!(pool.drafted.is_empty());
    assert!(pool.rolled.is_empty());
    assert_eq!(server.materialized_state.combatants[0].hp, 100);
    assert_eq!(server.materialized_state.combatants[1].hp, 50);
    assert_eq!(server.materialized_state.combatants[2].hp, 50);
    // No "drafted" entry was logged; the empty roll still logs its line.
    let log = &server.world.combat_log.logs;
    assert_eq!(log.len(), 1);
    assert_eq!(log[0], "Player rolled []");
}

#[test]
fn quiescent_loop_is_snapshot_stable() {
    let mut server = Server::new();
    let before = server.materialized_state.duplicate();
    server.game_loop().unwrap();
    assert!(server.materialized_state.same_as(&before));
}

#[test]
fn draft_cap_limits_batch() {
    let mut server = Server::new();
    server.handle_message(ClientMessage::FinishDrafting(vec![3, 2, 1, 0])).unwrap();
    let pool = server.world.entities[0].dice_pool.as_ref().unwrap();
    // Only the two highest indices were accepted: red (3) and yellow (2).
    assert_eq!(pool.rolled.len(), 2);
    assert!(matches!(pool.rolled[0].color, Color::Red));
    assert!(matches!(pool.rolled[1].color, Color::Yellow));
    assert_eq!(pool.available.len(), 2);
    assert!(matches!(pool.available[0].color, Color::Blue));
    assert!(matches!(pool.available[1].color, Color::Red));
}

#[test]
fn light_attack_clamps_at_zero() {
    let mut player = fighter("Player", 100, vec![Die::blue(6)]);
    player.dice_pool.as_mut().unwrap().rolled =
        vec![rolled(Color::Red, 6, 6), rolled(Color::Red, 6, 6)];
    let goblin = fighter("Red Goblin", 5, vec![Die::red(4)]);
    let mut world = world_of(
        vec![player, goblin],
        CombatPhase::Action(CombatAction::LightAttack(Some(1))),
        0,
    );
    let action = ActionSystem;
    action.run(&mut world);
    assert_eq!(world.entities[1].health.as_ref().unwrap().hp, 0);
    assert_eq!(
        world.combat_log.logs[0],
        "Player light attack did 12 damage to Red Goblin"
    );
}

#[test]
fn turn_cursor_wraps_to_start() {
    let mut c = fighter("Charlie", 30, vec![Die::red(4)]);
    c.dice_pool.as_mut().unwrap().rolled = vec![rolled(Color::Red, 4, 2)];
    let world_entities = vec![
        fighter("Alice", 30, vec![Die::red(4)]),
        fighter("Bob", 30, vec![Die::red(4)]),
        c,
    ];
    let mut world = world_of(world_entities, CombatPhase::Action(CombatAction::Defend), 2);
    let action = ActionSystem;
    action.run(&mut world);
    assert_eq!(world.combat_state.current_character, 0);
    assert!(matches!(world.combat_state.current_phase, CombatPhase::Drafting));
}

#[test]
fn dice_are_conserved_across_turns() {
    let mut server = Server::new();
    let before: Vec<Vec<(u8, usize)>> =
        server.world.entities.iter().map(kinds_of).collect();
    server.handle_message(ClientMessage::FinishDrafting(vec![0, 1])).unwrap();
    server.world.combat_state.current_phase =
        CombatPhase::Action(CombatAction::PrepHeavyAttack);
    server.game_loop().unwrap();
    server.handle_message(ClientMessage::FinishDrafting(vec![0])).unwrap();
    let after: Vec<Vec<(u8, usize)>> = server.world.entities.iter().map(kinds_of).collect();
    assert_eq!(before, after);
}

#[test]
fn pool_invariants_hold_after_messages() {
    let mut server = Server::new();
    server.handle_message(ClientMessage::FinishDrafting(vec![0, 2])).unwrap();
    for c in &server.world.entities {
        if let Some(pool) = &c.dice_pool {
            assert!(pool.drafted.len() <= pool.max_draft_amount);
            for d in &pool.available {
                assert!(d.rolled_value.is_none());
            }
            for d in &pool.drafted {
                assert!(d.rolled_value.is_none());
            }
            for d in &pool.rolled {
                let v = d.rolled_value.unwrap();
                assert!(1 <= v && v <= d.sides);
            }
        }
    }
}

#[test]
fn drafting_without_pool_fails_materialize() {
    let mut lone = fighter("Player", 100, Vec::new());
    lone.dice_pool = None;
    let mut world = world_of(vec![lone], CombatPhase::Drafting, 0);
    let r = world.step();
    assert_eq!(r, Err(EngineError::MissingDicePool));
}

#[test]
fn one_sided_die_rolls_one() {
    let mut player = fighter("Player", 100, Vec::new());
    player.dice_pool.as_mut().unwrap().drafted = vec![Die::red(1)];
    let goblin = fighter("Red Goblin", 50, vec![Die::red(4)]);
    let mut world = world_of(vec![player, goblin], CombatPhase::Roll, 0);
    let rolling = RollingSystem;
    rolling.run(&mut world);
    let pool = world.entities[0].dice_pool.as_ref().unwrap();
    assert!(pool.drafted.is_empty());
    assert_eq!(pool.rolled.len(), 1);
    assert_eq!(pool.rolled[0].rolled_value, Some(1));
    assert!(matches!(
        world.combat_state.current_phase,
        CombatPhase::SelectAction(_)
    ));
}

#[test]
fn combatant_without_health_is_dropped_from_snapshot() {
    let whole = fighter("Alice", 30, vec![Die::red(4)]);
    let mut ghostly = fighter("Bob", 30, vec![Die::red(4)]);
    ghostly.health = None;
    let mut world = world_of(vec![whole, ghostly], CombatPhase::Roll, 0);
    let materialize = MaterializeSystem;
    materialize.run(&mut world).unwrap();
    let snap = &world.combat_state.materialized_state;
    assert_eq!(snap.combatants.len(), 1);
    assert_eq!(snap.combatants[0].name, "Alice");
}

#[test]
fn select_action_menu_is_populated() {
    let mut server = Server::new();
    server.handle_message(ClientMessage::FinishDrafting(vec![0, 2])).unwrap();
    match &server.world.combat_state.current_phase {
        CombatPhase::SelectAction(actions) => {
            assert_eq!(actions.len(), 3);
            assert_eq!(actions[0].0, "Light Attack");
            assert!(matches!(actions[0].1, CombatAction::LightAttack(None)));
            assert_eq!(actions[1].0, "Prep Heavy Atk");
            assert!(matches!(actions[1].1, CombatAction::PrepHeavyAttack));
            assert_eq!(actions[2].0, "Defend");
            assert!(matches!(actions[2].1, CombatAction::Defend));
        },
        other => panic!("expected a populated menu, got {:?}", other),
    }
}

#[test]
fn menu_offers_heavy_attack_once_prepared() {
    let mut player = fighter("Player", 100, vec![Die::blue(6)]);
    player.heavy_attacker.as_mut().unwrap().prepped_attack = vec![rolled(Color::Red, 6, 4)];
    let goblin = fighter("Red Goblin", 50, vec![Die::red(4)]);
    let mut world = world_of(
        vec![player, goblin],
        CombatPhase::SelectAction(Vec::new()),
        0,
    );
    let action = ActionSystem;
    action.run(&mut world);
    match &world.combat_state.current_phase {
        CombatPhase::SelectAction(actions) => {
            assert_eq!(actions.len(), 3);
            assert_eq!(actions[1].0, "Heavy Attack");
            assert!(matches!(actions[1].1, CombatAction::HeavyAttack(None)));
        },
        other => panic!("expected a populated menu, got {:?}", other),
    }
}

#[test]
fn draft_batch_applies_in_queue_order() {
    let player = fighter(
        "Player",
        100,
        vec![Die::blue(6), Die::red(6), Die::yellow(6)],
    );
    let goblin = fighter("Red Goblin", 50, vec![Die::red(4)]);
    let mut world = world_of(vec![player, goblin], CombatPhase::Roll, 0);
    // Three picks of position 0, each valid when applied; the cap of two
    // accepts the first two and silently drops the third.
    world.event_queue.events.push(Event::DraftDie(0));
    world.event_queue.events.push(Event::DraftDie(0));
    world.event_queue.events.push(Event::DraftDie(0));
    let drafting = DraftingSystem;
    drafting.run(&mut world);
    let pool = world.entities[0].dice_pool.as_ref().unwrap();
    assert_eq!(pool.drafted.len(), 2);
    assert!(matches!(pool.drafted[0].color, Color::Blue));
    assert!(matches!(pool.drafted[1].color, Color::Red));
    assert_eq!(pool.available.len(), 1);
    assert!(matches!(pool.available[0].color, Color::Yellow));
    let log = &world.combat_log.logs;
    assert_eq!(log.len(), 2);
    assert_eq!(log[0], "Player drafted blu6");
    assert_eq!(log[1], "Player drafted red6");
}
