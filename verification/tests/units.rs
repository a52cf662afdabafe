use dice_combat::dice::{Color, Die};
use dice_combat::events::{Event, EventQueue};
use dice_combat::log::CombatLog;
use dice_combat::server::sort_desc;
use dice_combat::shared::{ClientCombatant, ClientGameState, ClientPhase};

#[test]
fn die_constructors_are_unrolled() {
    let d = Die::colorless(20);
    assert!(matches!(d.color, Color::Colorless));
    assert_eq!(d.sides, 20);
    assert!(d.rolled_value.is_none());
    assert!(matches!(Die::blue(6).color, Color::Blue));
    assert!(matches!(Die::red(6).color, Color::Red));
    assert!(matches!(Die::yellow(6).color, Color::Yellow));
    assert!(matches!(Die::green(8).color, Color::Green));
    assert_eq!(Die::green(8).sides, 8);
    assert!(Die::red(4).rolled_value.is_none());
}

#[test]
fn die_label_unrolled() {
    assert_eq!(Die::red(6).label(), "red6");
    assert_eq!(Die::blue(4).label(), "blu4");
    assert_eq!(Die::yellow(10).label(), "yel10");
    assert_eq!(Die::green(8).label(), "grn8");
    assert_eq!(Die::colorless(20).label(), "non20");
}

#[test]
fn die_label_rolled() {
    let mut d = Die::red(6);
    d.rolled_value = Some(3);
    assert_eq!(d.label(), "red3 (6)");
    let big = Die { color: Color::Colorless, sides: 123, rolled_value: Some(45) };
    assert_eq!(big.label(), "non45 (123)");
}

#[test]
fn combat_log_evicts_oldest() {
    let mut log = CombatLog::new();
    for i in 0..11 {
        log.add(format!("line{}", i));
    }
    assert_eq!(log.logs.len(), 10);
    assert_eq!(log.logs[0], "line1");
    assert_eq!(log.logs[9], "line10");
}

#[test]
fn event_queue_rotates() {
    let mut q = EventQueue::new();
    q.new_events.push(Event::DraftDie(3));
    q.new_events.push(Event::DraftDie(1));
    assert!(q.events.is_empty());
    q.rotate();
    assert_eq!(q.events.len(), 2);
    assert!(q.new_events.is_empty());
    assert!(matches!(q.events[0], Event::DraftDie(3)));
    assert!(matches!(q.events[1], Event::DraftDie(1)));
    q.rotate();
    assert!(q.events.is_empty());
    assert!(q.new_events.is_empty());
}

#[test]
fn sort_desc_orders_indices() {
    let mut v: Vec<usize> = vec![1, 4, 2, 4, 0];
    sort_desc(&mut v);
    assert_eq!(v, vec![4, 4, 2, 1, 0]);
    let mut empty: Vec<usize> = Vec::new();
    sort_desc(&mut empty);
    assert!(empty.is_empty());
}

#[test]
fn snapshot_copy_and_equality() {
    let snap = ClientGameState {
        client_phase: ClientPhase::DraftDice(vec![Die::blue(6), Die::red(4)], 2),
        combatants: vec![ClientCombatant { name: "Player".to_string(), hp: 100 }],
        combat_log: vec!["Player drafted blu6".to_string()],
    };
    let copy = snap.duplicate();
    assert!(snap.same_as(&copy));
    let mut other = snap.duplicate();
    other.combatants[0].hp = 99;
    assert!(!snap.same_as(&other));
    let mut other2 = snap.duplicate();
    other2.client_phase = ClientPhase::Waiting;
    assert!(!snap.same_as(&other2));
    let mut other3 = snap.duplicate();
    other3.combat_log.push("x".to_string());
    assert!(!snap.same_as(&other3));
}
