//! The engine's laws: every phase system preserves the world invariants —
//! the draft cap, the rolled-face discipline of each pool partition, the
//! conserved multiset of dice kinds of every combatant, and the roster —
//! and the boundary behaviors of drafting, damage and the turn cursor.

use vstd::prelude::*;
use vstd::multiset::Multiset;
use vstd::seq_lib::{lemma_multiset_commutative, to_multiset_build, to_multiset_remove};
use crate::action_system::{
    action_sys, advance, apply_damage, damage_total, hp_of, resolve_defend, resolve_heavy,
    resolve_light, resolve_prep,
};
use crate::combat_state::{CombatAction, CombatPhaseV};
use crate::components::{kind_multiset, kind_seq};
use crate::dice::{clear_all, die_kind, Color, Die};
use crate::drafting_system::{
    cleanup_combatant, draft_events, draft_line, draft_one, drafting_cleanup, drafting_sys,
    lemma_draft_events_frame, lemma_draft_one_frame,
};
use crate::components::DicePoolV;
use crate::log::log_add;
use crate::events::Event;
use crate::combatant::{
    empty_snapshot, initial_snapshot, initial_world, lemma_initial_world_wf, ready_world,
};
use crate::materialize_system::{materialize_ok, materialize_sys, rows_of, snapshot_of};
use crate::server::{
    diverging_run, pre_materialize, run_to_fixpoint, step_spec, step_vals_ok, LOOP_BUDGET,
};
use crate::shared::ClientCombatantV;
use crate::rolling_system::{drafted_of, roll_values_ok, rolling_sys};
use crate::server::as_draft_events;
use crate::world::{
    active, all_dice, combatant_kinds, kinds_preserved, opt_dice, pool_dice, roster_preserved,
    the_name, wf, CombatantV, WorldV,
};

verus! {

/// The kinds of a concatenation are the kinds of the parts, in order.
pub proof fn lemma_kind_seq_concat(a: Seq<Die>, b: Seq<Die>)
    ensures
        kind_seq(a + b) == kind_seq(a) + kind_seq(b),
{
    assert(kind_seq(a + b) =~= kind_seq(a) + kind_seq(b));
}

/// The kind multiset of a concatenation is the sum of the parts' multisets.
pub proof fn lemma_kind_concat(a: Seq<Die>, b: Seq<Die>)
    ensures
        kind_multiset(a + b) == kind_multiset(a).add(kind_multiset(b)),
{
    lemma_kind_seq_concat(a, b);
    lemma_multiset_commutative(kind_seq(a), kind_seq(b));
}

/// Two dice lists with pointwise equal kinds have the same kind multiset.
pub proof fn lemma_kind_pointwise(a: Seq<Die>, b: Seq<Die>)
    requires
        a.len() == b.len(),
        forall|i: int| 0 <= i < a.len() ==> die_kind(#[trigger] a[i]) == die_kind(b[i]),
    ensures
        kind_multiset(a) == kind_multiset(b),
{
    assert(kind_seq(a) =~= kind_seq(b));
}

/// Clearing the faces of a dice list leaves its kinds unchanged.
pub proof fn lemma_kind_clear_all(s: Seq<Die>)
    ensures
        kind_multiset(clear_all(s)) == kind_multiset(s),
{
    lemma_kind_pointwise(clear_all(s), s);
}

/// An empty dice list has no kinds.
pub proof fn lemma_kind_empty()
    ensures
        kind_multiset(Seq::<Die>::empty()) == Multiset::<(Color, usize)>::empty(),
{
    assert(kind_seq(Seq::<Die>::empty()) =~= Seq::<(Color, usize)>::empty());
    vstd::seq_lib::to_multiset_len(Seq::<(Color, usize)>::empty());
    vstd::multiset::lemma_multiset_empty_len(kind_multiset(Seq::<Die>::empty()));
}

/// Kind conservation composes.
pub proof fn lemma_kinds_trans(a: WorldV, b: WorldV, c: WorldV)
    requires
        kinds_preserved(a, b),
        kinds_preserved(b, c),
    ensures
        kinds_preserved(a, c),
{
}

/// Roster preservation composes.
pub proof fn lemma_roster_trans(a: WorldV, b: WorldV, c: WorldV)
    requires
        roster_preserved(a, b),
        roster_preserved(b, c),
    ensures
        roster_preserved(a, c),
{
    assert forall|i: int| 0 <= i < a.entities.len() implies crate::world::roster_entry_preserved(
        a.entities[i],
        #[trigger] c.entities[i],
    ) by {
        assert(crate::world::roster_entry_preserved(a.entities[i], b.entities[i]));
        assert(crate::world::roster_entry_preserved(b.entities[i], c.entities[i]));
    }
}

/// Moving the die at position `n` of one list to the end of another
/// conserves the combined kind multiset.
pub proof fn lemma_kind_move(a: Seq<Die>, b: Seq<Die>, n: int)
    requires
        0 <= n < a.len(),
    ensures
        kind_multiset(a.remove(n)).add(kind_multiset(b.push(a[n]))) == kind_multiset(a).add(
            kind_multiset(b),
        ),
{
    broadcast use vstd::multiset::group_multiset_axioms;

    let k = die_kind(a[n]);
    assert(kind_seq(a.remove(n)) =~= kind_seq(a).remove(n));
    assert(kind_seq(a)[n] == k);
    to_multiset_remove(kind_seq(a), n);
    assert(kind_seq(b.push(a[n])) =~= kind_seq(b).push(k));
    to_multiset_build(kind_seq(b), k);
    vstd::seq_lib::to_multiset_contains(kind_seq(a), k);
    assert(kind_seq(a).contains(k)) by {
        assert(kind_seq(a)[n] == k);
    }
    assert(kind_multiset(a.remove(n)).add(kind_multiset(b.push(a[n]))) =~= kind_multiset(a).add(
        kind_multiset(b),
    ));
}

/// Cleanup on entry to drafting conserves the combatant's dice kinds.
pub proof fn lemma_cleanup_kinds(c: CombatantV)
    ensures
        combatant_kinds(cleanup_combatant(c)) == combatant_kinds(c),
{
    match c.pool {
        Some(p) => {
            let c2 = cleanup_combatant(c);
            let pa = opt_dice(c.prepped_attack);
            let de = opt_dice(c.prepped_defense);
            // Before: ((available + drafted + rolled) + pa) + de.
            lemma_kind_concat(p.available + p.drafted, p.rolled);
            lemma_kind_concat(p.available, p.drafted);
            lemma_kind_concat(pool_dice(c.pool), pa);
            lemma_kind_concat(pool_dice(c.pool) + pa, de);
            // After, with a defender: available' = available + cleared rolled
            // + cleared defense; rolled and defense empty.
            match c.prepped_defense {
                Some(def) => {
                    let av2 = p.available + clear_all(p.rolled) + clear_all(def);
                    lemma_kind_concat(p.available + clear_all(p.rolled), clear_all(def));
                    lemma_kind_concat(p.available, clear_all(p.rolled));
                    lemma_kind_clear_all(p.rolled);
                    lemma_kind_clear_all(def);
                    lemma_kind_concat(av2, p.drafted);
                    lemma_kind_concat(av2 + p.drafted, Seq::empty());
                    lemma_kind_concat(pool_dice(c2.pool), pa);
                    lemma_kind_concat(pool_dice(c2.pool) + pa, opt_dice(c2.prepped_defense));
                    lemma_kind_empty();
                    assert(combatant_kinds(c2) =~= combatant_kinds(c));
                },
                None => {
                    let av2 = p.available + clear_all(p.rolled);
                    lemma_kind_concat(p.available, clear_all(p.rolled));
                    lemma_kind_clear_all(p.rolled);
                    lemma_kind_concat(av2, p.drafted);
                    lemma_kind_concat(av2 + p.drafted, Seq::empty());
                    lemma_kind_concat(pool_dice(c2.pool), pa);
                    lemma_kind_concat(pool_dice(c2.pool) + pa, de);
                    lemma_kind_empty();
                    assert(combatant_kinds(c2) =~= combatant_kinds(c));
                },
            }
        },
        None => {},
    }
}

/// One consumed draft event conserves every combatant's dice kinds.
pub proof fn lemma_draft_one_kinds(w: WorldV, n: usize)
    requires
        wf(w),
    ensures
        kinds_preserved(w, draft_one(w, n)),
{
    let h = active(w);
    let c = w.entities[h];
    let w2 = draft_one(w, n);
    lemma_draft_one_frame(w, n);
    match c.pool {
        Some(p) => {
            if p.drafted.len() < p.max_draft_amount && n < p.available.len() {
                let c2 = w2.entities[h];
                let pa = opt_dice(c.prepped_attack);
                let de = opt_dice(c.prepped_defense);
                lemma_kind_concat(p.available + p.drafted, p.rolled);
                lemma_kind_concat(p.available, p.drafted);
                lemma_kind_concat(pool_dice(c.pool), pa);
                lemma_kind_concat(pool_dice(c.pool) + pa, de);
                let av2 = p.available.remove(n as int);
                let dr2 = p.drafted.push(p.available[n as int]);
                lemma_kind_concat(av2 + dr2, p.rolled);
                lemma_kind_concat(av2, dr2);
                lemma_kind_concat(pool_dice(c2.pool), pa);
                lemma_kind_concat(pool_dice(c2.pool) + pa, de);
                lemma_kind_move(p.available, p.drafted, n as int);
                assert(combatant_kinds(c2) =~= combatant_kinds(c));
            }
        },
        None => {},
    }
}

/// Event consumption conserves every combatant's dice kinds.
pub proof fn lemma_draft_events_kinds(w: WorldV, evs: Seq<Event>)
    requires
        wf(w),
    ensures
        kinds_preserved(w, draft_events(w, evs)),
        roster_preserved(w, draft_events(w, evs)),
    decreases evs.len(),
{
    lemma_draft_events_frame(w, evs);
    if evs.len() > 0 {
        match evs[0] {
            Event::DraftDie(n) => {
                lemma_draft_one_frame(w, n);
                lemma_draft_one_kinds(w, n);
                lemma_draft_events_kinds(draft_one(w, n), evs.drop_first());
            },
        }
    }
}

/// The drafting system preserves the invariants, every combatant's dice
/// kinds, and the roster.
pub proof fn lemma_drafting_preserves(w: WorldV)
    requires
        wf(w),
    ensures
        wf(drafting_sys(w)),
        kinds_preserved(w, drafting_sys(w)),
        roster_preserved(w, drafting_sys(w)),
        drafting_sys(w).combat_state == w.combat_state,
        drafting_sys(w).event_queue == w.event_queue,
{
    let w1 = drafting_cleanup(w);
    crate::drafting_system::lemma_cleanup_wf(w);
    if w.combat_state.current_phase is Drafting {
        lemma_cleanup_kinds(w.entities[active(w)]);
    }
    lemma_draft_events_frame(w1, w.event_queue.events);
    lemma_draft_events_kinds(w1, w.event_queue.events);
}

/// The rolling system preserves the invariants, the dice kinds and the
/// roster, whatever faces the random source produced.
pub proof fn lemma_rolling_preserves(w: WorldV, vals: Seq<usize>)
    requires
        wf(w),
        roll_values_ok(drafted_of(w), vals),
    ensures
        wf(rolling_sys(w, vals)),
        kinds_preserved(w, rolling_sys(w, vals)),
        roster_preserved(w, rolling_sys(w, vals)),
        rolling_sys(w, vals).combat_state.combatants == w.combat_state.combatants,
        rolling_sys(w, vals).combat_state.current_character
            == w.combat_state.current_character,
        rolling_sys(w, vals).event_queue == w.event_queue,
{
    if w.combat_state.current_phase is Roll {
        let h = active(w);
        let c = w.entities[h];
        match c.pool {
            Some(p) => {
                let w2 = rolling_sys(w, vals);
                let c2 = w2.entities[h];
                let newly = Seq::new(p.drafted.len(), |i: int| crate::rolling_system::rolled_copy(
                    p.drafted[i],
                    vals[i],
                ));
                let pa = opt_dice(c.prepped_attack);
                let de = opt_dice(c.prepped_defense);
                assert(wf(w2)) by {
                    assert(crate::components::all_rolled(p.rolled + newly));
                    assert(forall|i: int|
                        0 <= i < w2.entities.len() ==> crate::world::combatant_wf(
                            #[trigger] w2.entities[i],
                        ));
                }
                lemma_kind_concat(p.available + p.drafted, p.rolled);
                lemma_kind_concat(p.available, p.drafted);
                lemma_kind_concat(pool_dice(c.pool), pa);
                lemma_kind_concat(pool_dice(c.pool) + pa, de);
                let av2 = p.available;
                let ro2 = p.rolled + newly;
                lemma_kind_concat(av2 + Seq::empty(), ro2);
                lemma_kind_concat(av2, Seq::empty());
                lemma_kind_concat(p.rolled, newly);
                lemma_kind_pointwise(newly, p.drafted);
                lemma_kind_concat(pool_dice(c2.pool), pa);
                lemma_kind_concat(pool_dice(c2.pool) + pa, de);
                lemma_kind_empty();
                assert(combatant_kinds(c2) =~= combatant_kinds(c));
                assert(kinds_preserved(w, w2));
            },
            None => {},
        }
    }
}

/// Changing only the hit points of a combatant leaves its dice alone.
proof fn lemma_hp_only_kinds(a: CombatantV, b: CombatantV)
    requires
        b.pool == a.pool,
        b.prepped_attack == a.prepped_attack,
        b.prepped_defense == a.prepped_defense,
    ensures
        combatant_kinds(b) == combatant_kinds(a),
{
}

/// A turn advance preserves the invariants: the new cursor stays inside
/// the order and the phase returns to drafting.
proof fn lemma_advance_wf(w: WorldV)
    requires
        crate::world::order_wf(w),
        forall|i: int|
            0 <= i < w.entities.len() ==> crate::world::combatant_wf(#[trigger] w.entities[i]),
    ensures
        wf(advance(w)),
{
}

/// The action system preserves the invariants, the dice kinds and the
/// roster, and never lets hit points underflow.
pub proof fn lemma_action_preserves(w: WorldV)
    requires
        wf(w),
    ensures
        wf(action_sys(w)),
        kinds_preserved(w, action_sys(w)),
        roster_preserved(w, action_sys(w)),
        action_sys(w).event_queue == w.event_queue,
        action_sys(w).combat_state.combatants == w.combat_state.combatants,
{
    let w2 = action_sys(w);
    match w.combat_state.current_phase {
        CombatPhaseV::SelectAction(actions) => {},
        CombatPhaseV::Action(a) => {
            let h = active(w);
            let c = w.entities[h];
            match a {
                CombatAction::LightAttack(Some(t)) => {
                    match c.pool {
                        Some(p) => {
                            if t < w.entities.len() && w.entities[t as int].hp is Some {
                                let tc = w.entities[t as int];
                                let tc2 = CombatantV {
                                    hp: Some(
                                        apply_damage(hp_of(tc), damage_total(p.rolled)),
                                    ),
                                    ..tc
                                };
                                lemma_hp_only_kinds(tc, tc2);
                                let wmid = WorldV {
                                    entities: w.entities.update(t as int, tc2),
                                    combat_log: crate::log::log_add(
                                        w.combat_log,
                                        crate::action_system::light_line(
                                            crate::world::the_name(c),
                                            damage_total(p.rolled),
                                            crate::world::the_name(tc),
                                        ),
                                    ),
                                    ..w
                                };
                                lemma_advance_wf(wmid);
                                assert(kinds_preserved(w, w2));
                            }
                        },
                        None => {},
                    }
                },
                CombatAction::PrepHeavyAttack => {
                    lemma_prep_kinds(w);
                },
                CombatAction::HeavyAttack(Some(t)) => {
                    lemma_heavy_kinds(w, t);
                },
                CombatAction::Defend => {
                    lemma_defend_kinds(w);
                },
                _ => {},
            }
        },
        _ => {},
    }
}

/// Heavy-attack preparation conserves kinds and invariants.
proof fn lemma_prep_kinds(w: WorldV)
    requires
        wf(w),
    ensures
        wf(resolve_prep(w)),
        kinds_preserved(w, resolve_prep(w)),
        roster_preserved(w, resolve_prep(w)),
{
    let h = active(w);
    let c = w.entities[h];
    match (c.prepped_attack, c.pool) {
        (Some(pa), Some(p)) => {
            let w2 = resolve_prep(w);
            let c2 = w2.entities[h];
            let de = opt_dice(c.prepped_defense);
            lemma_kind_concat(p.available + p.drafted, p.rolled);
            lemma_kind_concat(p.available, p.drafted);
            lemma_kind_concat(pool_dice(c.pool), pa);
            lemma_kind_concat(pool_dice(c.pool) + pa, de);
            lemma_kind_concat(p.available + p.drafted, Seq::empty());
            lemma_kind_concat(pool_dice(c2.pool), pa + p.rolled);
            lemma_kind_concat(pool_dice(c2.pool) + (pa + p.rolled), de);
            lemma_kind_concat(pa, p.rolled);
            lemma_kind_empty();
            assert(combatant_kinds(c2) =~= combatant_kinds(c));
            assert(wf(w2)) by {
                assert(crate::components::all_rolled(pa + p.rolled));
                assert(forall|i: int|
                    0 <= i < w2.entities.len() ==> crate::world::combatant_wf(
                        #[trigger] w2.entities[i],
                    ));
            }
        },
        _ => {},
    }
}

/// Defense conserves kinds and invariants.
proof fn lemma_defend_kinds(w: WorldV)
    requires
        wf(w),
    ensures
        wf(resolve_defend(w)),
        kinds_preserved(w, resolve_defend(w)),
        roster_preserved(w, resolve_defend(w)),
{
    let h = active(w);
    let c = w.entities[h];
    match (c.prepped_defense, c.pool) {
        (Some(de), Some(p)) => {
            let w2 = resolve_defend(w);
            let c2 = w2.entities[h];
            let pa = opt_dice(c.prepped_attack);
            lemma_kind_concat(p.available + p.drafted, p.rolled);
            lemma_kind_concat(p.available, p.drafted);
            lemma_kind_concat(pool_dice(c.pool), pa);
            lemma_kind_concat(pool_dice(c.pool) + pa, de);
            lemma_kind_concat(p.available + p.drafted, Seq::empty());
            lemma_kind_concat(pool_dice(c2.pool), pa);
            lemma_kind_concat(pool_dice(c2.pool) + pa, de + p.rolled);
            lemma_kind_concat(de, p.rolled);
            lemma_kind_empty();
            assert(combatant_kinds(c2) =~= combatant_kinds(c));
            assert(wf(w2)) by {
                assert(crate::components::all_rolled(de + p.rolled));
                assert(forall|i: int|
                    0 <= i < w2.entities.len() ==> crate::world::combatant_wf(
                        #[trigger] w2.entities[i],
                    ));
            }
        },
        _ => {},
    }
}

/// Heavy-attack discharge conserves kinds and invariants.
proof fn lemma_heavy_kinds(w: WorldV, t: usize)
    requires
        wf(w),
    ensures
        wf(resolve_heavy(w, t)),
        kinds_preserved(w, resolve_heavy(w, t)),
        roster_preserved(w, resolve_heavy(w, t)),
{
    let h = active(w);
    let c = w.entities[h];
    match (c.prepped_attack, c.pool) {
        (Some(pa), Some(p)) => {
            if t < w.entities.len() && w.entities[t as int].hp is Some {
                let w2 = resolve_heavy(w, t);
                let ro2 = p.rolled + pa;
                let c2full = CombatantV {
                    prepped_attack: Some(Seq::empty()),
                    pool: Some(crate::components::DicePoolV { rolled: ro2, ..p }),
                    ..c
                };
                let de = opt_dice(c.prepped_defense);
                lemma_kind_concat(p.available + p.drafted, p.rolled);
                lemma_kind_concat(p.available, p.drafted);
                lemma_kind_concat(pool_dice(c.pool), pa);
                lemma_kind_concat(pool_dice(c.pool) + pa, de);
                lemma_kind_concat(p.available + p.drafted, ro2);
                lemma_kind_concat(pool_dice(c2full.pool), Seq::empty());
                lemma_kind_concat(pool_dice(c2full.pool) + Seq::<Die>::empty(), de);
                lemma_kind_concat(p.rolled, pa);
                lemma_kind_empty();
                assert(combatant_kinds(c2full) =~= combatant_kinds(c));
                let e1 = w.entities.update(h, c2full);
                let tc = e1[t as int];
                let tc2 = CombatantV {
                    hp: Some(apply_damage(hp_of(tc), damage_total(ro2))),
                    ..tc
                };
                lemma_hp_only_kinds(tc, tc2);
                assert(kinds_preserved(w, w2)) by {
                    assert(forall|i: int|
                        0 <= i < w.entities.len() ==> combatant_kinds(#[trigger] w2.entities[i])
                            == combatant_kinds(w.entities[i]));
                }
                assert(wf(w2)) by {
                    assert(crate::components::all_rolled(ro2));
                    assert(forall|i: int|
                        0 <= i < w2.entities.len() ==> crate::world::combatant_wf(
                            #[trigger] w2.entities[i],
                        ));
                }
            }
        },
        _ => {},
    }
}

/// In every well-formed world, no combatant's draft exceeds its cap.
pub proof fn lemma_draft_cap_invariant(w: WorldV)
    requires
        wf(w),
    ensures
        forall|i: int|
            0 <= i < w.entities.len() ==> match #[trigger] w.entities[i].pool {
                Some(p) => p.drafted.len() <= p.max_draft_amount,
                None => true,
            },
{
}

/// In every well-formed world, available and drafted dice carry no rolled
/// face, and every die in the rolled and prepared partitions carries a face
/// between 1 and its side count.
pub proof fn lemma_rolled_face_invariant(w: WorldV)
    requires
        wf(w),
    ensures
        forall|i: int|
            0 <= i < w.entities.len() ==> match #[trigger] w.entities[i].pool {
                Some(p) => crate::components::all_clear(p.available)
                    && crate::components::all_clear(p.drafted) && crate::components::all_rolled(
                    p.rolled,
                ),
                None => true,
            },
        forall|i: int|
            0 <= i < w.entities.len() ==> match #[trigger] w.entities[i].prepped_attack {
                Some(s) => crate::components::all_rolled(s),
                None => true,
            },
        forall|i: int|
            0 <= i < w.entities.len() ==> match #[trigger] w.entities[i].prepped_defense {
                Some(s) => crate::components::all_rolled(s),
                None => true,
            },
{
}

/// A light attack whose damage exceeds the target's hit points leaves the
/// target at exactly zero: damage saturates and never underflows.
pub proof fn lemma_damage_clamps(w: WorldV, t: usize)
    requires
        wf(w),
        w.combat_state.current_phase == CombatPhaseV::Action(
            CombatAction::LightAttack(Some(t)),
        ),
        w.entities[active(w)].pool is Some,
        t < w.entities.len(),
        w.entities[t as int].hp is Some,
        damage_total(w.entities[active(w)].pool->Some_0.rolled) >= hp_of(w.entities[t as int]),
    ensures
        action_sys(w).entities[t as int].hp == Some(0usize),
{
}

/// When the last combatant of the turn order resolves a light attack, the
/// cursor wraps back to the first combatant; otherwise it moves one step on.
pub proof fn lemma_turn_cursor_wraps(w: WorldV, t: usize)
    requires
        wf(w),
        w.combat_state.current_phase == CombatPhaseV::Action(
            CombatAction::LightAttack(Some(t)),
        ),
        w.entities[active(w)].pool is Some,
        t < w.entities.len(),
        w.entities[t as int].hp is Some,
    ensures
        w.combat_state.current_character + 1 == w.combat_state.combatants.len()
            ==> action_sys(w).combat_state.current_character == 0,
        w.combat_state.current_character + 1 < w.combat_state.combatants.len()
            ==> action_sys(w).combat_state.current_character as int
            == w.combat_state.current_character + 1,
{
}

/// An engine at quiescence stays put: when the phase is drafting, the
/// event queue is empty in both generations, the active combatant has a
/// pool with nothing rolled and nothing prepared for defense, and the
/// stored snapshot is the one the world materializes, then one driver
/// iteration is the identity, so an empty draft batch produces no visible
/// change.  (The coordinator's subsequent move to the roll phase does
/// change the snapshot: it rolls an empty draft and logs it.)
pub proof fn lemma_quiescent_step_identity(w: WorldV)
    requires
        wf(w),
        w.combat_state.current_phase is Drafting,
        w.event_queue.events.len() == 0,
        w.event_queue.new_events.len() == 0,
        w.entities[active(w)].pool is Some,
        w.entities[active(w)].pool->Some_0.rolled.len() == 0,
        (w.entities[active(w)].prepped_defense matches Some(s) ==> s.len() == 0),
        w.combat_state.materialized_state == snapshot_of(w),
    ensures
        step_spec(w, Seq::empty()) == w,
        run_to_fixpoint(
            w,
            w.combat_state.materialized_state,
            seq![Seq::<usize>::empty()],
            LOOP_BUDGET as nat,
        ) == Some(w),
{
    lemma_idle_drafting_step(w);
    let vals = Seq::<usize>::empty();
    assert(materialize_sys(w) =~~= w);
    assert(step_spec(w, vals) =~~= w) by {
        assert(crate::events::queue_rotate(w.event_queue) =~~= w.event_queue);
    }
    let rolls = seq![vals];
    assert(rolls[0] == vals);
    assert(run_to_fixpoint(
        w,
        w.combat_state.materialized_state,
        rolls,
        LOOP_BUDGET as nat,
    ) == Some(w));
}

/// In a drafting phase with no pending events and a recycled active pool,
/// the three mutating systems leave the world exactly as it is, the only
/// fitting face sequence is the empty one, and materialization succeeds.
pub proof fn lemma_idle_drafting_step(w: WorldV)
    requires
        wf(w),
        w.combat_state.current_phase is Drafting,
        w.event_queue.events.len() == 0,
        w.entities[active(w)].pool is Some,
        w.entities[active(w)].pool->Some_0.rolled.len() == 0,
        (w.entities[active(w)].prepped_defense matches Some(s) ==> s.len() == 0),
    ensures
        drafting_sys(w) == w,
        step_vals_ok(w, Seq::empty()),
        pre_materialize(w, Seq::empty()) == w,
        materialize_ok(w),
{
    let h = active(w);
    let c = w.entities[h];
    let c2 = cleanup_combatant(c);
    assert(c2 =~~= c) by {
        match c.pool {
            Some(p) => {
                assert(p.available + clear_all(p.rolled) =~= p.available);
                match c.prepped_defense {
                    Some(def) => {
                        assert(p.available + clear_all(p.rolled) + clear_all(def)
                            =~= p.available);
                        assert(c2.prepped_defense->Some_0 =~= def);
                    },
                    None => {},
                }
            },
            None => {},
        }
    }
    let w1 = drafting_cleanup(w);
    assert(w1 =~~= w) by {
        assert(w.entities.update(h, c2) =~= w.entities);
    }
    assert(drafting_sys(w) == w);
    let vals = Seq::<usize>::empty();
    assert(rolling_sys(w, vals) == w);
    assert(action_sys(w) == w);
    assert(roll_values_ok(drafted_of(drafting_sys(w)), vals));
    assert(materialize_ok(w));
}

/// From the starting world, the first driver iteration only materializes
/// the session's first snapshot: the player's drafting prompt with the four
/// configured dice, the three roster rows, and an empty log.
pub proof fn lemma_initial_step()
    ensures
        step_vals_ok(initial_world(), Seq::empty()),
        pre_materialize(initial_world(), Seq::empty()) == initial_world(),
        materialize_ok(initial_world()),
        snapshot_of(initial_world()) == initial_snapshot(),
        snapshot_of(ready_world()) == initial_snapshot(),
        step_spec(initial_world(), Seq::empty()) == ready_world(),
{
    let w = initial_world();
    lemma_initial_world_wf();
    assert(w.combat_state.combatants[0] == 0usize);
    lemma_idle_drafting_step(w);
    // The combatant rows, member by member.
    let order = w.combat_state.combatants;
    assert(order.drop_last() =~= seq![0usize, 1usize]);
    assert(seq![0usize, 1usize].drop_last() =~= seq![0usize]);
    assert(seq![0usize].drop_last() =~= Seq::<usize>::empty());
    assert(rows_of(w.entities, Seq::<usize>::empty()) =~= Seq::<ClientCombatantV>::empty());
    assert(rows_of(w.entities, seq![0usize]) =~= seq![
        ClientCombatantV { name: "Player"@, hp: 100usize },
    ]);
    assert(rows_of(w.entities, seq![0usize, 1usize]) =~= seq![
        ClientCombatantV { name: "Player"@, hp: 100usize },
        ClientCombatantV { name: "Red Goblin"@, hp: 50usize },
    ]);
    assert(rows_of(w.entities, order) =~= initial_snapshot().combatants);
    assert(snapshot_of(w) =~~= initial_snapshot());
    let r = ready_world();
    assert(rows_of(r.entities, r.combat_state.combatants) == rows_of(w.entities, order));
    assert(snapshot_of(r) =~~= initial_snapshot());
    assert(materialize_sys(w) =~~= r);
    assert(step_spec(w, Seq::empty()) =~~= r) by {
        assert(crate::events::queue_rotate(r.event_queue) =~~= r.event_queue);
    }
}

/// From the settled session, any further iteration reproduces it: a
/// fixpoint run converges at once, and no run diverges.
pub proof fn lemma_ready_run(rolls: Seq<Seq<usize>>, fuel: nat)
    ensures
        (run_to_fixpoint(ready_world(), initial_snapshot(), rolls, fuel) matches Some(w) ==> w
            == ready_world()),
        fuel >= 1 ==> diverging_run(ready_world(), initial_snapshot(), rolls, fuel) is None,
{
    let r = ready_world();
    lemma_initial_world_wf();
    lemma_initial_step();
    assert(r.combat_state.combatants[0] == 0usize);
    if fuel >= 1 && rolls.len() >= 1 {
        let vals = rolls[0];
        if step_vals_ok(r, vals) {
            lemma_idle_drafting_step(r);
            assert(vals.len() == 0);
            assert(vals =~= Seq::<usize>::empty());
            lemma_quiescent_step_identity(r);
            assert(step_spec(r, vals).combat_state.materialized_state == initial_snapshot());
        }
    }
}

/// Any fixpoint run from the starting world ends at the settled session;
/// a diverging run dies within two iterations, and never leaves the
/// starting or the settled world.
pub proof fn lemma_initial_run(rolls: Seq<Seq<usize>>, fuel: nat)
    ensures
        (run_to_fixpoint(initial_world(), empty_snapshot(), rolls, fuel) matches Some(w) ==> w
            == ready_world()),
        fuel >= 2 ==> diverging_run(initial_world(), empty_snapshot(), rolls, fuel) is None,
        (diverging_run(initial_world(), empty_snapshot(), rolls, fuel) matches Some(w) ==> (w
            == initial_world() || w == ready_world())),
{
    let w = initial_world();
    lemma_initial_world_wf();
    lemma_initial_step();
    assert(w.combat_state.combatants[0] == 0usize);
    if fuel >= 1 && rolls.len() >= 1 {
        let vals = rolls[0];
        if step_vals_ok(w, vals) {
            lemma_idle_drafting_step(w);
            assert(vals.len() == 0);
            assert(vals =~= Seq::<usize>::empty());
            assert(step_spec(w, vals) == ready_world());
            assert(initial_snapshot() != empty_snapshot());
            lemma_ready_run(rolls.drop_first(), (fuel - 1) as nat);
        }
    }
}

/// A batch of strictly descending draft indices, opening below the size of
/// the available list, is consumed in order: the draft accepts picks until
/// its cap is full and ignores the excess without error, and each accepted
/// pick is the die that stood at the chosen index of the original list.
pub proof fn lemma_draft_batch(w: WorldV, idxs: Seq<usize>)
    requires
        wf(w),
        w.entities[active(w)].pool is Some,
        forall|i: int, j: int| 0 <= i < j < idxs.len() ==> idxs[i] > idxs[j],
        idxs.len() > 0 ==> (idxs[0] as int) < w.entities[active(w)].pool->Some_0.available.len(),
    ensures
        ({
            let p = w.entities[active(w)].pool->Some_0;
            let p2 = draft_events(w, as_draft_events(idxs)).entities[active(w)].pool->Some_0;
            let room = if p.max_draft_amount >= p.drafted.len() {
                p.max_draft_amount - p.drafted.len()
            } else {
                0
            };
            let accepted = if idxs.len() <= room {
                idxs.len() as int
            } else {
                room
            };
            &&& p2.drafted.len() == p.drafted.len() + accepted
            &&& p2.drafted.len() <= p.max_draft_amount || p.drafted.len()
                > p.max_draft_amount
            &&& forall|k: int|
                0 <= k < accepted ==> p2.drafted[p.drafted.len() + k] == p.available[idxs[k] as int]
            &&& forall|k: int| 0 <= k < p.drafted.len() ==> p2.drafted[k] == p.drafted[k]
        }),
    decreases idxs.len(),
{
    lemma_draft_events_frame(w, as_draft_events(idxs));
    let h = active(w);
    let p = w.entities[h].pool->Some_0;
    if idxs.len() == 0 {
        assert(as_draft_events(idxs) =~= Seq::<Event>::empty());
    } else {
        let n = idxs[0];
        let evs = as_draft_events(idxs);
        let idxs2 = idxs.drop_first();
        assert(evs[0] == Event::DraftDie(n));
        assert(evs.drop_first() =~= as_draft_events(idxs2));
        assert(draft_events(w, evs) == draft_events(draft_one(w, n), as_draft_events(idxs2)));
        let w2 = draft_one(w, n);
        lemma_draft_one_frame(w, n);
        assert(active(w2) == h);
        assert(forall|i: int, j: int| 0 <= i < j < idxs2.len() ==> idxs2[i] > idxs2[j]) by {
            assert(forall|i: int| 0 <= i < idxs2.len() ==> idxs2[i] == idxs[i + 1]);
        }
        if p.drafted.len() < p.max_draft_amount {
            let p2 = w2.entities[h].pool->Some_0;
            assert(p2.available == p.available.remove(n as int));
            assert(p2.drafted == p.drafted.push(p.available[n as int]));
            // Every remaining index is strictly below `n`, so removal at
            // `n` leaves the dice they name in place.
            assert(forall|i: int| 0 <= i < idxs2.len() ==> (idxs2[i] as int) < n) by {
                assert(forall|i: int| 0 <= i < idxs2.len() ==> idxs2[i] == idxs[i + 1]);
            }
            if idxs2.len() > 0 {
                assert(idxs2[0] == idxs[1]);
                assert((idxs2[0] as int) < p2.available.len());
            }
            lemma_draft_batch(w2, idxs2);
            let p3 = draft_events(w2, as_draft_events(idxs2)).entities[h].pool->Some_0;
            let room = if p.max_draft_amount >= p.drafted.len() {
                p.max_draft_amount - p.drafted.len()
            } else {
                0
            };
            let accepted = if idxs.len() <= room {
                idxs.len() as int
            } else {
                room
            };
            let room2 = if p2.max_draft_amount >= p2.drafted.len() {
                p2.max_draft_amount - p2.drafted.len()
            } else {
                0
            };
            let accepted2 = if idxs2.len() <= room2 {
                idxs2.len() as int
            } else {
                room2
            };
            assert(accepted == accepted2 + 1);
            assert(forall|j: int| (0 <= j < n) ==> p.available.remove(n as int)[j]
                == p.available[j]);
            assert forall|k: int| 0 <= k < accepted implies p3.drafted[p.drafted.len() + k]
                == p.available[idxs[k] as int] by {
                if k == 0 {
                    assert(p3.drafted[p.drafted.len() as int] == p2.drafted[p.drafted.len() as int]);
                    assert(p2.drafted[p.drafted.len() as int] == p.available[n as int]);
                } else {
                    assert(p3.drafted[p2.drafted.len() + (k - 1)] == p2.available[idxs2[k - 1] as int]);
                    assert(idxs2[k - 1] == idxs[k]);
                    assert((idxs[k] as int) < n);
                    assert(p2.available[idxs[k] as int] == p.available[idxs[k] as int]);
                }
            }
            assert(forall|k: int|
                0 <= k < p.drafted.len() ==> p3.drafted[k] == p.drafted[k]);
        } else {
            // The cap is already reached: every remaining event is ignored
            // too, and the world does not change.
            assert(w2 == w);
            if idxs2.len() > 0 {
                assert(idxs2[0] == idxs[1]);
                assert((idxs2[0] as int) < p.available.len());
            }
            lemma_draft_batch(w, idxs2);
        }
    }
}

/// The available list after the first `k` picks of a batch, each removed
/// at its index of the list as it then stands.
pub open spec fn avail_after(av: Seq<Die>, idxs: Seq<usize>, k: int) -> Seq<Die>
    decreases k,
{
    if k <= 0 {
        av
    } else {
        avail_after(av.remove(idxs[0] as int), idxs.drop_first(), k - 1)
    }
}

/// The dice the first `k` picks of a batch take, in queue order.
pub open spec fn picked(av: Seq<Die>, idxs: Seq<usize>, k: int) -> Seq<Die>
    decreases k,
{
    if k <= 0 {
        Seq::empty()
    } else {
        seq![av[idxs[0] as int]] + picked(av.remove(idxs[0] as int), idxs.drop_first(), k - 1)
    }
}

/// The log lines the first `k` picks of a batch write, in queue order.
pub open spec fn draft_log_fold(
    log: Seq<Seq<char>>,
    name: Seq<char>,
    av: Seq<Die>,
    idxs: Seq<usize>,
    k: int,
) -> Seq<Seq<char>>
    decreases k,
{
    if k <= 0 {
        log
    } else {
        draft_log_fold(
            log_add(log, draft_line(name, av[idxs[0] as int])),
            name,
            av.remove(idxs[0] as int),
            idxs.drop_first(),
            k - 1,
        )
    }
}

/// How many picks of a batch the draft cap lets through.
pub open spec fn batch_cap(p: DicePoolV, idxs: Seq<usize>) -> int {
    let room = if p.max_draft_amount >= p.drafted.len() {
        p.max_draft_amount - p.drafted.len()
    } else {
        0
    };
    if idxs.len() <= room {
        idxs.len() as int
    } else {
        room
    }
}

/// A batch of draft events, each index valid at the moment it is applied,
/// is consumed in queue order: the draft accepts picks until its cap is
/// full, each accepted pick removes the die at the chosen index of the
/// available list as it then stands and logs its line, and the excess
/// events are ignored without error, log line or state change — consuming
/// the whole batch equals consuming only its accepted prefix.
pub proof fn lemma_draft_batch_in_order(w: WorldV, idxs: Seq<usize>)
    requires
        wf(w),
        w.entities[active(w)].pool is Some,
        ({
            let p = w.entities[active(w)].pool->Some_0;
            forall|j: int|
                0 <= j < batch_cap(p, idxs) ==> (idxs[j] as int) + j < p.available.len()
        }),
    ensures
        ({
            let p = w.entities[active(w)].pool->Some_0;
            let m = batch_cap(p, idxs);
            let w2 = draft_events(w, as_draft_events(idxs));
            let p2 = w2.entities[active(w)].pool->Some_0;
            &&& w2 == draft_events(w, as_draft_events(idxs.take(m)))
            &&& p2.available == avail_after(p.available, idxs, m)
            &&& p2.drafted == p.drafted + picked(p.available, idxs, m)
            &&& p2.rolled == p.rolled
            &&& w2.combat_log == draft_log_fold(
                w.combat_log,
                the_name(w.entities[active(w)]),
                p.available,
                idxs,
                m,
            )
        }),
    decreases idxs.len(),
{
    lemma_draft_events_frame(w, as_draft_events(idxs));
    let h = active(w);
    let c = w.entities[h];
    let p = c.pool->Some_0;
    let m = batch_cap(p, idxs);
    if idxs.len() == 0 {
        assert(as_draft_events(idxs) =~= Seq::<Event>::empty());
        assert(idxs.take(0) =~= idxs);
        assert(p.drafted + picked(p.available, idxs, 0) =~= p.drafted);
    } else {
        let n = idxs[0];
        let evs = as_draft_events(idxs);
        let idxs2 = idxs.drop_first();
        assert(evs[0] == Event::DraftDie(n));
        assert(evs.drop_first() =~= as_draft_events(idxs2));
        assert(draft_events(w, evs) == draft_events(draft_one(w, n), as_draft_events(idxs2)));
        let w1 = draft_one(w, n);
        lemma_draft_one_frame(w, n);
        assert(active(w1) == h);
        assert(forall|j: int| 0 <= j < idxs2.len() ==> idxs2[j] == idxs[j + 1]);
        if p.drafted.len() < p.max_draft_amount {
            assert(m >= 1);
            assert((n as int) + 0 < p.available.len());
            let p1 = w1.entities[h].pool->Some_0;
            assert(p1.available == p.available.remove(n as int));
            assert(p1.drafted == p.drafted.push(p.available[n as int]));
            assert(p1.rolled == p.rolled);
            assert(w1.combat_log == log_add(
                w.combat_log,
                draft_line(the_name(c), p.available[n as int]),
            ));
            let m2 = batch_cap(p1, idxs2);
            assert(m2 == m - 1);
            assert(forall|j: int|
                0 <= j < m2 ==> (idxs2[j] as int) + j < p1.available.len());
            lemma_draft_batch_in_order(w1, idxs2);
            let w2 = draft_events(w1, as_draft_events(idxs2));
            let p2 = w2.entities[h].pool->Some_0;
            assert(avail_after(p.available, idxs, m) == avail_after(p1.available, idxs2, m2));
            assert(p.drafted + picked(p.available, idxs, m) =~= p1.drafted + picked(
                p1.available,
                idxs2,
                m2,
            ));
            assert(the_name(w1.entities[h]) == the_name(c));
            assert(idxs.take(m)[0] == n);
            assert(idxs.take(m).drop_first() =~= idxs2.take(m - 1));
            assert(as_draft_events(idxs.take(m))[0] == Event::DraftDie(n));
            assert(as_draft_events(idxs.take(m)).drop_first() =~= as_draft_events(
                idxs2.take(m - 1),
            ));
            assert(draft_events(w, as_draft_events(idxs.take(m))) == draft_events(
                w1,
                as_draft_events(idxs2.take(m - 1)),
            ));
        } else {
            assert(m == 0);
            assert(w1 == w);
            lemma_draft_batch_in_order(w, idxs2);
            assert(batch_cap(p, idxs2) == 0);
            assert(idxs2.take(0) =~= Seq::<usize>::empty());
            assert(idxs.take(0) =~= Seq::<usize>::empty());
            assert(as_draft_events(Seq::<usize>::empty()) =~= Seq::<Event>::empty());
            assert(p.drafted + picked(p.available, idxs, 0) =~= p.drafted);
        }
    }
}

/// The materialize system touches only the stored snapshot.
pub proof fn lemma_materialize_preserves(w: WorldV)
    requires
        wf(w),
    ensures
        wf(materialize_sys(w)),
        kinds_preserved(w, materialize_sys(w)),
        roster_preserved(w, materialize_sys(w)),
        materialize_sys(w).entities == w.entities,
        materialize_sys(w).event_queue == w.event_queue,
        materialize_sys(w).combat_log == w.combat_log,
{
}

} // verus!
