//! The drafting system.  On entry to a drafting phase it recycles the
//! active combatant's rolled and prepared-defense dice back into the
//! available pool, cleared; then it consumes every pending `DraftDie`
//! event, moving the chosen die from `available` to `drafted` while the
//! draft cap allows and the index is in range.

use vstd::prelude::*;
use crate::combat_state::CombatPhaseV;
use crate::components::DicePoolV;
use crate::dice::{clear_all, cleared, die_text, Die};
use crate::events::Event;
use crate::log::log_add;
use crate::world::{active, order_wf, the_name, wf, CombatantV, World, WorldV};

verus! {

/// Recycling on entry to drafting: rolled dice, then prepared defense dice,
/// are appended to `available` with their faces cleared.  Prepared heavy
/// attack dice stay where they are.
pub open spec fn cleanup_combatant(c: CombatantV) -> CombatantV {
    match c.pool {
        Some(p) => {
            let avail1 = p.available + clear_all(p.rolled);
            match c.prepped_defense {
                Some(def) => CombatantV {
                    prepped_defense: Some(Seq::empty()),
                    pool: Some(
                        DicePoolV {
                            available: avail1 + clear_all(def),
                            max_draft_amount: p.max_draft_amount,
                            drafted: p.drafted,
                            rolled: Seq::empty(),
                        },
                    ),
                    ..c
                },
                None => CombatantV {
                    pool: Some(
                        DicePoolV {
                            available: avail1,
                            max_draft_amount: p.max_draft_amount,
                            drafted: p.drafted,
                            rolled: Seq::empty(),
                        },
                    ),
                    ..c
                },
            }
        },
        None => c,
    }
}

/// The cleanup step of the system: acts on the active combatant, only in
/// the drafting phase.
pub open spec fn drafting_cleanup(w: WorldV) -> WorldV {
    if w.combat_state.current_phase is Drafting {
        WorldV {
            entities: w.entities.update(active(w), cleanup_combatant(w.entities[active(w)])),
            ..w
        }
    } else {
        w
    }
}

/// The log line for one accepted draft.
pub open spec fn draft_line(name: Seq<char>, d: Die) -> Seq<char> {
    name + " drafted "@ + die_text(d)
}

/// Consumption of a single `DraftDie(n)` event: while the draft is under
/// its cap and the index is in range, the die at position `n` of
/// `available` moves to the end of `drafted` and a line is logged.  An
/// event at the cap, or with an out-of-range index, is dropped silently.
pub open spec fn draft_one(w: WorldV, n: usize) -> WorldV {
    let h = active(w);
    let c = w.entities[h];
    match c.pool {
        Some(p) => {
            if p.drafted.len() < p.max_draft_amount && n < p.available.len() {
                let d = p.available[n as int];
                let c2 = CombatantV {
                    pool: Some(
                        DicePoolV {
                            available: p.available.remove(n as int),
                            max_draft_amount: p.max_draft_amount,
                            drafted: p.drafted.push(d),
                            rolled: p.rolled,
                        },
                    ),
                    ..c
                };
                WorldV {
                    entities: w.entities.update(h, c2),
                    combat_log: log_add(w.combat_log, draft_line(the_name(c), d)),
                    ..w
                }
            } else {
                w
            }
        },
        None => w,
    }
}

/// Consumption of the current event generation, in insertion order.
pub open spec fn draft_events(w: WorldV, evs: Seq<Event>) -> WorldV
    decreases evs.len(),
{
    if evs.len() == 0 {
        w
    } else {
        match evs[0] {
            Event::DraftDie(n) => draft_events(draft_one(w, n), evs.drop_first()),
        }
    }
}

/// The whole system: cleanup, then event consumption.
pub open spec fn drafting_sys(w: WorldV) -> WorldV {
    draft_events(drafting_cleanup(w), w.event_queue.events)
}

/// Consuming one more event at the end of the list is one more
/// `draft_one` application.
pub proof fn lemma_draft_events_snoc(w: WorldV, evs: Seq<Event>, n: usize)
    ensures
        draft_events(w, evs.push(Event::DraftDie(n))) == draft_one(draft_events(w, evs), n),
    decreases evs.len(),
{
    let s = evs.push(Event::DraftDie(n));
    if evs.len() == 0 {
        assert(s[0] == Event::DraftDie(n));
        assert(s.drop_first() =~= Seq::<Event>::empty());
        assert(draft_events(draft_one(w, n), s.drop_first()) == draft_one(w, n));
        assert(draft_events(w, s) == draft_one(w, n));
        assert(draft_events(w, evs) == w);
    } else {
        assert(s[0] == evs[0]);
        assert(s.drop_first() =~= evs.drop_first().push(Event::DraftDie(n)));
        match evs[0] {
            Event::DraftDie(m) => {
                lemma_draft_events_snoc(draft_one(w, m), evs.drop_first(), n);
                assert(draft_events(w, s) == draft_events(draft_one(w, m), s.drop_first()));
                assert(draft_events(w, evs) == draft_events(draft_one(w, m), evs.drop_first()));
            },
        }
    }
}

/// `draft_one` leaves everything but the active entity's pool and the log
/// untouched, and preserves the invariants of the world.
pub proof fn lemma_draft_one_frame(w: WorldV, n: usize)
    requires
        wf(w),
    ensures
        wf(draft_one(w, n)),
        draft_one(w, n).combat_state == w.combat_state,
        draft_one(w, n).event_queue == w.event_queue,
        draft_one(w, n).entities.len() == w.entities.len(),
        forall|i: int|
            0 <= i < w.entities.len() && i != active(w) ==> draft_one(w, n).entities[i]
                == w.entities[i],
        draft_one(w, n).entities[active(w)].name == w.entities[active(w)].name,
        draft_one(w, n).entities[active(w)].hp == w.entities[active(w)].hp,
        draft_one(w, n).entities[active(w)].light_attacker == w.entities[
            active(w)
        ].light_attacker,
        draft_one(w, n).entities[active(w)].prepped_attack == w.entities[
            active(w)
        ].prepped_attack,
        draft_one(w, n).entities[active(w)].prepped_defense == w.entities[
            active(w)
        ].prepped_defense,
        draft_one(w, n).entities[active(w)].pool is Some <==> w.entities[active(w)].pool is Some,
{
    let h = active(w);
    let c = w.entities[h];
    match c.pool {
        Some(p) => {
            if p.drafted.len() < p.max_draft_amount && n < p.available.len() {
                let w2 = draft_one(w, n);
                assert(wf(w2)) by {
                    assert(forall|i: int|
                        0 <= i < w2.entities.len() ==> crate::world::combatant_wf(
                            #[trigger] w2.entities[i],
                        ));
                }
            }
        },
        None => {},
    }
}

/// `draft_events` preserves the invariants and the same frame.
pub proof fn lemma_draft_events_frame(w: WorldV, evs: Seq<Event>)
    requires
        wf(w),
    ensures
        wf(draft_events(w, evs)),
        draft_events(w, evs).combat_state == w.combat_state,
        draft_events(w, evs).event_queue == w.event_queue,
        draft_events(w, evs).entities.len() == w.entities.len(),
    decreases evs.len(),
{
    if evs.len() > 0 {
        match evs[0] {
            Event::DraftDie(n) => {
                lemma_draft_one_frame(w, n);
                lemma_draft_events_frame(draft_one(w, n), evs.drop_first());
            },
        }
    }
}

/// The stateless drafting processor.
#[derive(Debug)]
pub struct DraftingSystem;

impl DraftingSystem {
    /// Runs the system on the world.
    pub fn run(&self, w: &mut World)
        requires
            wf(old(w)@),
        ensures
            final (w)@ == drafting_sys(old(w)@),
    {
        let ghost w0 = w@;
        // Cleanup on entry to the drafting phase.
        if matches!(w.combat_state.current_phase, crate::combat_state::CombatPhase::Drafting) {
            let h = w.combat_state.combatants[w.combat_state.current_character];
            let ghost e0 = w.entities@;
            let mut c = w.entities.remove(h);
            let ghost c0 = c@;
            proof {
                assert(c0 == w0.entities[active(w0)]);
            }
            let mut pool_opt: Option<crate::components::DicePool> = None;
            core::mem::swap(&mut pool_opt, &mut c.dice_pool);
            if let Some(mut p) = pool_opt {
                let ghost p0 = p@;
                let mut i: usize = 0;
                while i < p.rolled.len()
                    invariant
                        i <= p.rolled@.len(),
                        p.rolled@ == p0.rolled,
                        p.drafted@ == p0.drafted,
                        p.max_draft_amount == p0.max_draft_amount,
                        p.available@.len() == p0.available.len() + i,
                        p.available@.take(p0.available.len() as int) == p0.available,
                        forall|j: int|
                            0 <= j < i ==> p.available@[p0.available.len() + j] == cleared(
                                #[trigger] p0.rolled[j],
                            ),
                    decreases p.rolled@.len() - i,
                {
                    let d = p.rolled[i];
                    p.available.push(Die { color: d.color, sides: d.sides, rolled_value: None });
                    proof {
                        assert(p.available@.take(p0.available.len() as int) =~= p0.available);
                    }
                    i += 1;
                }
                p.rolled.clear();
                proof {
                    assert(p.available@ =~= p0.available + clear_all(p0.rolled));
                }
                let ghost avail1 = p.available@;
                // Recycle prepared defense dice as well.
                let mut def_opt: Option<crate::components::Defender> = None;
                core::mem::swap(&mut def_opt, &mut c.defender);
                if let Some(mut def) = def_opt {
                    let ghost def0 = def.prepped_defense@;
                    let mut i: usize = 0;
                    while i < def.prepped_defense.len()
                        invariant
                            i <= def.prepped_defense@.len(),
                            def.prepped_defense@ == def0,
                            p.rolled@ == Seq::<Die>::empty(),
                            p.drafted@ == p0.drafted,
                            p.max_draft_amount == p0.max_draft_amount,
                            p.available@.len() == avail1.len() + i,
                            p.available@.take(avail1.len() as int) == avail1,
                            forall|j: int|
                                0 <= j < i ==> p.available@[avail1.len() + j] == cleared(
                                    #[trigger] def0[j],
                                ),
                        decreases def.prepped_defense@.len() - i,
                    {
                        let d = def.prepped_defense[i];
                        p.available.push(
                            Die { color: d.color, sides: d.sides, rolled_value: None },
                        );
                        proof {
                            assert(p.available@.take(avail1.len() as int) =~= avail1);
                        }
                        i += 1;
                    }
                    def.prepped_defense.clear();
                    proof {
                        assert(p.available@ =~= avail1 + clear_all(def0));
                    }
                    c.defender = Some(def);
                }
                c.dice_pool = Some(p);
            }
            let ghost cv = c@;
            proof {
                assert(cv =~~= cleanup_combatant(c0));
            }
            w.entities.insert(h, c);
            proof {
                assert(w.entities@ =~= e0.remove(h as int).insert(h as int, w.entities@[h as int]));
                assert(w@.entities =~= w0.entities.update(active(w0), cv));
                assert(w@ =~= drafting_cleanup(w0));
            }
        }
        let ghost w1 = drafting_cleanup(w0);
        proof {
            assert(w@ =~= w1);
            assert(wf(w1)) by {
                lemma_cleanup_wf(w0);
            }
        }
        // Event consumption, in insertion order.
        let ghost evs = w0.event_queue.events;
        let mut k: usize = 0;
        while k < w.event_queue.events.len()
            invariant
                k <= evs.len(),
                w.event_queue.events@ == evs,
                w@ == draft_events(w1, evs.take(k as int)),
                wf(w1),
            decreases evs.len() - k,
        {
            proof {
                lemma_draft_events_frame(w1, evs.take(k as int));
            }
            let Event::DraftDie(n) = w.event_queue.events[k];
            let ghost wk = w@;
            let h = w.combat_state.combatants[w.combat_state.current_character];
            let mut c = w.entities.remove(h);
            let mut pool_opt: Option<crate::components::DicePool> = None;
            core::mem::swap(&mut pool_opt, &mut c.dice_pool);
            if let Some(mut p) = pool_opt {
                if p.drafted.len() < p.max_draft_amount && n < p.available.len() {
                    let d = p.available.remove(n);
                    p.drafted.push(d);
                    c.dice_pool = Some(p);
                    // Log "<name> drafted <die>".
                    let mut line = match &c.named {
                        Some(nm) => nm.name.clone(),
                        None => {
                            // The well-formedness of the world rules this arm out.
                            proof {
                                assert(false);
                            }
                            String::new()
                        },
                    };
                    line.append(" drafted ");
                    let lbl = d.label();
                    line.append(lbl.as_str());
                    proof {
                        reveal_strlit(" drafted ");
                        assert(line@ =~= draft_line(the_name(wk.entities[active(wk)]), d));
                    }
                    w.combat_log.add(line);
                } else {
                    c.dice_pool = Some(p);
                }
            }
            w.entities.insert(h, c);
            proof {
                assert(w@.entities =~= draft_one(wk, n).entities);
                assert(w@ =~= draft_one(wk, n));
                lemma_draft_events_snoc(w1, evs.take(k as int), n);
                assert(evs.take(k as int).push(Event::DraftDie(n)) =~= evs.take(k as int + 1));
            }
            k += 1;
        }
        proof {
            assert(evs.take(evs.len() as int) =~= evs);
        }
    }
}

/// Cleanup preserves the invariants of the world.
pub proof fn lemma_cleanup_wf(w: WorldV)
    requires
        wf(w),
    ensures
        wf(drafting_cleanup(w)),
        drafting_cleanup(w).combat_state == w.combat_state,
        drafting_cleanup(w).event_queue == w.event_queue,
        drafting_cleanup(w).combat_log == w.combat_log,
        drafting_cleanup(w).entities.len() == w.entities.len(),
{
    if w.combat_state.current_phase is Drafting {
        let w2 = drafting_cleanup(w);
        assert(forall|i: int|
            0 <= i < w2.entities.len() ==> crate::world::combatant_wf(#[trigger] w2.entities[i]));
    }
}

} // verus!
