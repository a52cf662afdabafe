//! The rolling system.  In the roll phase it rolls every drafted die of the
//! active combatant: each die is copied, given a uniformly drawn face, and
//! appended to `rolled`; `drafted` is emptied and the phase moves on to
//! action selection with an empty menu.

use vstd::prelude::*;
use crate::combat_state::{CombatPhase, CombatPhaseV, CombatStateV};
use crate::components::DicePoolV;
use crate::dice::{die_text, Die};
use crate::log::log_add;
use crate::rng::gen_range_usize;
use crate::world::{active, the_name, wf, CombatantV, World, WorldV};

verus! {

/// A copy of `d` carrying the rolled face `v`.
pub open spec fn rolled_copy(d: Die, v: usize) -> Die {
    Die { color: d.color, sides: d.sides, rolled_value: Some(v) }
}

/// Each value is a legal face of the corresponding drafted die.
pub open spec fn roll_values_ok(drafted: Seq<Die>, vals: Seq<usize>) -> bool {
    &&& vals.len() == drafted.len()
    &&& forall|i: int| 0 <= i < vals.len() ==> 1 <= #[trigger] vals[i] <= drafted[i].sides
}

/// The dice the system is about to roll: the active combatant's drafted
/// dice, when the phase is the roll phase and a pool is present.
pub open spec fn drafted_of(w: WorldV) -> Seq<Die> {
    if w.combat_state.current_phase is Roll {
        match w.entities[active(w)].pool {
            Some(p) => p.drafted,
            None => Seq::empty(),
        }
    } else {
        Seq::empty()
    }
}

/// The comma-separated labels of a dice list.
pub open spec fn dice_list_text(s: Seq<Die>) -> Seq<char>
    decreases s.len(),
{
    if s.len() == 0 {
        Seq::empty()
    } else if s.len() == 1 {
        die_text(s[0])
    } else {
        dice_list_text(s.drop_last()) + ","@ + die_text(s.last())
    }
}

/// The log line of a roll, listing everything now rolled.
pub open spec fn roll_line(name: Seq<char>, rolled: Seq<Die>) -> Seq<char> {
    name + " rolled ["@ + dice_list_text(rolled) + "]"@
}

/// The whole system, for the given drawn faces `vals`.
pub open spec fn rolling_sys(w: WorldV, vals: Seq<usize>) -> WorldV {
    if !(w.combat_state.current_phase is Roll) {
        w
    } else {
        let h = active(w);
        let c = w.entities[h];
        match c.pool {
            Some(p) => {
                let newly = Seq::new(p.drafted.len(), |i: int| rolled_copy(p.drafted[i], vals[i]));
                let rolled2 = p.rolled + newly;
                let c2 = CombatantV {
                    pool: Some(
                        DicePoolV {
                            available: p.available,
                            max_draft_amount: p.max_draft_amount,
                            drafted: Seq::empty(),
                            rolled: rolled2,
                        },
                    ),
                    ..c
                };
                WorldV {
                    entities: w.entities.update(h, c2),
                    combat_state: CombatStateV {
                        current_phase: CombatPhaseV::SelectAction(Seq::empty()),
                        ..w.combat_state
                    },
                    combat_log: log_add(w.combat_log, roll_line(the_name(c), rolled2)),
                    ..w
                }
            },
            None => w,
        }
    }
}

/// The stateless rolling processor.
#[derive(Debug)]
pub struct RollingSystem;

impl RollingSystem {
    /// Runs the system on the world.  The drawn faces are whatever the
    /// random source produced: every outcome lies in `[1, sides]` of its
    /// die, and the rest of the transition is fixed by them.
    pub fn run(&self, w: &mut World)
        requires
            wf(old(w)@),
        ensures
            exists|vals: Seq<usize>|
                roll_values_ok(drafted_of(old(w)@), vals) && final (w)@ == rolling_sys(
                    old(w)@,
                    vals,
                ),
    {
        let ghost w0 = w@;
        if !matches!(w.combat_state.current_phase, CombatPhase::Roll) {
            proof {
                let vals = Seq::<usize>::empty();
                assert(roll_values_ok(drafted_of(w0), vals) && w@ == rolling_sys(w0, vals));
            }
            return ;
        }
        let h = w.combat_state.combatants[w.combat_state.current_character];
        let ghost e0 = w.entities@;
        let mut c = w.entities.remove(h);
        let ghost c0 = c@;
        proof {
            assert(c0 == w0.entities[active(w0)]);
        }
        let mut pool_opt: Option<crate::components::DicePool> = None;
        core::mem::swap(&mut pool_opt, &mut c.dice_pool);
        match pool_opt {
            Some(mut p) => {
                let ghost p0 = p@;
                let ghost vals0 = Seq::<usize>::empty();
                let mut i: usize = 0;
                let ghost mut vals = vals0;
                while i < p.drafted.len()
                    invariant
                        i <= p.drafted@.len(),
                        p.drafted@ == p0.drafted,
                        p.available@ == p0.available,
                        p.max_draft_amount == p0.max_draft_amount,
                        vals.len() == i,
                        forall|j: int| 0 <= j < i ==> 1 <= #[trigger] vals[j] <= p0.drafted[j].sides,
                        p.rolled@.len() == p0.rolled.len() + i,
                        p.rolled@.take(p0.rolled.len() as int) == p0.rolled,
                        forall|j: int|
                            0 <= j < i ==> p.rolled@[p0.rolled.len() + j] == rolled_copy(
                                #[trigger] p0.drafted[j],
                                vals[j],
                            ),
                        crate::components::all_clear(p0.drafted),
                    decreases p.drafted@.len() - i,
                {
                    let d = p.drafted[i];
                    // The random source may graze the top of its range; hold
                    // the face to the die.
                    let f = gen_range_usize(1, d.sides + 1);
                    let v = if f > d.sides {
                        d.sides
                    } else {
                        f
                    };
                    p.rolled.push(Die { color: d.color, sides: d.sides, rolled_value: Some(v) });
                    proof {
                        vals = vals.push(v);
                        assert(p.rolled@.take(p0.rolled.len() as int) =~= p0.rolled);
                    }
                    i += 1;
                }
                p.drafted.clear();
                proof {
                    assert(p.rolled@ =~= p0.rolled + Seq::new(
                        p0.drafted.len(),
                        |j: int| rolled_copy(p0.drafted[j], vals[j]),
                    ));
                }
                let ghost rolled2 = p.rolled@;
                // Build the log line "<name> rolled [<labels>]".
                let mut list = String::new();
                let mut k: usize = 0;
                while k < p.rolled.len()
                    invariant
                        k <= p.rolled@.len(),
                        p.rolled@ == rolled2,
                        list@ == dice_list_text(rolled2.take(k as int)),
                    decreases p.rolled@.len() - k,
                {
                    if k > 0 {
                        list.append(",");
                    }
                    let lbl = p.rolled[k].label();
                    list.append(lbl.as_str());
                    proof {
                        reveal_strlit(",");
                        assert(rolled2.take(k as int + 1).drop_last() =~= rolled2.take(k as int));
                        assert(list@ =~= dice_list_text(rolled2.take(k as int + 1)));
                    }
                    k += 1;
                }
                proof {
                    assert(rolled2.take(rolled2.len() as int) =~= rolled2);
                }
                let mut line = match &c.named {
                    Some(nm) => nm.name.clone(),
                    None => {
                        // The well-formedness of the world rules this arm out.
                        proof {
                            assert(false);
                        }
                        String::new()
                    },
                };
                line.append(" rolled [");
                line.append(list.as_str());
                line.append("]");
                proof {
                    reveal_strlit(" rolled [");
                    reveal_strlit("]");
                    assert(line@ =~= roll_line(the_name(c0), rolled2));
                }
                c.dice_pool = Some(p);
                let ghost cv = c@;
                w.entities.insert(h, c);
                w.combat_state.current_phase = CombatPhase::SelectAction(Vec::new());
                w.combat_log.add(line);
                proof {
                    let w2 = rolling_sys(w0, vals);
                    assert(roll_values_ok(drafted_of(w0), vals));
                    assert(cv =~~= w2.entities[active(w0)]);
                    assert(w@.entities =~= w2.entities);
                    assert(w@.combat_state.current_phase =~~= w2.combat_state.current_phase);
                    assert(w@ =~~= w2);
                }
            },
            None => {
                w.entities.insert(h, c);
                proof {
                    let vals = Seq::<usize>::empty();
                    assert(w@.entities =~= w0.entities);
                    assert(w@ =~= w0);
                    assert(roll_values_ok(drafted_of(w0), vals) && w@ == rolling_sys(w0, vals));
                }
            },
        }
    }
}

} // verus!
