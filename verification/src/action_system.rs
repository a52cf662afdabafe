//! The action system.  It populates the action menu when selection begins,
//! and resolves a chosen action: light attack, heavy-attack preparation and
//! discharge, or defense.  A resolved action ends the combatant's turn: the
//! phase returns to drafting and the cursor advances cyclically.

use vstd::prelude::*;
use crate::combat_state::{CombatAction, CombatPhase, CombatPhaseV, CombatStateV};
use crate::components::DicePoolV;
use crate::dice::{dec_digits, Die};
use crate::log::log_add;
use crate::world::{active, target_wf, the_name, wf, CombatantV, World, WorldV};

verus! {

/// The menu offered to a combatant, probing its capabilities in fixed
/// order: light attack; heavy-attack preparation or discharge, depending on
/// whether dice are already prepared; defense.
pub open spec fn menu_of(c: CombatantV) -> Seq<(Seq<char>, CombatAction)> {
    let s0 = Seq::<(Seq<char>, CombatAction)>::empty();
    let s1 = if c.light_attacker {
        s0.push(("Light Attack"@, CombatAction::LightAttack(None)))
    } else {
        s0
    };
    let s2 = match c.prepped_attack {
        Some(pa) => if pa.len() == 0 {
            s1.push(("Prep Heavy Atk"@, CombatAction::PrepHeavyAttack))
        } else {
            s1.push(("Heavy Attack"@, CombatAction::HeavyAttack(None)))
        },
        None => s1,
    };
    match c.prepped_defense {
        Some(_) => s2.push(("Defend"@, CombatAction::Defend)),
        None => s2,
    }
}

/// The face a die currently shows; an unrolled die contributes nothing.
pub open spec fn face_of(d: Die) -> nat {
    match d.rolled_value {
        Some(v) => v as nat,
        None => 0,
    }
}

/// The exact sum of the faces of a dice list.
pub open spec fn sum_faces(s: Seq<Die>) -> nat
    decreases s.len(),
{
    if s.len() == 0 {
        0
    } else {
        face_of(s[0]) + sum_faces(s.drop_first())
    }
}

/// The damage a dice list deals: the sum of its faces, held to the machine
/// word it is computed in.
pub open spec fn damage_total(s: Seq<Die>) -> nat {
    if sum_faces(s) <= usize::MAX {
        sum_faces(s)
    } else {
        usize::MAX as nat
    }
}

/// Damage saturates: hit points never go below zero.
pub open spec fn apply_damage(hp: usize, dmg: nat) -> usize {
    if dmg >= hp {
        0
    } else {
        (hp - dmg) as usize
    }
}

pub open spec fn hp_of(c: CombatantV) -> usize {
    match c.hp {
        Some(h) => h,
        None => 0,
    }
}

pub proof fn lemma_sum_faces_snoc(s: Seq<Die>, d: Die)
    ensures
        sum_faces(s.push(d)) == sum_faces(s) + face_of(d),
    decreases s.len(),
{
    let sp = s.push(d);
    if s.len() == 0 {
        assert(sp[0] == d);
        assert(sp.drop_first() =~= Seq::<Die>::empty());
        assert(sum_faces(sp.drop_first()) == 0);
        assert(sum_faces(sp) == face_of(d));
    } else {
        assert(sp[0] == s[0]);
        assert(sp.drop_first() =~= s.drop_first().push(d));
        lemma_sum_faces_snoc(s.drop_first(), d);
        assert(sum_faces(sp) == face_of(s[0]) + sum_faces(s.drop_first().push(d)));
    }
}

/// End of turn: back to drafting, cursor one step on, wrapping to the
/// start after the last combatant.
pub open spec fn advance(w: WorldV) -> WorldV {
    WorldV {
        combat_state: CombatStateV {
            current_phase: CombatPhaseV::Drafting,
            current_character: if w.combat_state.current_character + 1
                >= w.combat_state.combatants.len() {
                0
            } else {
                (w.combat_state.current_character + 1) as usize
            },
            ..w.combat_state
        },
        ..w
    }
}

pub open spec fn light_line(name: Seq<char>, dmg: nat, tname: Seq<char>) -> Seq<char> {
    name + " light attack did "@ + dec_digits(dmg) + " damage to "@ + tname
}

pub open spec fn heavy_line(name: Seq<char>, dmg: nat, tname: Seq<char>) -> Seq<char> {
    name + " heavy attack did "@ + dec_digits(dmg) + " damage to "@ + tname
}

pub open spec fn prep_line(name: Seq<char>) -> Seq<char> {
    name + " prepped for heavy attack"@
}

pub open spec fn defend_line(name: Seq<char>) -> Seq<char> {
    name + " prepped for defense"@
}

/// A light attack on target `t`: the faces of the attacker's rolled dice
/// are summed and subtracted, saturating, from the target's hit points.
/// Nothing happens, and the turn does not end, unless the target has
/// health and the attacker has a pool.
pub open spec fn resolve_light(w: WorldV, t: usize) -> WorldV {
    let h = active(w);
    let c = w.entities[h];
    match c.pool {
        Some(p) => {
            if t < w.entities.len() && w.entities[t as int].hp is Some {
                let tc = w.entities[t as int];
                let dmg = damage_total(p.rolled);
                let tc2 = CombatantV { hp: Some(apply_damage(hp_of(tc), dmg)), ..tc };
                advance(
                    WorldV {
                        entities: w.entities.update(t as int, tc2),
                        combat_log: log_add(
                            w.combat_log,
                            light_line(the_name(c), dmg, the_name(tc)),
                        ),
                        ..w
                    },
                )
            } else {
                w
            }
        },
        None => w,
    }
}

/// Heavy-attack preparation: the rolled dice move into the prepared attack,
/// where they persist across the owner's turns until discharged.
pub open spec fn resolve_prep(w: WorldV) -> WorldV {
    let h = active(w);
    let c = w.entities[h];
    match (c.prepped_attack, c.pool) {
        (Some(pa), Some(p)) => {
            let c2 = CombatantV {
                prepped_attack: Some(pa + p.rolled),
                pool: Some(DicePoolV { rolled: Seq::empty(), ..p }),
                ..c
            };
            advance(
                WorldV {
                    entities: w.entities.update(h, c2),
                    combat_log: log_add(w.combat_log, prep_line(the_name(c))),
                    ..w
                },
            )
        },
        _ => w,
    }
}

/// Heavy-attack discharge on target `t`: the prepared dice join the rolled
/// dice, the whole sum is dealt as damage, and the preparation empties.
pub open spec fn resolve_heavy(w: WorldV, t: usize) -> WorldV {
    let h = active(w);
    let c = w.entities[h];
    match (c.prepped_attack, c.pool) {
        (Some(pa), Some(p)) => {
            if t < w.entities.len() && w.entities[t as int].hp is Some {
                let rolled2 = p.rolled + pa;
                let dmg = damage_total(rolled2);
                let c2 = CombatantV {
                    prepped_attack: Some(Seq::empty()),
                    pool: Some(DicePoolV { rolled: rolled2, ..p }),
                    ..c
                };
                let e1 = w.entities.update(h, c2);
                let tc = e1[t as int];
                let tc2 = CombatantV { hp: Some(apply_damage(hp_of(tc), dmg)), ..tc };
                advance(
                    WorldV {
                        entities: e1.update(t as int, tc2),
                        combat_log: log_add(
                            w.combat_log,
                            heavy_line(the_name(c), dmg, the_name(w.entities[t as int])),
                        ),
                        ..w
                    },
                )
            } else {
                w
            }
        },
        _ => w,
    }
}

/// Defense: the rolled dice move into the prepared defense, whence the next
/// drafting phase of the owner recycles them.
pub open spec fn resolve_defend(w: WorldV) -> WorldV {
    let h = active(w);
    let c = w.entities[h];
    match (c.prepped_defense, c.pool) {
        (Some(def), Some(p)) => {
            let c2 = CombatantV {
                prepped_defense: Some(def + p.rolled),
                pool: Some(DicePoolV { rolled: Seq::empty(), ..p }),
                ..c
            };
            advance(
                WorldV {
                    entities: w.entities.update(h, c2),
                    combat_log: log_add(w.combat_log, defend_line(the_name(c))),
                    ..w
                },
            )
        },
        _ => w,
    }
}

/// The whole system: menu population in an empty selection phase, and
/// resolution of a chosen action with a bound target.  An action whose
/// target is absent, or whose required components are missing, changes
/// nothing and the turn stays with the same combatant.
pub open spec fn action_sys(w: WorldV) -> WorldV {
    match w.combat_state.current_phase {
        CombatPhaseV::SelectAction(actions) => if actions.len() == 0 {
            WorldV {
                combat_state: CombatStateV {
                    current_phase: CombatPhaseV::SelectAction(menu_of(w.entities[active(w)])),
                    ..w.combat_state
                },
                ..w
            }
        } else {
            w
        },
        CombatPhaseV::Action(a) => match a {
            CombatAction::LightAttack(Some(t)) => resolve_light(w, t),
            CombatAction::LightAttack(None) => w,
            CombatAction::PrepHeavyAttack => resolve_prep(w),
            CombatAction::HeavyAttack(Some(t)) => resolve_heavy(w, t),
            CombatAction::HeavyAttack(None) => w,
            CombatAction::Defend => resolve_defend(w),
        },
        _ => w,
    }
}

/// Clones the name of an entity that is known to have one.
fn name_of_entity(w: &World, h: usize) -> (r: String)
    requires
        h < w@.entities.len(),
        w@.entities[h as int].name is Some,
    ensures
        r@ == the_name(w@.entities[h as int]),
{
    match &w.entities[h].named {
        Some(nm) => nm.name.clone(),
        None => {
            // The well-formedness of the world rules this arm out.
            proof {
                assert(false);
            }
            String::new()
        },
    }
}

/// The saturating face sum of a dice list.
fn sum_rolled(v: &Vec<Die>) -> (dmg: usize)
    ensures
        dmg == damage_total(v@),
{
    let mut dmg: usize = 0;
    let mut i: usize = 0;
    while i < v.len()
        invariant
            i <= v@.len(),
            dmg == damage_total(v@.take(i as int)),
        decreases v@.len() - i,
    {
        let f = match v[i].rolled_value {
            Some(x) => x,
            None => 0,
        };
        proof {
            assert(v@.take(i as int).push(v@[i as int]) =~= v@.take(i as int + 1));
            lemma_sum_faces_snoc(v@.take(i as int), v@[i as int]);
        }
        dmg = match dmg.checked_add(f) {
            Some(s) => s,
            None => usize::MAX,
        };
        i += 1;
    }
    proof {
        assert(v@.take(v@.len() as int) =~= v@);
    }
    dmg
}

/// Appends "<kind> did <dmg> damage to <tname>" after the attacker's name.
fn attack_suffix(line: &mut String, mid: &'static str, dmg: usize, tname: &String)
    requires
        mid@ == " light attack did "@ || mid@ == " heavy attack did "@,
    ensures
        final (line)@ == old(line)@ + mid@ + dec_digits(dmg as nat) + " damage to "@ + tname@,
{
    line.append(mid);
    crate::dice::push_dec(line, dmg);
    line.append(" damage to ");
    line.append(tname.as_str());
    proof {
        reveal_strlit(" damage to ");
        assert(final (line)@ =~= old(line)@ + mid@ + dec_digits(dmg as nat) + " damage to "@
            + tname@);
    }
}

/// Ends the turn: phase back to drafting, cursor advanced with wrap-around.
fn advance_turn(w: &mut World)
    requires
        old(w)@.combat_state.current_character < old(w)@.combat_state.combatants.len(),
    ensures
        final (w)@ == advance(old(w)@),
{
    w.combat_state.current_phase = CombatPhase::Drafting;
    let len = w.combat_state.combatants.len();
    let cur = w.combat_state.current_character;
    w.combat_state.current_character = if cur + 1 >= len {
        0
    } else {
        cur + 1
    };
    proof {
        assert(w@ =~~= advance(old(w)@));
    }
}

/// The stateless action processor.
#[derive(Debug)]
pub struct ActionSystem;

impl ActionSystem {
    /// Runs the system on the world.
    pub fn run(&self, w: &mut World)
        requires
            wf(old(w)@),
        ensures
            final (w)@ == action_sys(old(w)@),
    {
        let ghost w0 = w@;
        let h = w.combat_state.combatants[w.combat_state.current_character];
        // Menu population.
        let needs_menu = match &w.combat_state.current_phase {
            CombatPhase::SelectAction(actions) => actions.len() == 0,
            _ => false,
        };
        if needs_menu {
            let mut menu: Vec<(String, CombatAction)> = Vec::new();
            let ghost c0 = w0.entities[active(w0)];
            if w.entities[h].light_attacker.is_some() {
                menu.push((String::from_str("Light Attack"), CombatAction::LightAttack(None)));
            }
            match &w.entities[h].heavy_attacker {
                Some(ha) => {
                    if ha.prepped_attack.len() == 0 {
                        menu.push(
                            (String::from_str("Prep Heavy Atk"), CombatAction::PrepHeavyAttack),
                        );
                    } else {
                        menu.push(
                            (String::from_str("Heavy Attack"), CombatAction::HeavyAttack(None)),
                        );
                    }
                },
                None => {},
            }
            if w.entities[h].defender.is_some() {
                menu.push((String::from_str("Defend"), CombatAction::Defend));
            }
            proof {
                reveal_strlit("Light Attack");
                reveal_strlit("Prep Heavy Atk");
                reveal_strlit("Heavy Attack");
                reveal_strlit("Defend");
                assert(menu@.map_values(|p: (String, CombatAction)| (p.0@, p.1)) =~~= menu_of(c0));
            }
            w.combat_state.current_phase = CombatPhase::SelectAction(menu);
            proof {
                assert(w@ =~~= action_sys(w0));
            }
            return ;
        }
        // Resolution of a chosen action.
        let act: Option<CombatAction> = match &w.combat_state.current_phase {
            CombatPhase::Action(a) => Some(*a),
            _ => None,
        };
        match act {
            Some(CombatAction::LightAttack(Some(t))) => {
                self.resolve_light_exec(w, t);
            },
            Some(CombatAction::PrepHeavyAttack) => {
                self.resolve_prep_exec(w);
            },
            Some(CombatAction::HeavyAttack(Some(t))) => {
                self.resolve_heavy_exec(w, t);
            },
            Some(CombatAction::Defend) => {
                self.resolve_defend_exec(w);
            },
            _ => {
                proof {
                    assert(w@ == action_sys(w0));
                }
            },
        }
    }

    fn resolve_light_exec(&self, w: &mut World, t: usize)
        requires
            wf(old(w)@),
            target_wf(old(w)@, Some(t)),
        ensures
            final (w)@ == resolve_light(old(w)@, t),
    {
        let ghost w0 = w@;
        let h = w.combat_state.combatants[w.combat_state.current_character];
        if w.entities[h].dice_pool.is_none() {
            return ;
        }
        if t >= w.entities.len() || w.entities[t].health.is_none() {
            return ;
        }
        let aname = name_of_entity(w, h);
        let tname = name_of_entity(w, t);
        let dmg = match &w.entities[h].dice_pool {
            Some(p) => sum_rolled(&p.rolled),
            None => {
                // The well-formedness of the world rules this arm out.
                proof {
                    assert(false);
                }
                0
            },
        };
        let ghost e0 = w.entities@;
        let mut tc = w.entities.remove(t);
        let ghost tc0 = tc@;
        let hp0 = match &tc.health {
            Some(hh) => hh.hp,
            None => {
                // The well-formedness of the world rules this arm out.
                proof {
                    assert(false);
                }
                0
            },
        };
        tc.health = Some(
            crate::components::Health {
                hp: if dmg >= hp0 {
                    0
                } else {
                    hp0 - dmg
                },
            },
        );
        let ghost tcv = tc@;
        w.entities.insert(t, tc);
        proof {
            assert(w.entities@ =~= e0.update(t as int, w.entities@[t as int]));
            assert(w@.entities =~= w0.entities.update(t as int, tcv));
        }
        let mut line = aname;
        attack_suffix(&mut line, " light attack did ", dmg, &tname);
        proof {
            reveal_strlit(" light attack did ");
            assert(line@ =~= light_line(
                the_name(w0.entities[active(w0)]),
                dmg as nat,
                the_name(w0.entities[t as int]),
            ));
        }
        w.combat_log.add(line);
        advance_turn(w);
        proof {
            assert(w@ =~~= resolve_light(w0, t));
        }
    }

    fn resolve_prep_exec(&self, w: &mut World)
        requires
            wf(old(w)@),
        ensures
            final (w)@ == resolve_prep(old(w)@),
    {
        let ghost w0 = w@;
        let h = w.combat_state.combatants[w.combat_state.current_character];
        if w.entities[h].heavy_attacker.is_none() || w.entities[h].dice_pool.is_none() {
            return ;
        }
        let aname = name_of_entity(w, h);
        let ghost e0 = w.entities@;
        let mut c = w.entities.remove(h);
        let ghost c0 = c@;
        let mut ha_opt: Option<crate::components::HeavyAttacker> = None;
        core::mem::swap(&mut ha_opt, &mut c.heavy_attacker);
        let mut pool_opt: Option<crate::components::DicePool> = None;
        core::mem::swap(&mut pool_opt, &mut c.dice_pool);
        match (ha_opt, pool_opt) {
            (Some(mut ha), Some(mut p)) => {
                ha.prepped_attack.append(&mut p.rolled);
                c.heavy_attacker = Some(ha);
                c.dice_pool = Some(p);
            },
            _ => {
                // The well-formedness of the world rules this arm out.
                proof {
                    assert(false);
                }
            },
        }
        let ghost cv = c@;
        w.entities.insert(h, c);
        proof {
            assert(w.entities@ =~= e0.update(h as int, w.entities@[h as int]));
            assert(w@.entities =~= w0.entities.update(active(w0), cv));
        }
        let mut line = aname;
        line.append(" prepped for heavy attack");
        proof {
            reveal_strlit(" prepped for heavy attack");
            assert(line@ =~= prep_line(the_name(c0)));
        }
        w.combat_log.add(line);
        advance_turn(w);
        proof {
            assert(w@ =~~= resolve_prep(w0));
        }
    }

    fn resolve_heavy_exec(&self, w: &mut World, t: usize)
        requires
            wf(old(w)@),
            target_wf(old(w)@, Some(t)),
        ensures
            final (w)@ == resolve_heavy(old(w)@, t),
    {
        let ghost w0 = w@;
        let h = w.combat_state.combatants[w.combat_state.current_character];
        if w.entities[h].heavy_attacker.is_none() || w.entities[h].dice_pool.is_none() {
            return ;
        }
        if t >= w.entities.len() || w.entities[t].health.is_none() {
            return ;
        }
        let aname = name_of_entity(w, h);
        let tname = name_of_entity(w, t);
        let ghost e0 = w.entities@;
        let mut c = w.entities.remove(h);
        let ghost c0 = c@;
        let mut ha_opt: Option<crate::components::HeavyAttacker> = None;
        core::mem::swap(&mut ha_opt, &mut c.heavy_attacker);
        let mut pool_opt: Option<crate::components::DicePool> = None;
        core::mem::swap(&mut pool_opt, &mut c.dice_pool);
        let dmg: usize = match (ha_opt, pool_opt) {
            (Some(mut ha), Some(mut p)) => {
                p.rolled.append(&mut ha.prepped_attack);
                let dmg = sum_rolled(&p.rolled);
                c.heavy_attacker = Some(ha);
                c.dice_pool = Some(p);
                dmg
            },
            _ => {
                // The well-formedness of the world rules this arm out.
                proof {
                    assert(false);
                }
                0
            },
        };
        let ghost cv = c@;
        w.entities.insert(h, c);
        proof {
            assert(w.entities@ =~= e0.update(h as int, w.entities@[h as int]));
            assert(w@.entities =~= w0.entities.update(active(w0), cv));
        }
        // Now the damage, on the store as it stands after the move.
        let ghost e1 = w@.entities;
        let mut tc = w.entities.remove(t);
        let ghost tc0 = tc@;
        let hp0 = match &tc.health {
            Some(hh) => hh.hp,
            None => {
                // The well-formedness of the world rules this arm out.
                proof {
                    assert(false);
                }
                0
            },
        };
        tc.health = Some(
            crate::components::Health {
                hp: if dmg >= hp0 {
                    0
                } else {
                    hp0 - dmg
                },
            },
        );
        let ghost tcv = tc@;
        let ghost e1vec = w.entities@;
        w.entities.insert(t, tc);
        proof {
            assert(w.entities@ =~= e1vec.insert(t as int, w.entities@[t as int]));
            assert(w@.entities =~= e1.update(t as int, tcv));
        }
        let mut line = aname;
        attack_suffix(&mut line, " heavy attack did ", dmg, &tname);
        proof {
            reveal_strlit(" heavy attack did ");
            assert(line@ =~= heavy_line(
                the_name(w0.entities[active(w0)]),
                dmg as nat,
                the_name(w0.entities[t as int]),
            ));
        }
        w.combat_log.add(line);
        advance_turn(w);
        proof {
            assert(w@ =~~= resolve_heavy(w0, t));
        }
    }

    fn resolve_defend_exec(&self, w: &mut World)
        requires
            wf(old(w)@),
        ensures
            final (w)@ == resolve_defend(old(w)@),
    {
        let ghost w0 = w@;
        let h = w.combat_state.combatants[w.combat_state.current_character];
        if w.entities[h].defender.is_none() || w.entities[h].dice_pool.is_none() {
            return ;
        }
        let aname = name_of_entity(w, h);
        let ghost e0 = w.entities@;
        let mut c = w.entities.remove(h);
        let ghost c0 = c@;
        let mut def_opt: Option<crate::components::Defender> = None;
        core::mem::swap(&mut def_opt, &mut c.defender);
        let mut pool_opt: Option<crate::components::DicePool> = None;
        core::mem::swap(&mut pool_opt, &mut c.dice_pool);
        match (def_opt, pool_opt) {
            (Some(mut def), Some(mut p)) => {
                def.prepped_defense.append(&mut p.rolled);
                c.defender = Some(def);
                c.dice_pool = Some(p);
            },
            _ => {
                // The well-formedness of the world rules this arm out.
                proof {
                    assert(false);
                }
            },
        }
        let ghost cv = c@;
        w.entities.insert(h, c);
        proof {
            assert(w.entities@ =~= e0.update(h as int, w.entities@[h as int]));
            assert(w@.entities =~= w0.entities.update(active(w0), cv));
        }
        let mut line = aname;
        line.append(" prepped for defense");
        proof {
            reveal_strlit(" prepped for defense");
            assert(line@ =~= defend_line(the_name(c0)));
        }
        w.combat_log.add(line);
        advance_turn(w);
        proof {
            assert(w@ =~~= resolve_defend(w0));
        }
    }
}

} // verus!
