//! The game-loop driver and the session coordinator.  One driver iteration
//! runs the four phase systems in fixed order and rotates the event queue;
//! the loop repeats iterations until the materialized snapshot stops
//! changing — the quiescence criterion — or an iteration budget runs out.
//! The coordinator owns the world, feeds inbound messages into the queue,
//! drives the loop and hands the resulting snapshot back.

use vstd::prelude::*;
use vstd::seq_lib::{to_multiset_build, to_multiset_remove};
use crate::action_system::{action_sys, ActionSystem};
use crate::combat_state::{CombatPhase, CombatPhaseV, CombatState, CombatStateV};
use crate::drafting_system::{drafting_sys, DraftingSystem};
use crate::errors::EngineError;
use crate::events::{queue_rotate, Event, EventQueue, EventQueueV};
use crate::laws::{
    lemma_action_preserves, lemma_drafting_preserves, lemma_kinds_trans,
    lemma_materialize_preserves, lemma_rolling_preserves, lemma_roster_trans,
};
use crate::log::CombatLog;
use crate::materialize_system::{materialize_ok, materialize_sys, MaterializeSystem};
use crate::rolling_system::{drafted_of, roll_values_ok, rolling_sys, RollingSystem};
use crate::shared::{ClientGameState, ClientGameStateV, ClientMessage, ServerMessage};
use crate::world::{kinds_preserved, roster_preserved, wf, Combatant, World, WorldV};

verus! {

/// How many driver iterations one call of the loop may take before the
/// engine declares itself non-convergent.
pub const LOOP_BUDGET: usize = 64;

/// The world after the three mutating systems of one driver iteration.
pub open spec fn pre_materialize(w: WorldV, vals: Seq<usize>) -> WorldV {
    action_sys(rolling_sys(drafting_sys(w), vals))
}

/// The faces drawn in an iteration fit the dice that the rolling system
/// sees after drafting.
pub open spec fn step_vals_ok(w: WorldV, vals: Seq<usize>) -> bool {
    roll_values_ok(drafted_of(drafting_sys(w)), vals)
}

pub open spec fn rotate_world(w: WorldV) -> WorldV {
    WorldV { event_queue: queue_rotate(w.event_queue), ..w }
}

/// One driver iteration: drafting, rolling, action, materialize, then the
/// queue rotation.
pub open spec fn step_spec(w: WorldV, vals: Seq<usize>) -> WorldV {
    rotate_world(materialize_sys(pre_materialize(w, vals)))
}

/// The fixpoint loop, unrolled over the faces drawn in each iteration:
/// from `w`, with `prev` the snapshot the loop compares against first,
/// iterate until the new snapshot equals the previous one.  `None` covers
/// every failure: fuel out, a missing dice pool, or face sequences that do
/// not fit.
pub open spec fn run_to_fixpoint(
    w: WorldV,
    prev: ClientGameStateV,
    rolls: Seq<Seq<usize>>,
    fuel: nat,
) -> Option<WorldV>
    decreases fuel,
{
    if fuel == 0 || rolls.len() == 0 {
        None
    } else {
        let vals = rolls[0];
        if !step_vals_ok(w, vals) || !materialize_ok(pre_materialize(w, vals)) {
            None
        } else {
            let w2 = step_spec(w, vals);
            if w2.combat_state.materialized_state == prev {
                Some(w2)
            } else {
                run_to_fixpoint(
                    w2,
                    w2.combat_state.materialized_state,
                    rolls.drop_first(),
                    (fuel - 1) as nat,
                )
            }
        }
    }
}

/// A run of `n` driver iterations that never reaches a fixpoint: each
/// step's faces fit, each materialization succeeds, and every new snapshot
/// differs from the one before it.  The result is the world after the `n`
/// iterations.
pub open spec fn diverging_run(
    w: WorldV,
    prev: ClientGameStateV,
    rolls: Seq<Seq<usize>>,
    n: nat,
) -> Option<WorldV>
    decreases n,
{
    if n == 0 {
        Some(w)
    } else if rolls.len() == 0 {
        None
    } else {
        let vals = rolls[0];
        if step_vals_ok(w, vals) && materialize_ok(pre_materialize(w, vals)) && step_spec(
            w,
            vals,
        ).combat_state.materialized_state != prev {
            diverging_run(
                step_spec(w, vals),
                step_spec(w, vals).combat_state.materialized_state,
                rolls.drop_first(),
                (n - 1) as nat,
            )
        } else {
            None
        }
    }
}

/// The loop spent its whole budget on a diverging run and gave up.
pub open spec fn loop_diverged(w: WorldV, prev: ClientGameStateV, wfinal: WorldV) -> bool {
    exists|rolls: Seq<Seq<usize>>|
        #[trigger] diverging_run(w, prev, rolls, LOOP_BUDGET as nat) == Some(wfinal)
}

/// After some diverging iterations short of the budget, the next
/// iteration's materialization failed — a drafting snapshot was owed and
/// the active combatant had no pool — and the loop stopped in that
/// iteration's pre-materialization state.
pub open spec fn loop_stuck(w: WorldV, prev: ClientGameStateV, wfinal: WorldV) -> bool {
    exists|rolls: Seq<Seq<usize>>, vals: Seq<usize>|
        #![trigger step_vals_ok(diverging_run(w, prev, rolls, rolls.len())->Some_0, vals)]
        {
            let m = diverging_run(w, prev, rolls, rolls.len());
            &&& rolls.len() < LOOP_BUDGET
            &&& m is Some
            &&& step_vals_ok(m->Some_0, vals)
            &&& !materialize_ok(pre_materialize(m->Some_0, vals))
            &&& wfinal == pre_materialize(m->Some_0, vals)
        }
}

/// What each loop error attests: the budget was spent on a diverging run,
/// or an iteration's materialization failed part way in.
pub open spec fn loop_failed(
    e: EngineError,
    w: WorldV,
    prev: ClientGameStateV,
    wfinal: WorldV,
) -> bool {
    match e {
        EngineError::NonConvergent => loop_diverged(w, prev, wfinal),
        EngineError::MissingDicePool => loop_stuck(w, prev, wfinal),
    }
}

/// Extending a diverging run by one more diverging step.
proof fn lemma_diverging_run_snoc(
    w: WorldV,
    prev: ClientGameStateV,
    rolls: Seq<Seq<usize>>,
    vals: Seq<usize>,
)
    requires
        diverging_run(w, prev, rolls, rolls.len()) is Some,
        step_vals_ok(diverging_run(w, prev, rolls, rolls.len())->Some_0, vals),
        materialize_ok(
            pre_materialize(diverging_run(w, prev, rolls, rolls.len())->Some_0, vals),
        ),
        step_spec(
            diverging_run(w, prev, rolls, rolls.len())->Some_0,
            vals,
        ).combat_state.materialized_state != (if rolls.len() == 0 {
            prev
        } else {
            (diverging_run(w, prev, rolls, rolls.len())->Some_0).combat_state.materialized_state
        }),
    ensures
        diverging_run(w, prev, rolls.push(vals), (rolls.len() + 1) as nat) == Some(
            step_spec(diverging_run(w, prev, rolls, rolls.len())->Some_0, vals),
        ),
    decreases rolls.len(),
{
    let wk = diverging_run(w, prev, rolls, rolls.len())->Some_0;
    let s = rolls.push(vals);
    if rolls.len() == 0 {
        assert(wk == w);
        assert(s[0] == vals);
        assert(s.drop_first() =~= Seq::<Seq<usize>>::empty());
        assert(diverging_run(
            step_spec(w, vals),
            step_spec(w, vals).combat_state.materialized_state,
            s.drop_first(),
            0,
        ) == Some(step_spec(w, vals)));
    } else {
        let v0 = rolls[0];
        assert(step_vals_ok(w, v0) && materialize_ok(pre_materialize(w, v0)) && step_spec(
            w,
            v0,
        ).combat_state.materialized_state != prev);
        assert(s[0] == v0);
        assert(s.drop_first() =~= rolls.drop_first().push(vals));
        lemma_diverging_run_snoc(
            step_spec(w, v0),
            step_spec(w, v0).combat_state.materialized_state,
            rolls.drop_first(),
            vals,
        );
    }
}

impl World {
    /// One driver iteration.  Fails only when the materialize system does,
    /// in which case the first three systems have run and the queue has
    /// not rotated.
    pub fn step(&mut self) -> (r: Result<(), EngineError>)
        requires
            wf(old(self)@),
        ensures
            wf(final (self)@),
            kinds_preserved(old(self)@, final (self)@),
            roster_preserved(old(self)@, final (self)@),
            exists|vals: Seq<usize>|
                #[trigger] step_vals_ok(old(self)@, vals) && if materialize_ok(
                    pre_materialize(old(self)@, vals),
                ) {
                    r == Ok::<(), EngineError>(()) && final (self)@ == step_spec(
                        old(self)@,
                        vals,
                    )
                } else {
                    r == Err::<(), EngineError>(EngineError::MissingDicePool) && final (self)@
                        == pre_materialize(old(self)@, vals)
                },
    {
        let ghost w0 = self@;
        proof {
            lemma_drafting_preserves(w0);
        }
        let drafting = DraftingSystem;
        drafting.run(self);
        let ghost w1 = self@;
        let rolling = RollingSystem;
        rolling.run(self);
        let ghost vals = choose|vals: Seq<usize>|
            roll_values_ok(drafted_of(w1), vals) && self@ == rolling_sys(w1, vals);
        proof {
            lemma_rolling_preserves(w1, vals);
            lemma_action_preserves(rolling_sys(w1, vals));
            lemma_materialize_preserves(pre_materialize(w0, vals));
        }
        let action = ActionSystem;
        action.run(self);
        let ghost w3 = self@;
        let materialize = MaterializeSystem;
        let r = materialize.run(self);
        match r {
            Ok(()) => {
                self.event_queue.rotate();
                proof {
                    assert(self@ =~~= step_spec(w0, vals));
                    lemma_kinds_trans(w0, w1, rolling_sys(w1, vals));
                    lemma_kinds_trans(w0, rolling_sys(w1, vals), w3);
                    lemma_kinds_trans(w0, w3, self@);
                    lemma_roster_trans(w0, w1, rolling_sys(w1, vals));
                    lemma_roster_trans(w0, rolling_sys(w1, vals), w3);
                    lemma_roster_trans(w0, w3, self@);
                    assert(step_vals_ok(w0, vals) && materialize_ok(pre_materialize(w0, vals))
                        && self@ == step_spec(w0, vals));
                }
                Ok(())
            },
            Err(e) => {
                proof {
                    assert(self@ == pre_materialize(w0, vals));
                    lemma_kinds_trans(w0, w1, rolling_sys(w1, vals));
                    lemma_kinds_trans(w0, rolling_sys(w1, vals), self@);
                    lemma_roster_trans(w0, w1, rolling_sys(w1, vals));
                    lemma_roster_trans(w0, rolling_sys(w1, vals), self@);
                    assert(step_vals_ok(w0, vals) && !materialize_ok(
                        pre_materialize(w0, vals),
                    ));
                }
                Err(e)
            },
        }
    }
}

/// The session coordinator: the authoritative world, and the snapshot most
/// recently handed to the transport layer.
#[derive(Debug)]
pub struct Server {
    pub world: World,
    pub materialized_state: ClientGameState,
}

/// A copy of the snapshot the world currently stores.
pub fn get_materialized_state(world: &World) -> (r: ClientGameState)
    ensures
        r@ == world@.combat_state.materialized_state,
{
    world.combat_state.materialized_state.duplicate()
}

impl Server {
    /// Runs driver iterations until two consecutive materialized snapshots
    /// are equal, or the budget is spent.  On success the final world's
    /// fixpoint trace is reachable from the starting world for the faces
    /// the random source drew, and the stored snapshot agrees with the
    /// world's.  On failure the error attests what happened: the budget ran
    /// out on a diverging run, or an iteration's materialization failed.
    pub fn game_loop(&mut self) -> (r: Result<(), EngineError>)
        requires
            wf(old(self).world@),
        ensures
            wf(final (self).world@),
            kinds_preserved(old(self).world@, final (self).world@),
            roster_preserved(old(self).world@, final (self).world@),
            r is Ok ==> exists|rolls: Seq<Seq<usize>>|
                #[trigger] run_to_fixpoint(
                    old(self).world@,
                    old(self).materialized_state@,
                    rolls,
                    LOOP_BUDGET as nat,
                ) == Some(final (self).world@),
            r is Ok ==> final (self).materialized_state@
                == final (self).world@.combat_state.materialized_state,
            (r matches Err(e) ==> loop_failed(
                e,
                old(self).world@,
                old(self).materialized_state@,
                final (self).world@,
            )),
    {
        let ghost w0 = self.world@;
        let ghost p0 = self.materialized_state@;
        let ghost mut acc: Seq<Seq<usize>> = Seq::empty();
        let mut budget: usize = LOOP_BUDGET;
        loop
            invariant
                w0 == old(self).world@,
                p0 == old(self).materialized_state@,
                wf(self.world@),
                kinds_preserved(w0, self.world@),
                roster_preserved(w0, self.world@),
                budget <= LOOP_BUDGET,
                acc.len() == LOOP_BUDGET - budget,
                diverging_run(w0, p0, acc, acc.len()) == Some(self.world@),
                self.materialized_state@ == (if acc.len() == 0 {
                    p0
                } else {
                    self.world@.combat_state.materialized_state
                }),
                forall|future: Seq<Seq<usize>>|
                    #[trigger] run_to_fixpoint(w0, p0, acc + future, LOOP_BUDGET as nat)
                        == run_to_fixpoint(
                        self.world@,
                        self.materialized_state@,
                        future,
                        budget as nat,
                    ),
            decreases budget,
        {
            if budget == 0 {
                proof {
                    assert(diverging_run(w0, p0, acc, LOOP_BUDGET as nat) == Some(
                        self.world@,
                    ));
                }
                return Err(EngineError::NonConvergent);
            }
            budget = budget - 1;
            let ghost wk = self.world@;
            let ghost pk = self.materialized_state@;
            match self.world.step() {
                Ok(()) => {},
                Err(e) => {
                    proof {
                        lemma_kinds_trans(w0, wk, self.world@);
                        lemma_roster_trans(w0, wk, self.world@);
                        assert(exists|vals: Seq<usize>|
                            #[trigger] step_vals_ok(wk, vals) && !materialize_ok(
                                pre_materialize(wk, vals),
                            ) && self.world@ == pre_materialize(wk, vals));
                        let vals = choose|vals: Seq<usize>|
                            #[trigger] step_vals_ok(wk, vals) && !materialize_ok(
                                pre_materialize(wk, vals),
                            ) && self.world@ == pre_materialize(wk, vals);
                        assert(diverging_run(w0, p0, acc, acc.len()) is Some);
                        assert(step_vals_ok(diverging_run(w0, p0, acc, acc.len())->Some_0, vals));
                        assert(acc.len() < LOOP_BUDGET);
                        assert(loop_stuck(w0, p0, self.world@));
                    }
                    return Err(e);
                },
            }
            let ghost vals = choose|vals: Seq<usize>|
                step_vals_ok(wk, vals) && materialize_ok(pre_materialize(wk, vals))
                    && self.world@ == step_spec(wk, vals);
            proof {
                lemma_kinds_trans(w0, wk, self.world@);
                lemma_roster_trans(w0, wk, self.world@);
            }
            let snap = get_materialized_state(&self.world);
            let same = self.materialized_state.same_as(&snap);
            self.materialized_state = snap;
            let ghost acc_old = acc;
            proof {
                acc = acc.push(vals);
            }
            if same {
                proof {
                    let f = seq![vals];
                    assert(run_to_fixpoint(w0, p0, acc_old + f, LOOP_BUDGET as nat)
                        == run_to_fixpoint(wk, pk, f, budget as nat + 1));
                    assert(f[0] == vals);
                    assert(run_to_fixpoint(wk, pk, f, budget as nat + 1) == Some(self.world@));
                    assert(acc_old + f =~= acc);
                    assert(run_to_fixpoint(w0, p0, acc, LOOP_BUDGET as nat) == Some(
                        self.world@,
                    ));
                }
                return Ok(());
            }
            proof {
                lemma_diverging_run_snoc(w0, p0, acc_old, vals);
                assert(diverging_run(w0, p0, acc, acc.len()) == Some(self.world@));
                assert forall|future: Seq<Seq<usize>>|
                    #[trigger] run_to_fixpoint(w0, p0, acc + future, LOOP_BUDGET as nat)
                        == run_to_fixpoint(
                        self.world@,
                        self.materialized_state@,
                        future,
                        budget as nat,
                    ) by {
                    let f2 = seq![vals] + future;
                    assert(run_to_fixpoint(w0, p0, acc_old + f2, LOOP_BUDGET as nat)
                        == run_to_fixpoint(wk, pk, f2, budget as nat + 1));
                    assert(f2[0] == vals);
                    assert(f2.drop_first() =~= future);
                    assert(acc_old + f2 =~= acc + future);
                    assert(run_to_fixpoint(wk, pk, f2, budget as nat + 1) == run_to_fixpoint(
                        self.world@,
                        self.materialized_state@,
                        future,
                        budget as nat,
                    ));
                }
            }
        }
    }
}

/// A list of indices in non-increasing order.
pub open spec fn descending(s: Seq<usize>) -> bool {
    forall|i: int, j: int| 0 <= i < j < s.len() ==> s[i] >= s[j]
}

/// The draft events for a list of chosen indices, in order.
pub open spec fn as_draft_events(s: Seq<usize>) -> Seq<Event> {
    s.map_values(|n: usize| Event::DraftDie(n))
}

/// The world with more intents appended to the next event generation.
pub open spec fn with_events(w: WorldV, evs: Seq<Event>) -> WorldV {
    WorldV {
        event_queue: EventQueueV {
            events: w.event_queue.events,
            new_events: w.event_queue.new_events + evs,
        },
        ..w
    }
}

/// The world with its phase forced to the roll phase.
pub open spec fn with_roll_phase(w: WorldV) -> WorldV {
    WorldV {
        combat_state: CombatStateV { current_phase: CombatPhaseV::Roll, ..w.combat_state },
        ..w
    }
}

/// The indices a client message carries.
pub open spec fn msg_choices(msg: ClientMessage) -> Seq<usize> {
    match msg {
        ClientMessage::FinishDrafting(v) => v@,
    }
}

/// The position of a maximal element.
fn max_index(v: &Vec<usize>) -> (m: usize)
    requires
        v@.len() > 0,
    ensures
        m < v@.len(),
        forall|i: int| 0 <= i < v@.len() ==> v@[i] <= v@[m as int],
{
    let mut m: usize = 0;
    let mut i: usize = 1;
    while i < v.len()
        invariant
            m < i <= v@.len(),
            forall|j: int| 0 <= j < i ==> v@[j] <= v@[m as int],
        decreases v@.len() - i,
    {
        if v[i] > v[m] {
            m = i;
        }
        i += 1;
    }
    m
}

/// Sorts a list of indices into non-increasing order, keeping exactly the
/// same indices.
pub fn sort_desc(v: &mut Vec<usize>)
    ensures
        final (v)@.to_multiset() == old(v)@.to_multiset(),
        descending(final (v)@),
{
    broadcast use vstd::multiset::group_multiset_axioms;

    let mut out: Vec<usize> = Vec::new();
    proof {
        vstd::seq_lib::to_multiset_len(out@);
        vstd::multiset::lemma_multiset_empty_len(out@.to_multiset());
        assert(out@.to_multiset().add(v@.to_multiset()) =~= v@.to_multiset());
    }
    while v.len() > 0
        invariant
            out@.to_multiset().add(v@.to_multiset()) == old(v)@.to_multiset(),
            descending(out@),
            forall|i: int, j: int|
                0 <= i < out@.len() && 0 <= j < v@.len() ==> out@[i] >= v@[j],
        decreases v@.len(),
    {
        let ghost vpre = v@;
        let ghost outpre = out@;
        let m = max_index(v);
        let x = v.remove(m);
        out.push(x);
        proof {
            to_multiset_remove(vpre, m as int);
            to_multiset_build(outpre, x);
            assert(vpre.to_multiset().contains(x)) by {
                vstd::seq_lib::to_multiset_contains(vpre, x);
                assert(vpre[m as int] == x);
            }
            assert(out@.to_multiset().add(v@.to_multiset()) =~= outpre.to_multiset().add(
                vpre.to_multiset(),
            ));
        }
    }
    proof {
        assert(v@ =~= Seq::<usize>::empty());
        vstd::seq_lib::to_multiset_len(v@);
        vstd::multiset::lemma_multiset_empty_len(v@.to_multiset());
        assert(out@.to_multiset() =~= out@.to_multiset().add(v@.to_multiset()));
    }
    core::mem::swap(v, &mut out);
}

impl Server {
    /// A fresh session: the stock roster, driven to its first quiescence.
    /// The driver provably converges here — the drafting phase rolls no
    /// dice — so the returned session is exactly the settled world, with
    /// the player's drafting prompt as the stored snapshot.
    pub fn new() -> (s: Server)
        ensures
            wf(s.world@),
            s.world@ == crate::combatant::ready_world(),
            s.materialized_state@ == crate::combatant::initial_snapshot(),
    {
        let mut entities: Vec<Combatant> = Vec::new();
        let handles = crate::combatant::create_combatants(&mut entities);
        let combat_state = CombatState::new(handles);
        let world = World {
            entities,
            combat_state,
            event_queue: EventQueue::new(),
            combat_log: CombatLog::new(),
        };
        let initial_state = get_materialized_state(&world);
        let mut server = Server { world, materialized_state: initial_state };
        proof {
            assert(server.world@ =~~= crate::combatant::initial_world());
            assert(server.materialized_state@ =~~= crate::combatant::empty_snapshot());
            crate::combatant::lemma_initial_world_wf();
        }
        let r = server.game_loop();
        proof {
            let w0 = crate::combatant::initial_world();
            let p0 = crate::combatant::empty_snapshot();
            match r {
                Ok(()) => {
                    let rolls = choose|rolls: Seq<Seq<usize>>|
                        #[trigger] run_to_fixpoint(w0, p0, rolls, LOOP_BUDGET as nat) == Some(
                            server.world@,
                        );
                    crate::laws::lemma_initial_run(rolls, LOOP_BUDGET as nat);
                    crate::laws::lemma_initial_step();
                },
                Err(e) => {
                    // Neither failure can happen from the starting world:
                    // the second iteration always repeats the snapshot, and
                    // every reachable state materializes.
                    match e {
                        EngineError::NonConvergent => {
                            let rolls = choose|rolls: Seq<Seq<usize>>|
                                #[trigger] diverging_run(w0, p0, rolls, LOOP_BUDGET as nat)
                                    == Some(server.world@);
                            crate::laws::lemma_initial_run(rolls, LOOP_BUDGET as nat);
                            assert(false);
                        },
                        EngineError::MissingDicePool => {
                            let (rolls, vals) = choose|rolls: Seq<Seq<usize>>, vals: Seq<usize>|
                                #![trigger step_vals_ok(diverging_run(w0, p0, rolls, rolls.len())->Some_0, vals)]
                                {
                                    let m = diverging_run(w0, p0, rolls, rolls.len());
                                    &&& rolls.len() < LOOP_BUDGET
                                    &&& m is Some
                                    &&& step_vals_ok(m->Some_0, vals)
                                    &&& !materialize_ok(pre_materialize(m->Some_0, vals))
                                    &&& server.world@ == pre_materialize(m->Some_0, vals)
                                };
                            crate::laws::lemma_initial_run(rolls, rolls.len());
                            let wk = diverging_run(w0, p0, rolls, rolls.len())->Some_0;
                            crate::combatant::lemma_initial_world_wf();
                            assert(w0.combat_state.combatants[0] == 0usize);
                            assert(crate::combatant::ready_world().combat_state.combatants[0]
                                == 0usize);
                            crate::laws::lemma_idle_drafting_step(w0);
                            crate::laws::lemma_idle_drafting_step(
                                crate::combatant::ready_world(),
                            );
                            assert(vals =~= Seq::<usize>::empty());
                            assert(false);
                        },
                    }
                },
            }
        }
        server
    }

    /// Handles one inbound client message: the draft choices are queued in
    /// descending index order, the driver runs to quiescence, the phase
    /// moves to rolling, the driver runs to quiescence again, and the new
    /// snapshot is returned for broadcast.
    pub fn handle_message(&mut self, msg: ClientMessage) -> (r: Result<
        ServerMessage,
        EngineError,
    >)
        requires
            wf(old(self).world@),
        ensures
            wf(final (self).world@),
            kinds_preserved(old(self).world@, final (self).world@),
            roster_preserved(old(self).world@, final (self).world@),
            (r matches Ok(m) ==> m matches ServerMessage::NewState(s) && s@ == final (self).materialized_state@),
            r is Ok ==> exists|sorted: Seq<usize>, rolls1: Seq<Seq<usize>>, rolls2: Seq<
                Seq<usize>,
            >, mid: WorldV|
                {
                    &&& sorted.to_multiset() == msg_choices(msg).to_multiset()
                    &&& descending(sorted)
                    &&& #[trigger] run_to_fixpoint(
                        with_events(old(self).world@, as_draft_events(sorted)),
                        old(self).materialized_state@,
                        rolls1,
                        LOOP_BUDGET as nat,
                    ) == Some(mid)
                    &&& #[trigger] run_to_fixpoint(
                        with_roll_phase(mid),
                        mid.combat_state.materialized_state,
                        rolls2,
                        LOOP_BUDGET as nat,
                    ) == Some(final (self).world@)
                    &&& final (self).materialized_state@ == final (self).world@.combat_state.materialized_state
                },
            (r matches Err(e) ==> exists|sorted: Seq<usize>|
                #![trigger sorted.to_multiset()]
                {
                    &&& sorted.to_multiset() == msg_choices(msg).to_multiset()
                    &&& descending(sorted)
                    &&& ({
                        ||| loop_failed(
                            e,
                            with_events(old(self).world@, as_draft_events(sorted)),
                            old(self).materialized_state@,
                            final (self).world@,
                        )
                        ||| exists|rolls1: Seq<Seq<usize>>|
                            #![trigger run_to_fixpoint(
                                with_events(old(self).world@, as_draft_events(sorted)),
                                old(self).materialized_state@,
                                rolls1,
                                LOOP_BUDGET as nat,
                            )]
                            {
                                let m = run_to_fixpoint(
                                    with_events(old(self).world@, as_draft_events(sorted)),
                                    old(self).materialized_state@,
                                    rolls1,
                                    LOOP_BUDGET as nat,
                                );
                                &&& m is Some
                                &&& loop_failed(
                                    e,
                                    with_roll_phase(m->Some_0),
                                    (m->Some_0).combat_state.materialized_state,
                                    final (self).world@,
                                )
                            }
                    })
                }),
    {
        let ghost w0 = self.world@;
        let ghost p0 = self.materialized_state@;
        let ghost choices0 = msg_choices(msg);
        let ClientMessage::FinishDrafting(choices) = msg;
        proof {
            assert(choices@ == choices0);
        }
        // Process draft choices in descending index order so that each
        // removal leaves the earlier-chosen indices valid.
        let mut sorted_choices = choices;
        sort_desc(&mut sorted_choices);
        let ghost sorted = sorted_choices@;
        let mut i: usize = 0;
        while i < sorted_choices.len()
            invariant
                w0 == old(self).world@,
                sorted == sorted_choices@,
                wf(w0),
                i <= sorted.len(),
                self.world.entities == old(self).world.entities,
                self.world.combat_state == old(self).world.combat_state,
                self.world.combat_log == old(self).world.combat_log,
                self.materialized_state == old(self).materialized_state,
                self.world.event_queue@.events == w0.event_queue.events,
                self.world.event_queue@.new_events == w0.event_queue.new_events
                    + as_draft_events(sorted.take(i as int)),
            decreases sorted.len() - i,
        {
            self.world.event_queue.new_events.push(Event::DraftDie(sorted_choices[i]));
            proof {
                assert(self.world.event_queue@.new_events =~= w0.event_queue.new_events
                    + as_draft_events(sorted.take(i as int + 1)));
            }
            i += 1;
        }
        proof {
            assert(sorted.take(sorted.len() as int) =~= sorted);
            assert(self.world@ =~~= with_events(w0, as_draft_events(sorted)));
        }
        // Let the driver consume the new events before moving on.
        let ghost wa = self.world@;
        match self.game_loop() {
            Ok(()) => {},
            Err(e) => {
                proof {
                    assert(sorted.to_multiset() == choices0.to_multiset());
                    assert(loop_failed(e, with_events(w0, as_draft_events(sorted)), p0,
                        self.world@));
                }
                return Err(e);
            },
        }
        let ghost mid = self.world@;
        // Then transition to the roll phase and drive to quiescence again.
        self.world.combat_state.current_phase = CombatPhase::Roll;
        proof {
            assert(self.world@ =~~= with_roll_phase(mid));
            lemma_kinds_trans(w0, mid, self.world@);
            lemma_roster_trans(w0, mid, self.world@);
        }
        let ghost wb = self.world@;
        match self.game_loop() {
            Ok(()) => {},
            Err(e) => {
                proof {
                    lemma_kinds_trans(w0, wb, self.world@);
                    lemma_roster_trans(w0, wb, self.world@);
                    assert(sorted.to_multiset() == choices0.to_multiset());
                    let rolls1 = choose|rolls1: Seq<Seq<usize>>|
                        #[trigger] run_to_fixpoint(wa, p0, rolls1, LOOP_BUDGET as nat) == Some(
                            mid,
                        );
                    assert(run_to_fixpoint(
                        with_events(w0, as_draft_events(sorted)),
                        p0,
                        rolls1,
                        LOOP_BUDGET as nat,
                    ) == Some(mid));
                    assert(loop_failed(
                        e,
                        with_roll_phase(mid),
                        mid.combat_state.materialized_state,
                        self.world@,
                    ));
                }
                return Err(e);
            },
        }
        proof {
            lemma_kinds_trans(w0, wb, self.world@);
            lemma_roster_trans(w0, wb, self.world@);
        }
        let snapshot = self.materialized_state.duplicate();
        Ok(ServerMessage::NewState(snapshot))
    }
}

} // verus!
