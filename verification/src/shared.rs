//! The client-facing wire values: messages and the materialized snapshot of
//! the combat, together with verified deep equality and copying.  The
//! transport layer turns these into frames; the engine never performs I/O.

use vstd::prelude::*;
use crate::dice::Die;

verus! {

/// Message from the server to a client: the entirely new state.
#[derive(Debug)]
pub enum ServerMessage {
    NewState(ClientGameState),
}

/// Message from a client to the server.
#[derive(Debug)]
pub enum ClientMessage {
    /// The indices, into the available dice the client was shown, of the
    /// dice the player chose to draft.
    FinishDrafting(Vec<usize>),
}

/// The snapshot of the game that a client renders.
#[derive(Debug)]
pub struct ClientGameState {
    pub client_phase: ClientPhase,
    pub combatants: Vec<ClientCombatant>,
    pub combat_log: Vec<String>,
}

/// The client-visible phase.  The current materialization emits only
/// `Waiting` and `DraftDice`; the other variants are reserved.
#[derive(Debug)]
pub enum ClientPhase {
    Waiting,
    DraftDice(Vec<Die>, usize),
    SelectAction(Vec<Die>, Vec<ClientAction>),
    SelectTarget(Vec<String>),
}

/// One row of the client's combatant list.
#[derive(Debug)]
pub struct ClientCombatant {
    pub name: String,
    pub hp: usize,
}

/// An action offered to the client.
#[derive(Copy, Clone, Debug, PartialEq, Eq, Structural)]
pub enum ClientAction {
    LightAttack,
    PrepHeavyAttack,
    HeavyAttack,
    Defend,
}

#[verifier::ext_equal]
pub struct ClientCombatantV {
    pub name: Seq<char>,
    pub hp: usize,
}

impl View for ClientCombatant {
    type V = ClientCombatantV;

    open spec fn view(&self) -> ClientCombatantV {
        ClientCombatantV { name: self.name@, hp: self.hp }
    }
}

#[verifier::ext_equal]
pub enum ClientPhaseV {
    Waiting,
    DraftDice(Seq<Die>, usize),
    SelectAction(Seq<Die>, Seq<ClientAction>),
    SelectTarget(Seq<Seq<char>>),
}

impl View for ClientPhase {
    type V = ClientPhaseV;

    open spec fn view(&self) -> ClientPhaseV {
        match self {
            ClientPhase::Waiting => ClientPhaseV::Waiting,
            ClientPhase::DraftDice(dice, max) => ClientPhaseV::DraftDice(dice@, *max),
            ClientPhase::SelectAction(dice, actions) => ClientPhaseV::SelectAction(
                dice@,
                actions@,
            ),
            ClientPhase::SelectTarget(names) => ClientPhaseV::SelectTarget(
                names@.map_values(|s: String| s@),
            ),
        }
    }
}

#[verifier::ext_equal]
pub struct ClientGameStateV {
    pub client_phase: ClientPhaseV,
    pub combatants: Seq<ClientCombatantV>,
    pub combat_log: Seq<Seq<char>>,
}

impl View for ClientGameState {
    type V = ClientGameStateV;

    open spec fn view(&self) -> ClientGameStateV {
        ClientGameStateV {
            client_phase: self.client_phase@,
            combatants: self.combatants@.map_values(|c: ClientCombatant| c@),
            combat_log: self.combat_log@.map_values(|s: String| s@),
        }
    }
}

/// Equality of two dice, down to the rolled face.
pub fn die_eq(a: &Die, b: &Die) -> (r: bool)
    ensures
        r == (*a == *b),
{
    let faces_eq = match (a.rolled_value, b.rolled_value) {
        (Option::None, Option::None) => true,
        (Option::Some(x), Option::Some(y)) => x == y,
        _ => false,
    };
    faces_eq && a.color == b.color && a.sides == b.sides
}

fn dice_vec_eq(a: &Vec<Die>, b: &Vec<Die>) -> (r: bool)
    ensures
        r == (a@ == b@),
{
    if a.len() != b.len() {
        proof {
            assert(a@.len() != b@.len());
        }
        return false;
    }
    let mut i: usize = 0;
    while i < a.len()
        invariant
            i <= a.len(),
            a@.len() == b@.len(),
            forall|j: int| 0 <= j < i ==> a@[j] == b@[j],
        decreases a.len() - i,
    {
        if !die_eq(&a[i], &b[i]) {
            return false;
        }
        i += 1;
    }
    proof {
        assert(a@ =~= b@);
    }
    true
}

fn string_vec_eq(a: &Vec<String>, b: &Vec<String>) -> (r: bool)
    ensures
        r == (a@.map_values(|s: String| s@) == b@.map_values(|s: String| s@)),
{
    let ghost av = a@.map_values(|s: String| s@);
    let ghost bv = b@.map_values(|s: String| s@);
    if a.len() != b.len() {
        proof {
            assert(av.len() != bv.len());
        }
        return false;
    }
    let mut i: usize = 0;
    while i < a.len()
        invariant
            i <= a.len(),
            a@.len() == b@.len(),
            av == a@.map_values(|s: String| s@),
            bv == b@.map_values(|s: String| s@),
            forall|j: int| 0 <= j < i ==> av[j] == bv[j],
        decreases a.len() - i,
    {
        if !(a[i] == b[i]) {
            proof {
                assert(av[i as int] != bv[i as int]);
            }
            return false;
        }
        i += 1;
    }
    proof {
        assert(av =~= bv);
    }
    true
}

fn client_action_vec_eq(a: &Vec<ClientAction>, b: &Vec<ClientAction>) -> (r: bool)
    ensures
        r == (a@ == b@),
{
    if a.len() != b.len() {
        proof {
            assert(a@.len() != b@.len());
        }
        return false;
    }
    let mut i: usize = 0;
    while i < a.len()
        invariant
            i <= a.len(),
            a@.len() == b@.len(),
            forall|j: int| 0 <= j < i ==> a@[j] == b@[j],
        decreases a.len() - i,
    {
        if !(a[i] == b[i]) {
            return false;
        }
        i += 1;
    }
    proof {
        assert(a@ =~= b@);
    }
    true
}

fn client_phase_eq(a: &ClientPhase, b: &ClientPhase) -> (r: bool)
    ensures
        r == (a@ == b@),
{
    match (a, b) {
        (ClientPhase::Waiting, ClientPhase::Waiting) => true,
        (ClientPhase::DraftDice(da, ma), ClientPhase::DraftDice(db, mb)) => ma == mb
            && dice_vec_eq(da, db),
        (ClientPhase::SelectAction(da, aa), ClientPhase::SelectAction(db, ab)) => dice_vec_eq(
            da,
            db,
        ) && client_action_vec_eq(aa, ab),
        (ClientPhase::SelectTarget(na), ClientPhase::SelectTarget(nb)) => string_vec_eq(na, nb),
        _ => false,
    }
}

fn client_combatant_vec_eq(a: &Vec<ClientCombatant>, b: &Vec<ClientCombatant>) -> (r: bool)
    ensures
        r == (a@.map_values(|c: ClientCombatant| c@) == b@.map_values(|c: ClientCombatant| c@)),
{
    let ghost av = a@.map_values(|c: ClientCombatant| c@);
    let ghost bv = b@.map_values(|c: ClientCombatant| c@);
    if a.len() != b.len() {
        proof {
            assert(av.len() != bv.len());
        }
        return false;
    }
    let mut i: usize = 0;
    while i < a.len()
        invariant
            i <= a.len(),
            a@.len() == b@.len(),
            av == a@.map_values(|c: ClientCombatant| c@),
            bv == b@.map_values(|c: ClientCombatant| c@),
            forall|j: int| 0 <= j < i ==> av[j] == bv[j],
        decreases a.len() - i,
    {
        if !(a[i].name == b[i].name) || a[i].hp != b[i].hp {
            proof {
                assert(av[i as int] != bv[i as int]);
            }
            return false;
        }
        proof {
            assert(av[i as int] == bv[i as int]);
        }
        i += 1;
    }
    proof {
        assert(av =~= bv);
    }
    true
}

impl ClientGameState {
    /// An empty snapshot, used before the first materialization.
    pub fn empty() -> (r: ClientGameState)
        ensures
            r@.client_phase == ClientPhaseV::Waiting,
            r@.combatants == Seq::<ClientCombatantV>::empty(),
            r@.combat_log == Seq::<Seq<char>>::empty(),
    {
        let r = ClientGameState {
            client_phase: ClientPhase::Waiting,
            combatants: Vec::new(),
            combat_log: Vec::new(),
        };
        proof {
            assert(r@.combatants =~= Seq::<ClientCombatantV>::empty());
            assert(r@.combat_log =~= Seq::<Seq<char>>::empty());
        }
        r
    }

    /// Equality of two snapshots, down to every die, row and log line: the
    /// quiescence test of the game-loop driver.
    pub fn same_as(&self, other: &ClientGameState) -> (r: bool)
        ensures
            r == (self@ == other@),
    {
        let phases = client_phase_eq(&self.client_phase, &other.client_phase);
        let rows = client_combatant_vec_eq(&self.combatants, &other.combatants);
        let logs = string_vec_eq(&self.combat_log, &other.combat_log);
        let r = phases && rows && logs;
        proof {
            if r {
                assert(self@ =~= other@);
            }
        }
        r
    }

    /// A by-value copy of the snapshot, handed to the transport layer.
    pub fn duplicate(&self) -> (r: ClientGameState)
        ensures
            r@ == self@,
    {
        let client_phase = match &self.client_phase {
            ClientPhase::Waiting => ClientPhase::Waiting,
            ClientPhase::DraftDice(dice, max) => ClientPhase::DraftDice(copy_dice(dice), *max),
            ClientPhase::SelectAction(dice, actions) => ClientPhase::SelectAction(
                copy_dice(dice),
                copy_actions(actions),
            ),
            ClientPhase::SelectTarget(names) => ClientPhase::SelectTarget(copy_strings(names)),
        };
        let mut combatants: Vec<ClientCombatant> = Vec::new();
        let mut i: usize = 0;
        while i < self.combatants.len()
            invariant
                i <= self.combatants@.len(),
                combatants@.len() == i,
                forall|j: int| 0 <= j < i ==> #[trigger] combatants@[j]@ == self.combatants@[j]@,
            decreases self.combatants@.len() - i,
        {
            let name = self.combatants[i].name.clone();
            let row = ClientCombatant { name, hp: self.combatants[i].hp };
            combatants.push(row);
            i += 1;
        }
        let r = ClientGameState {
            client_phase,
            combatants,
            combat_log: copy_strings(&self.combat_log),
        };
        proof {
            assert(r@.combatants =~= self@.combatants);
            assert(r@ =~= self@);
        }
        r
    }
}

/// A copy of a dice list; dice are plain values.
pub fn copy_dice(v: &Vec<Die>) -> (r: Vec<Die>)
    ensures
        r@ == v@,
{
    let mut r: Vec<Die> = Vec::new();
    let mut i: usize = 0;
    while i < v.len()
        invariant
            i <= v@.len(),
            r@ =~= v@.take(i as int),
        decreases v@.len() - i,
    {
        r.push(v[i]);
        i += 1;
    }
    proof {
        assert(v@.take(v@.len() as int) =~= v@);
    }
    r
}

fn copy_actions(v: &Vec<ClientAction>) -> (r: Vec<ClientAction>)
    ensures
        r@ == v@,
{
    let mut r: Vec<ClientAction> = Vec::new();
    let mut i: usize = 0;
    while i < v.len()
        invariant
            i <= v@.len(),
            r@ =~= v@.take(i as int),
        decreases v@.len() - i,
    {
        r.push(v[i]);
        i += 1;
    }
    proof {
        assert(v@.take(v@.len() as int) =~= v@);
    }
    r
}

/// A copy of a list of strings, with the same characters in each.
pub fn copy_strings(v: &Vec<String>) -> (r: Vec<String>)
    ensures
        r@.map_values(|s: String| s@) == v@.map_values(|s: String| s@),
{
    let mut r: Vec<String> = Vec::new();
    let mut i: usize = 0;
    while i < v.len()
        invariant
            i <= v@.len(),
            r@.len() == i,
            forall|j: int| 0 <= j < i ==> #[trigger] r@[j]@ == v@[j]@,
        decreases v@.len() - i,
    {
        r.push(v[i].clone());
        i += 1;
    }
    proof {
        assert(r@.map_values(|s: String| s@) =~= v@.map_values(|s: String| s@));
    }
    r
}

} // verus!
