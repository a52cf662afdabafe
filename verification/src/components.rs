//! Capability components that can be attached to a combatant, and their
//! mathematical views and invariants.

use vstd::prelude::*;
use vstd::multiset::Multiset;
use crate::dice::{Color, Die, die_clear, die_kind, die_rolled, die_wf};

verus! {

/// Marker for hostile combatants.
#[derive(Debug)]
pub struct Enemy;

/// The display name of a combatant.
#[derive(Debug)]
pub struct Named {
    pub name: String,
}

/// Hit points.  Damage saturates at zero; zero is an ordinary state.
#[derive(Debug)]
pub struct Health {
    pub hp: usize,
}

/// Marker: the combatant can perform a light attack.
#[derive(Debug)]
pub struct LightAttacker;

/// The combatant can prepare and discharge a heavy attack.  Prepared dice
/// persist across the owner's turns until discharged.
#[derive(Debug)]
pub struct HeavyAttacker {
    pub prepped_attack: Vec<Die>,
}

/// The combatant can defend.  Prepared defense dice return to the pool when
/// the owner's next drafting phase begins.
#[derive(Debug)]
pub struct Defender {
    pub prepped_defense: Vec<Die>,
}

/// The combatant's dice, partitioned by lifecycle stage:
/// available, then drafted, then rolled.
#[derive(Debug)]
pub struct DicePool {
    pub available: Vec<Die>,
    pub max_draft_amount: usize,
    pub drafted: Vec<Die>,
    pub rolled: Vec<Die>,
}

#[verifier::ext_equal]
pub struct DicePoolV {
    pub available: Seq<Die>,
    pub max_draft_amount: usize,
    pub drafted: Seq<Die>,
    pub rolled: Seq<Die>,
}

impl View for DicePool {
    type V = DicePoolV;

    open spec fn view(&self) -> DicePoolV {
        DicePoolV {
            available: self.available@,
            max_draft_amount: self.max_draft_amount,
            drafted: self.drafted@,
            rolled: self.rolled@,
        }
    }
}

/// Every die in the sequence is well formed and carries no rolled face.
pub open spec fn all_clear(s: Seq<Die>) -> bool {
    forall|i: int| 0 <= i < s.len() ==> die_wf(#[trigger] s[i]) && die_clear(s[i])
}

/// Every die in the sequence is well formed and carries a rolled face
/// between 1 and its side count.
pub open spec fn all_rolled(s: Seq<Die>) -> bool {
    forall|i: int| 0 <= i < s.len() ==> die_wf(#[trigger] s[i]) && die_rolled(s[i])
}

/// The pool invariant: the draft never exceeds its cap, available and
/// drafted dice are unrolled, rolled dice carry a face in range.
pub open spec fn pool_wf(p: DicePoolV) -> bool {
    &&& p.drafted.len() <= p.max_draft_amount
    &&& all_clear(p.available)
    &&& all_clear(p.drafted)
    &&& all_rolled(p.rolled)
}

/// The kinds of the dice in a sequence, in order.
pub open spec fn kind_seq(s: Seq<Die>) -> Seq<(Color, usize)> {
    s.map_values(|d: Die| die_kind(d))
}

/// The kinds of the dice in a sequence, as a multiset: the conserved
/// quantity of a pool.
pub open spec fn kind_multiset(s: Seq<Die>) -> Multiset<(Color, usize)> {
    kind_seq(s).to_multiset()
}

} // verus!
