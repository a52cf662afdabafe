//! The combat log: a bounded FIFO of human-readable event lines.

use vstd::prelude::*;

verus! {

/// How many lines the log retains; adding beyond this evicts the oldest.
pub const MAX_LOGS: usize = 10;

#[derive(Debug)]
pub struct CombatLog {
    pub logs: Vec<String>,
}

impl View for CombatLog {
    type V = Seq<Seq<char>>;

    open spec fn view(&self) -> Seq<Seq<char>> {
        self.logs@.map_values(|s: String| s@)
    }
}

/// What one `add` does to the log lines: append, then evict the oldest line
/// if the bound is now exceeded.
pub open spec fn log_add(l: Seq<Seq<char>>, line: Seq<char>) -> Seq<Seq<char>> {
    let grown = l.push(line);
    if grown.len() > MAX_LOGS {
        grown.drop_first()
    } else {
        grown
    }
}

impl CombatLog {
    pub fn new() -> (r: CombatLog)
        ensures
            r@ == Seq::<Seq<char>>::empty(),
    {
        let r = CombatLog { logs: Vec::new() };
        proof {
            assert(r@ =~= Seq::<Seq<char>>::empty());
        }
        r
    }

    pub fn add(&mut self, s: String)
        ensures
            final (self)@ == log_add(old(self)@, s@),
    {
        self.logs.push(s);
        if self.logs.len() > MAX_LOGS {
            self.logs.remove(0);
            proof {
                assert(self@ =~= log_add(old(self)@, s@));
            }
        } else {
            proof {
                assert(self@ =~= log_add(old(self)@, s@));
            }
        }
    }
}

} // verus!
