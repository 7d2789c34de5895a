//! Values for run-time symbols.

use vstd::prelude::*;

verus! {

/// An assignment of integers to symbols, kept as a list of pairs in which a later
/// entry for a symbol replaces an earlier one.
#[derive(Debug)]
pub struct Bindings {
    pub entries: Vec<(char, usize)>,
}

impl Bindings {
    /// The assignment that a list of pairs stands for.
    pub open spec fn map_of(entries: Seq<(char, usize)>) -> Map<char, usize>
        decreases entries.len(),
    {
        if entries.len() == 0 {
            Map::empty()
        } else {
            Self::map_of(entries.drop_last()).insert(entries.last().0, entries.last().1)
        }
    }

    /// What an assignment holds for one symbol.
    pub open spec fn lookup(env: Map<char, usize>, symbol: char) -> Option<usize> {
        if env.contains_key(symbol) {
            Some(env[symbol])
        } else {
            None
        }
    }

    /// The assignment that binds no symbol.
    pub fn new() -> (r: Bindings)
        ensures
            r@ == Map::<char, usize>::empty(),
    {
        Bindings { entries: Vec::new() }
    }

    /// Binds `symbol` to `value`, replacing what it was bound to.
    pub fn bind(&mut self, symbol: char, value: usize)
        ensures
            final(self)@ == old(self)@.insert(symbol, value),
    {
        let ghost before = self.entries@;
        self.entries.push((symbol, value));
        proof {
            assert(self.entries@.drop_last() =~= before);
        }
    }

    /// The value bound to `symbol`, if any.
    pub fn get(&self, symbol: char) -> (r: Option<usize>)
        ensures
            r == Self::lookup(self@, symbol),
    {
        let mut found: Option<usize> = None;
        let mut i: usize = 0;
        while i < self.entries.len()
            invariant
                i <= self.entries.len(),
                found == Self::lookup(Self::map_of(self.entries@.take(i as int)), symbol),
            decreases self.entries.len() - i,
        {
            proof {
                assert(self.entries@.take(i + 1).drop_last() =~= self.entries@.take(i as int));
            }
            if self.entries[i].0 == symbol {
                found = Some(self.entries[i].1);
            }
            i += 1;
        }
        proof {
            assert(self.entries@.take(i as int) =~= self.entries@);
        }
        found
    }
}

impl View for Bindings {
    type V = Map<char, usize>;

    open spec fn view(&self) -> Map<char, usize> {
        Self::map_of(self.entries@)
    }
}

} // verus!
