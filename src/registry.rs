use vstd::prelude::*;

use std::collections::HashMap;

verus! {

broadcast use vstd::std_specs::hash::group_hash_axioms;

/// Most games the registry tracks at once; a change to one more game clears it.
pub const REGISTRY_CAPACITY: usize = 100000;

/// What a registry holds: the last change time of each tracked game, and the
/// logical clock, which advances by one on every recorded change.
pub struct RegistryState {
    pub entries: Map<u128, u64>,
    pub clock: nat,
}

impl RegistryState {
    /// No game is tracked beyond the capacity, and no entry is later than the clock.
    pub open spec fn wf(self) -> bool {
        &&& self.entries.dom().finite()
        &&& self.entries.len() <= REGISTRY_CAPACITY
        &&& self.clock <= u64::MAX
        &&& forall|g: u128| #[trigger] self.entries.contains_key(g) ==> self.entries[g] <= self.clock
    }

    /// The state after a change to `game`: the clock advances and the game's
    /// entry takes the new time. A change to an untracked game while the
    /// registry is full first forgets every entry.
    pub open spec fn record(self, game: u128) -> RegistryState {
        let kept = if self.entries.len() >= REGISTRY_CAPACITY && !self.entries.contains_key(game) {
            Map::empty()
        } else {
            self.entries
        };
        RegistryState { entries: kept.insert(game, (self.clock + 1) as u64), clock: self.clock + 1 }
    }

    /// The state after `k` changes to `game` in a row.
    pub open spec fn record_many(self, game: u128, k: nat) -> RegistryState
        decreases k,
    {
        if k == 0 {
            self
        } else {
            self.record_many(game, (k - 1) as nat).record(game)
        }
    }

    /// The last change time of `game`, if it is tracked.
    pub open spec fn last_changed(self, game: u128) -> Option<u64> {
        if self.entries.contains_key(game) {
            Some(self.entries[game])
        } else {
            None
        }
    }
}

/// Tracks, for each game, when it last changed. Every change advances a
/// logical clock, which also serves as the version that wakes readers.
pub struct Registry {
    entries: HashMap<u128, u64>,
    clock: u64,
}

impl View for Registry {
    type V = RegistryState;

    closed spec fn view(&self) -> RegistryState {
        RegistryState { entries: self.entries@, clock: self.clock as nat }
    }
}

impl Registry {
    #[verifier::type_invariant]
    spec fn inv(&self) -> bool {
        self@.wf()
    }

    /// An empty registry at time zero.
    pub fn new() -> (r: Registry)
        ensures
            r@.wf(),
            r@.entries == Map::<u128, u64>::empty(),
            r@.clock == 0,
    {
        Registry { entries: HashMap::new(), clock: 0 }
    }

    /// Records a change to `game_id` and returns the time given to it.
    pub fn record_change(&mut self, game_id: u128) -> (t: u64)
        requires
            old(self)@.clock < u64::MAX,
        ensures
            final(self)@.wf(),
            final(self)@ == old(self)@.record(game_id),
            t == final(self)@.clock,
    {
        proof {
            use_type_invariant(&*self);
        }
        let ghost before = self@;
        let mut entries: HashMap<u128, u64> = HashMap::new();
        std::mem::swap(&mut entries, &mut self.entries);
        let known = entries.contains_key(&game_id);
        if entries.len() >= REGISTRY_CAPACITY && !known {
            entries.clear();
        }
        let now = self.clock + 1;
        entries.insert(game_id, now);
        proof {
            assert(entries@ =~= before.record(game_id).entries);
            assert(entries@.len() <= REGISTRY_CAPACITY) by {
                if before.entries.contains_key(game_id) {
                    assert(entries@.dom() =~= before.entries.dom());
                }
            }
        }
        self.clock = now;
        self.entries = entries;
        now
    }

    /// When `game_id` last changed, if it is tracked.
    pub fn last_changed(&self, game_id: u128) -> (r: Option<u64>)
        ensures
            r == self@.last_changed(game_id),
    {
        match self.entries.get(&game_id) {
            Some(t) => Some(*t),
            None => None,
        }
    }

    /// The current time of the logical clock: the version of the registry.
    pub fn version(&self) -> (r: u64)
        ensures
            r == self@.clock,
    {
        self.clock
    }

    /// Number of tracked games.
    pub fn len(&self) -> (r: usize)
        ensures
            r == self@.entries.len(),
    {
        proof {
            use_type_invariant(self);
        }
        self.entries.len()
    }

    /// A copy of the whole mapping and clock, for readers to keep.
    pub fn snapshot(&self) -> (r: Registry)
        ensures
            r@ == self@,
            r@.wf(),
    {
        proof {
            use_type_invariant(self);
        }
        Registry { entries: self.entries.clone(), clock: self.clock }
    }
}

} // verus!
