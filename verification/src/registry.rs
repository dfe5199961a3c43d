//! The record store, the identifier allocator, and the creation workflow
//! that ties them to the attribute derivation.

use vstd::prelude::*;
use crate::errors::Error;
use crate::zombie::Zombie;
use crate::derivation::derivation_input;
use crate::hashing::blake2_128_of;

verus! {

/// The notification a successful creation produces, carrying the owner, the
/// allocated id and the record. Delivery is an external concern; this crate
/// only constructs the payload.
#[derive(Clone, Copy, PartialEq, Eq, Debug)]
pub enum Event {
    ZombieCreated(u64, u32, Zombie),
}

/// The storage key of one stored entry: (owner, local id).
pub open spec fn entry_key(e: (u64, u32, Zombie)) -> (u64, u32) {
    (e.0, e.1)
}

/// The map denoted by a sequence of stored entries; a later entry overwrites
/// an earlier one at the same key (last writer wins).
pub open spec fn map_of(entries: Seq<(u64, u32, Zombie)>) -> Map<(u64, u32), Seq<u8>>
    decreases entries.len(),
{
    if entries.len() == 0 {
        Map::empty()
    } else {
        map_of(entries.drop_last()).insert(entry_key(entries.last()), entries.last().2@)
    }
}

/// A key is in the denoted map exactly when some entry bears it.
proof fn lemma_map_of_contains(entries: Seq<(u64, u32, Zombie)>, k: (u64, u32))
    ensures
        map_of(entries).contains_key(k) <==> (exists|i: int|
            0 <= i < entries.len() && entry_key(#[trigger] entries[i]) == k),
    decreases entries.len(),
{
    if entries.len() > 0 {
        lemma_map_of_contains(entries.drop_last(), k);
        if entry_key(entries.last()) != k {
            if exists|i: int| 0 <= i < entries.len() && entry_key(#[trigger] entries[i]) == k {
                let i = choose|i: int|
                    0 <= i < entries.len() && entry_key(#[trigger] entries[i]) == k;
                assert(i < entries.len() - 1);
                assert(entry_key(entries.drop_last()[i]) == k);
            }
            if map_of(entries).contains_key(k) {
                let i = choose|i: int|
                    0 <= i < entries.drop_last().len() && entry_key(
                        #[trigger] entries.drop_last()[i],
                    ) == k;
                assert(entry_key(entries[i]) == k);
            }
        }
    }
}

/// When stored ids are pairwise distinct, the denoted map binds each entry's
/// key to that entry's payload.
proof fn lemma_map_of_value(entries: Seq<(u64, u32, Zombie)>, i: int)
    requires
        0 <= i < entries.len(),
        forall|p: int, q: int|
            0 <= p < q < entries.len() ==> (#[trigger] entries[p]).1 != (#[trigger] entries[q]).1,
    ensures
        map_of(entries).contains_key(entry_key(entries[i])),
        map_of(entries)[entry_key(entries[i])] == entries[i].2@,
    decreases entries.len(),
{
    if i < entries.len() - 1 {
        lemma_map_of_value(entries.drop_last(), i);
        assert(entries.drop_last()[i] == entries[i]);
        assert(entries[i].1 != entries.last().1);
    }
}

/// The record store: durable keyed storage mapping (owner, local id) to a
/// record. Its mathematical value is the map from keys to payloads.
pub struct ZombieStore {
    entries: Vec<(u64, u32, Zombie)>,
}

impl View for ZombieStore {
    type V = Map<(u64, u32), Seq<u8>>;

    closed spec fn view(&self) -> Map<(u64, u32), Seq<u8>> {
        map_of(self.entries@)
    }
}

impl ZombieStore {
    /// Well-formedness: stored local ids are pairwise distinct, so every key
    /// is bound to exactly one entry.
    pub closed spec fn wf(self) -> bool {
        forall|p: int, q: int|
            0 <= p < q < self.entries@.len() ==> (#[trigger] self.entries@[p]).1 != (
            #[trigger] self.entries@[q]).1
    }

    /// An empty store.
    pub fn new() -> (r: ZombieStore)
        ensures
            r.wf(),
            r@ == Map::<(u64, u32), Seq<u8>>::empty(),
    {
        let r = ZombieStore { entries: Vec::new() };
        proof {
            assert(r@ =~= Map::<(u64, u32), Seq<u8>>::empty());
        }
        r
    }

    /// Look a key up: the record whose payload the store's map binds at
    /// (owner, id), or `None` when the key is absent (absence is not an
    /// error).
    pub fn get(&self, owner: u64, id: u32) -> (r: Option<Zombie>)
        requires
            self.wf(),
        ensures
            match r {
                Some(z) => self@.contains_key((owner, id)) && z@ == self@[(owner, id)],
                None => !self@.contains_key((owner, id)),
            },
    {
        let n = self.entries.len();
        let mut i: usize = 0;
        while i < n
            invariant
                n == self.entries@.len(),
                i <= n,
                self.wf(),
                forall|j: int| 0 <= j < i ==> entry_key(#[trigger] self.entries@[j]) != (owner, id),
            decreases n - i,
        {
            let e = self.entries[i];
            if e.0 == owner && e.1 == id {
                proof {
                    lemma_map_of_value(self.entries@, i as int);
                }
                return Some(e.2);
            }
            i = i + 1;
        }
        proof {
            lemma_map_of_contains(self.entries@, (owner, id));
        }
        None
    }

    /// Insert a record at (owner, id). The store itself would overwrite
    /// silently; the precondition records that this core's only writer, the
    /// creation workflow, never reuses a local id.
    pub fn insert(&mut self, owner: u64, id: u32, zombie: Zombie)
        requires
            old(self).wf(),
            forall|k: (u64, u32)| old(self)@.contains_key(k) ==> k.1 != id,
        ensures
            final(self).wf(),
            final(self)@ == old(self)@.insert((owner, id), zombie@),
    {
        let ghost pre = *self;
        proof {
            assert forall|i: int| 0 <= i < pre.entries@.len() implies (
            #[trigger] pre.entries@[i]).1 != id by {
                let k = entry_key(pre.entries@[i]);
                lemma_map_of_contains(pre.entries@, k);
                assert(0 <= i < pre.entries@.len() && entry_key(pre.entries@[i]) == k);
                assert(pre@.contains_key(k));
                assert(old(self)@.contains_key(k));
            }
        }
        self.entries.push((owner, id, zombie));
        proof {
            assert(self.entries@.drop_last() =~= pre.entries@);
            assert(self.entries@.last() == (owner, id, zombie));
            assert(self@ =~= pre@.insert((owner, id), zombie@));
        }
    }
}

/// One successful allocation step: from counter value `pre`, the id handed
/// out is `pre` itself and the counter moves to `pre + 1`.
pub open spec fn alloc_step(pre: u32, id: u32, post: u32) -> bool {
    &&& pre < u32::MAX
    &&& id == pre
    &&& post == pre + 1
}

/// The registry: the record store together with the single process-wide
/// allocation counter. Its mathematical value is the store's map.
pub struct Registry {
    store: ZombieStore,
    counter: u32,
}

impl View for Registry {
    type V = Map<(u64, u32), Seq<u8>>;

    closed spec fn view(&self) -> Map<(u64, u32), Seq<u8>> {
        self.store@
    }
}

impl Registry {
    /// The current allocator counter: the next local id to be handed out.
    pub closed spec fn spec_next_id(self) -> u32 {
        self.counter
    }

    /// Well-formedness: the store is well-formed and every stored local id
    /// is strictly below the counter, so an allocated id is never reused.
    pub closed spec fn wf(self) -> bool {
        &&& self.store.wf()
        &&& forall|k: (u64, u32)| #[trigger] self.store@.contains_key(k) ==> k.1 < self.counter
    }

    /// An empty registry: no records, counter at 0.
    pub fn new() -> (r: Registry)
        ensures
            r.wf(),
            r@ == Map::<(u64, u32), Seq<u8>>::empty(),
            r.spec_next_id() == 0,
    {
        Registry { store: ZombieStore::new(), counter: 0 }
    }

    /// An empty registry whose counter starts at `next`: the state
    /// reconstituted from a persisted next-id value with no records.
    pub fn with_next_id(next: u32) -> (r: Registry)
        ensures
            r.wf(),
            r@ == Map::<(u64, u32), Seq<u8>>::empty(),
            r.spec_next_id() == next,
    {
        Registry { store: ZombieStore::new(), counter: next }
    }

    /// The current counter value: the next local id that will be allocated.
    pub fn next_id(&self) -> (r: u32)
        ensures
            r == self.spec_next_id(),
    {
        self.counter
    }

    /// Look up the record stored at (owner, id), if any.
    pub fn lookup(&self, owner: u64, id: u32) -> (r: Option<Zombie>)
        requires
            self.wf(),
        ensures
            match r {
                Some(z) => self@.contains_key((owner, id)) && z@ == self@[(owner, id)],
                None => !self@.contains_key((owner, id)),
            },
    {
        self.store.get(owner, id)
    }

    /// Allocate the next local id: return the current counter value and
    /// advance the counter by 1; fail with `ZombiesIdOverflow`, leaving all
    /// state unchanged, exactly when the counter is at the top of its range.
    pub fn get_next_zombie_id(&mut self) -> (r: Result<u32, Error>)
        ensures
            final(self)@ == old(self)@,
            old(self).wf() ==> final(self).wf(),
            match r {
                Ok(id) => alloc_step(
                    old(self).spec_next_id(),
                    id,
                    final(self).spec_next_id(),
                ),
                Err(e) => {
                    &&& e == Error::ZombiesIdOverflow
                    &&& old(self).spec_next_id() == u32::MAX
                    &&& *final(self) == *old(self)
                },
            },
    {
        let current_id = self.counter;
        if current_id == u32::MAX {
            Err(Error::ZombiesIdOverflow)
        } else {
            self.counter = current_id + 1;
            Ok(current_id)
        }
    }

    /// The creation workflow: allocate the next id, derive the payload from
    /// the environment's randomness seed, the (pre-verified) caller identity
    /// and the execution sequence index, store the record at (owner, id),
    /// and return the creation notification. On counter exhaustion the whole
    /// operation aborts with `ZombiesIdOverflow` and no state changes.
    pub fn create(&mut self, owner: u64, seed: &[u8], idx: u32) -> (r: Result<Event, Error>)
        requires
            old(self).wf(),
        ensures
            final(self).wf(),
            match r {
                Ok(ev) => ({
                    let id = old(self).spec_next_id();
                    let payload = blake2_128_of(derivation_input(seed@, owner, idx));
                    &&& old(self).spec_next_id() < u32::MAX
                    &&& ev matches Event::ZombieCreated(o, i, z) && o == owner && i == id
                        && z@ == payload
                    &&& final(self).spec_next_id() == id + 1
                    &&& final(self)@ == old(self)@.insert((owner, id), payload)
                }),
                Err(e) => {
                    &&& e == Error::ZombiesIdOverflow
                    &&& old(self).spec_next_id() == u32::MAX
                    &&& *final(self) == *old(self)
                },
            },
    {
        let zombie_id = match self.get_next_zombie_id() {
            Ok(id) => id,
            Err(e) => {
                return Err(e);
            },
        };
        let dna = crate::derivation::derive(seed, owner, idx);
        let zombie = Zombie(dna);
        self.store.insert(owner, zombie_id, zombie);
        Ok(Event::ZombieCreated(owner, zombie_id, zombie))
    }
}

/// Uniqueness of allocation: any chain of successful allocation steps hands
/// out pairwise distinct local ids that form the contiguous increasing run
/// starting at the counter's initial value.
pub proof fn lemma_allocated_ids_unique(counters: Seq<u32>, ids: Seq<u32>)
    requires
        counters.len() == ids.len() + 1,
        forall|i: int|
            0 <= i < ids.len() ==> alloc_step(counters[i], #[trigger] ids[i], counters[i + 1]),
    ensures
        forall|i: int| 0 <= i < ids.len() ==> #[trigger] ids[i] == counters[0] + i,
        forall|i: int, j: int| 0 <= i < j < ids.len() ==> ids[i] != ids[j],
    decreases ids.len(),
{
    if ids.len() > 0 {
        lemma_allocated_ids_unique(counters.drop_last(), ids.drop_last());
        assert forall|i: int| 0 <= i < ids.len() implies #[trigger] ids[i] == counters[0] + i by {
            if i < ids.len() - 1 {
                assert(ids.drop_last()[i] == counters.drop_last()[0] + i);
            } else {
                assert(forall|j: int|
                    0 <= j < ids.len() - 1 ==> #[trigger] ids.drop_last()[j] == counters.drop_last()[0]
                        + j);
                if ids.len() >= 2 {
                    assert(ids.drop_last()[ids.len() - 2] == counters[0] + ids.len() - 2);
                    assert(alloc_step(counters[ids.len() - 2], ids[ids.len() - 2], counters[
                        ids.len() - 1]));
                }
                assert(alloc_step(counters[i], ids[i], counters[i + 1]));
            }
        }
    }
}

/// Monotonicity of the counter: a creation attempt never decreases it; it
/// rises by exactly 1 on success and is unchanged on failure.
pub proof fn lemma_next_id_monotonic(pre: u32, id: u32, post: u32)
    requires
        alloc_step(pre, id, post) || post == pre,
    ensures
        pre <= post,
{
}

} // verus!
