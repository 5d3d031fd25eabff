//! The storage shards: byte strings under byte keys, each with an optional
//! time at which it expires.

use crate::dialer::{is_partition, partition, Slot};
use crate::hash::HASH_SLOT_MAX;
use crate::text::{string_bytes, text_bytes};
use rustc_hash::FxHasher;
use std::hash::BuildHasherDefault;
use vstd::prelude::*;
use vstd::string::*;

verus! {

/// The concurrent hash map of `scc`. Nothing of its inside is known here.
#[verifier::external_type_specification]
#[verifier::external_body]
#[verifier::reject_recursive_types(K)]
#[verifier::reject_recursive_types(V)]
#[verifier::reject_recursive_types(H)]
pub struct ExConcurrentMap<K, V, H: core::hash::BuildHasher>(scc::HashMap<K, V, H>);

/// The hasher builder of std that builds a hasher by `Default`.
#[verifier::external_type_specification]
#[verifier::external_body]
#[verifier::reject_recursive_types(H)]
pub struct ExBuildHasherDefault<H>(BuildHasherDefault<H>);

/// The hasher of `rustc_hash`.
#[verifier::external_type_specification]
#[verifier::external_body]
pub struct ExFxHasher(FxHasher);

/// The map of a shard: from the bytes of a key to the bytes of its value
/// and the time at which it expires.
pub type ShardMap = scc::HashMap<Vec<u8>, (Vec<u8>, Option<u64>), BuildHasherDefault<FxHasher>>;

/// What a shard's map holds: under each key the bytes of the value and the
/// time at which it expires, if it does.
pub uninterp spec fn shard_entries(db: ShardMap) -> Map<Seq<u8>, (Seq<u8>, Option<u64>)>;

/// A map without entries.
pub open spec fn no_entries() -> Map<Seq<u8>, (Seq<u8>, Option<u64>)> {
    Map::empty()
}

/// Calls `scc::HashMap::with_capacity_and_hasher`, which makes an empty map.
#[verifier::external_body]
fn shard_map_new(capacity: usize) -> (db: ShardMap)
    ensures
        shard_entries(db) == no_entries(),
{
    scc::HashMap::with_capacity_and_hasher(capacity, BuildHasherDefault::default())
}

/// Calls `scc::HashMap::upsert`, which puts the value under the key,
/// whether the key was there or not, and hands back the value that was
/// there before.
#[verifier::external_body]
fn shard_map_upsert(
    db: &mut ShardMap,
    key: Vec<u8>,
    value: (Vec<u8>, Option<u64>),
) -> (before: Option<(Vec<u8>, Option<u64>)>)
    ensures
        shard_entries(*final(db)) == shard_entries(*old(db)).insert(key@, (value.0@, value.1)),
        before is Some == shard_entries(*old(db)).contains_key(key@),
        before matches Some(found) ==> (found.0@, found.1) == shard_entries(*old(db))[key@],
{
    db.upsert(key, value)
}

/// Calls `scc::HashMap::get` and copies the value out of the entry that it
/// finds: the value under the key, or nothing where the key is not there.
#[verifier::external_body]
fn shard_map_get(
    db: &ShardMap,
    key: &Vec<u8>,
) -> (found: Option<(Vec<u8>, Option<u64>)>)
    ensures
        found is Some == shard_entries(*db).contains_key(key@),
        found matches Some(value) ==> (value.0@, value.1) == shard_entries(*db)[key@],
{
    db.get(key).map(|entry| entry.get().clone())
}

/// Calls `scc::HashMap::remove`, which takes the key and its value out of
/// the map and tells whether the key was there.
#[verifier::external_body]
fn shard_map_remove(
    db: &mut ShardMap,
    key: &Vec<u8>,
) -> (removed: bool)
    ensures
        shard_entries(*final(db)) == shard_entries(*old(db)).remove(key@),
        removed == shard_entries(*old(db)).contains_key(key@),
{
    db.remove(key).is_some()
}

/// A stored value.
#[derive(Debug, PartialEq, Eq)]
pub struct StorageValue {
    /// The time from which the value is no longer there.
    pub expired: Option<u64>,
    pub val: Vec<u8>,
}

impl View for StorageValue {
    type V = (Seq<u8>, Option<u64>);

    open spec fn view(&self) -> (Seq<u8>, Option<u64>) {
        (self.val@, self.expired)
    }
}

/// What a write asks for beside the value.
#[derive(Debug, Default)]
pub struct SetOptions {
    /// The time from which the value is no longer there.
    pub expired: Option<u64>,
}

/// A value with this expiry is gone at the time `now`.
pub open spec fn is_expired(expired: Option<u64>, now: u64) -> bool {
    expired matches Some(at) && at <= now
}

/// What a reader finds under `key` at the time `now`.
pub open spec fn lookup_in(
    entries: Map<Seq<u8>, (Seq<u8>, Option<u64>)>,
    key: Seq<u8>,
    now: u64,
) -> Option<Seq<u8>> {
    if entries.contains_key(key) && !is_expired(entries[key].1, now) {
        Some(entries[key].0)
    } else {
        None
    }
}

/// The entries after a write.
pub open spec fn after_set(
    entries: Map<Seq<u8>, (Seq<u8>, Option<u64>)>,
    key: Seq<u8>,
    value: Seq<u8>,
    expired: Option<u64>,
) -> Map<Seq<u8>, (Seq<u8>, Option<u64>)> {
    entries.insert(key, (value, expired))
}

/// The entries after a read at the time `now`: an entry that has expired by
/// then leaves when it is read.
pub open spec fn after_get(
    entries: Map<Seq<u8>, (Seq<u8>, Option<u64>)>,
    key: Seq<u8>,
    now: u64,
) -> Map<Seq<u8>, (Seq<u8>, Option<u64>)> {
    if entries.contains_key(key) && is_expired(entries[key].1, now) {
        entries.remove(key)
    } else {
        entries
    }
}

/// Lazy expiry: a value that was written with an expiry is not found by a
/// read at or after that time, and the read takes its key out of the shard.
pub proof fn lemma_lazy_expiry(
    entries: Map<Seq<u8>, (Seq<u8>, Option<u64>)>,
    key: Seq<u8>,
    value: Seq<u8>,
    expires_at: u64,
    now: u64,
)
    requires
        now >= expires_at,
    ensures
        lookup_in(after_set(entries, key, value, Some(expires_at)), key, now) is None,
        !after_get(after_set(entries, key, value, Some(expires_at)), key, now).contains_key(key),
{
}

/// A value that was written is found by a read before it expires, and the
/// read leaves the shard as it is.
pub proof fn lemma_read_own_write(
    entries: Map<Seq<u8>, (Seq<u8>, Option<u64>)>,
    key: Seq<u8>,
    value: Seq<u8>,
    expired: Option<u64>,
    now: u64,
)
    requires
        !is_expired(expired, now),
    ensures
        lookup_in(after_set(entries, key, value, expired), key, now) == Some(value),
        after_get(after_set(entries, key, value, expired), key, now) == after_set(
            entries,
            key,
            value,
            expired,
        ),
{
}

/// Writes are idempotent and the latest write wins: writing a key twice
/// leaves what the second write alone would have left.
pub proof fn lemma_latest_write_wins(
    entries: Map<Seq<u8>, (Seq<u8>, Option<u64>)>,
    key: Seq<u8>,
    first: (Seq<u8>, Option<u64>),
    second: (Seq<u8>, Option<u64>),
)
    ensures
        after_set(after_set(entries, key, first.0, first.1), key, second.0, second.1) == after_set(
            entries,
            key,
            second.0,
            second.1,
        ),
{
    assert(after_set(after_set(entries, key, first.0, first.1), key, second.0, second.1)
        =~= after_set(entries, key, second.0, second.1));
}

/// Number of entries that a new shard has room for.
pub const INITIAL_CAPACITY: usize = 1048576;

/// The storage of one hash slot range.
pub struct StorageSegment {
    db: ShardMap,
    slot: Slot,
    count: u32,
}

impl StorageSegment {
    /// The entries of the shard, expired or not.
    pub closed spec fn entries(&self) -> Map<Seq<u8>, (Seq<u8>, Option<u64>)> {
        shard_entries(self.db)
    }

    /// The slot range that the shard owns.
    pub closed spec fn slot(&self) -> Slot {
        self.slot
    }

    /// How many writes the shard has seen, counted modulo 2^32.
    pub closed spec fn writes(&self) -> u32 {
        self.count
    }

    /// What a reader finds under `key` at the time `now`.
    pub open spec fn lookup(&self, key: Seq<u8>, now: u64) -> Option<Seq<u8>> {
        lookup_in(self.entries(), key, now)
    }

    /// Creates an empty shard for the given slot range.
    pub fn new(slot: Slot) -> (segment: StorageSegment)
        ensures
            segment.entries() == no_entries(),
            segment.slot() == slot,
            segment.writes() == 0,
    {
        StorageSegment { db: shard_map_new(INITIAL_CAPACITY), slot, count: 0 }
    }

    /// Tells whether the hash lies in the slot range of the shard.
    pub fn is_in_slot(&self, i: u16) -> (inside: bool)
        ensures
            inside == self.slot().holds(i),
    {
        self.slot.contains(i)
    }

    /// Number of writes seen so far, modulo 2^32.
    pub fn write_count(&self) -> (count: u32)
        ensures
            count == self.writes(),
    {
        self.count
    }

    /// Stores `val` under `key`; the latest write wins. The result is the
    /// value that was there before, expired or not.
    pub fn set_async(&mut self, key: String, val: Vec<u8>, opt: SetOptions) -> (r: Result<
        Option<StorageValue>,
        (String, StorageValue),
    >)
        ensures
            final(self).entries() == after_set(
                old(self).entries(),
                text_bytes(key@),
                val@,
                opt.expired,
            ),
            final(self).slot() == old(self).slot(),
            final(self).writes() == if old(self).writes() == u32::MAX {
                0u32
            } else {
                (old(self).writes() + 1) as u32
            },
            r is Ok,
            r->Ok_0 is Some == old(self).entries().contains_key(text_bytes(key@)),
            r->Ok_0 matches Some(before) ==> before@ == old(self).entries()[text_bytes(key@)],
    {
        let key_bytes = string_bytes(&key);
        self.count = self.count.wrapping_add(1);
        match shard_map_upsert(&mut self.db, key_bytes, (val, opt.expired)) {
            Some(before) => Ok(Some(StorageValue { expired: before.1, val: before.0 })),
            None => Ok(None),
        }
    }

    /// Reads the value under `key` at the time `now`. A value that has
    /// expired by then is taken out of the shard and not returned.
    pub fn get_async(&mut self, key: String, now: u64) -> (found: Option<Vec<u8>>)
        ensures
            match found {
                Some(bytes) => Some(bytes@) == old(self).lookup(text_bytes(key@), now),
                None => old(self).lookup(text_bytes(key@), now) is None,
            },
            final(self).entries() == after_get(old(self).entries(), text_bytes(key@), now),
            final(self).slot() == old(self).slot(),
            final(self).writes() == old(self).writes(),
    {
        let key_bytes = string_bytes(&key);
        match shard_map_get(&self.db, &key_bytes) {
            Some(value) => {
                let gone = match value.1 {
                    Some(at) => at <= now,
                    None => false,
                };
                if gone {
                    let _ = shard_map_remove(&mut self.db, &key_bytes);
                    None
                } else {
                    Some(value.0)
                }
            },
            None => None,
        }
    }
}

/// The shards of a server, one for each part of the slot space.
pub struct Storage {
    global_slot: Slot,
    internal_vec: Vec<(Slot, StorageSegment)>,
}

impl Storage {
    #[verifier::type_invariant]
    spec fn parts_fit(self) -> bool {
        0 < self.internal_vec@.len() <= HASH_SLOT_MAX
    }

    /// The slot ranges of the parts, by index.
    pub closed spec fn slot_table(&self) -> Seq<Slot> {
        Seq::new(self.internal_vec@.len(), |i: int| self.internal_vec@[i].0)
    }

    /// The shards of the parts, by index.
    pub closed spec fn segments(&self) -> Seq<StorageSegment> {
        Seq::new(self.internal_vec@.len(), |i: int| self.internal_vec@[i].1)
    }

    /// The whole range that the server handles.
    pub closed spec fn whole(&self) -> Slot {
        self.global_slot
    }

    /// Creates the storage of a server that handles `slot`: the slot space
    /// cut in `nb_slot` parts, with an empty shard for each.
    pub fn new(nb_slot: u16, slot: Slot) -> (storage: Storage)
        requires
            0 < nb_slot <= HASH_SLOT_MAX,
        ensures
            storage.whole() == slot,
            storage.slot_table().len() == nb_slot,
            storage.segments().len() == nb_slot,
            is_partition(storage.slot_table()),
            forall|i: int|
                0 <= i < nb_slot ==> (#[trigger] storage.segments()[i]).entries() == no_entries()
                    && storage.segments()[i].slot() == storage.slot_table()[i]
                    && storage.segments()[i].writes() == 0,
    {
        let slots = partition(nb_slot);
        let mut parts: Vec<(Slot, StorageSegment)> = Vec::new();
        let mut i: usize = 0;
        while i < slots.len()
            invariant
                i <= slots.len(),
                slots@.len() == nb_slot,
                parts@.len() == i,
                forall|j: int|
                    0 <= j < i ==> (#[trigger] parts@[j]).0 == slots@[j] && parts@[j].1.entries()
                        == no_entries() && parts@[j].1.slot() == slots@[j] && parts@[j].1.writes()
                        == 0,
            decreases slots.len() - i,
        {
            let part = slots[i];
            parts.push((part, StorageSegment::new(part)));
            i = i + 1;
        }
        let storage = Storage { global_slot: slot, internal_vec: parts };
        assert(storage.slot_table() =~= slots@);
        storage
    }

    /// The slot range of every part; the index of a range is its part.
    pub fn slots(&self) -> (slots: Vec<Slot>)
        ensures
            slots@ == self.slot_table(),
    {
        let mut slots: Vec<Slot> = Vec::new();
        let mut i: usize = 0;
        while i < self.internal_vec.len()
            invariant
                i <= self.internal_vec@.len(),
                slots@ == self.slot_table().take(i as int),
            decreases self.internal_vec.len() - i,
        {
            slots.push(self.internal_vec[i].0);
            assert(slots@ =~= self.slot_table().take(i + 1));
            i = i + 1;
        }
        assert(slots@ =~= self.slot_table());
        slots
    }

    /// The whole range that the server handles.
    pub fn global_slot(&self) -> (slot: &Slot)
        ensures
            *slot == self.whole(),
    {
        &self.global_slot
    }

    /// The slot range and the shard of a part. Parts beyond the last wrap
    /// around: part `p` stands for part `p` modulo the number of parts.
    pub fn part(&self, part: u16) -> (found: (Slot, &StorageSegment))
        ensures
            self.slot_table().len() > 0,
            found.0 == self.slot_table()[part as int % self.slot_table().len() as int],
            *found.1 == self.segments()[part as int % self.slot_table().len() as int],
    {
        proof {
            use_type_invariant(self);
        }
        let count = self.internal_vec.len();
        let index = part as usize % count;
        (self.internal_vec[index].0, &self.internal_vec[index].1)
    }

    /// Hands out the parts, each with its slot range, for the executors to own.
    pub fn into_parts(self) -> (parts: Vec<(Slot, StorageSegment)>)
        ensures
            parts@.len() == self.slot_table().len(),
            forall|i: int|
                0 <= i < parts@.len() ==> (#[trigger] parts@[i]).0 == self.slot_table()[i]
                    && parts@[i].1 == self.segments()[i],
    {
        self.internal_vec
    }
}

/// The number of parts for a machine with `cpus` cores: one part for each
/// core, at least one and no more than there are slots.
pub fn part_count(cpus: usize) -> (parts: u16)
    ensures
        0 < parts <= HASH_SLOT_MAX,
        parts == if cpus == 0 {
            1
        } else if cpus > HASH_SLOT_MAX {
            HASH_SLOT_MAX as int
        } else {
            cpus as int
        },
{
    if cpus == 0 {
        1
    } else if cpus > HASH_SLOT_MAX as usize {
        HASH_SLOT_MAX
    } else {
        cpus as u16
    }
}

} // verus!
