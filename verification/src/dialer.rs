//! Hash slots and the routing table of the executors.

use crate::hash::HASH_SLOT_MAX;
use std::ops::Range;
use vstd::prelude::*;

verus! {

/// A hash slot range of the keyspace: the hashes from `start` up to, and
/// without, `end`.
#[derive(Debug, Clone, Copy, PartialEq, Eq, Structural)]
pub struct Slot {
    pub start: u16,
    pub end: u16,
}

impl Slot {
    /// The range is not empty and lies within the slot space.
    pub open spec fn wf(self) -> bool {
        self.start < self.end <= HASH_SLOT_MAX
    }

    /// The hash lies in the range.
    pub open spec fn holds(self, hash: u16) -> bool {
        self.start <= hash < self.end
    }

    /// Tells whether the hash lies in the range.
    pub fn contains(&self, hash: u16) -> (inside: bool)
        ensures
            inside == self.holds(hash),
    {
        self.start <= hash && hash < self.end
    }
}

impl From<Range<u16>> for Slot {
    fn from(value: Range<u16>) -> (slot: Slot) {
        Slot { start: value.start, end: value.end }
    }
}

impl vstd::std_specs::convert::FromSpecImpl<Range<u16>> for Slot {
    open spec fn obeys_from_spec() -> bool {
        true
    }

    open spec fn from_spec(value: Range<u16>) -> Slot {
        Slot { start: value.start, end: value.end }
    }
}

/// Size of every part but the last when the slot space is cut in `parts`.
pub open spec fn part_size(parts: nat) -> nat {
    HASH_SLOT_MAX as nat / parts
}

/// The range of part `index` when the slot space is cut in `parts`
/// contiguous parts of equal size; what is left over goes to the last.
pub open spec fn slot_of_part(parts: nat, index: nat) -> Slot {
    Slot {
        start: (index * part_size(parts)) as u16,
        end: if index + 1 == parts {
            HASH_SLOT_MAX
        } else {
            ((index + 1) * part_size(parts)) as u16
        },
    }
}

/// The slots are the cut of the slot space in as many parts as there are.
pub open spec fn is_partition(slots: Seq<Slot>) -> bool {
    &&& 0 < slots.len() <= HASH_SLOT_MAX
    &&& forall|i: int| 0 <= i < slots.len() ==> #[trigger] slots[i] == slot_of_part(slots.len(), i as nat)
}

/// The bounds of a part, as integers.
pub proof fn lemma_slot_of_part(parts: nat, index: nat)
    requires
        0 < parts <= HASH_SLOT_MAX,
        index < parts,
    ensures
        slot_of_part(parts, index).start == index * part_size(parts),
        index + 1 < parts ==> slot_of_part(parts, index).end == (index + 1) * part_size(parts),
        index + 1 == parts ==> slot_of_part(parts, index).end == HASH_SLOT_MAX,
        slot_of_part(parts, index).wf(),
        part_size(parts) >= 1,
        parts * part_size(parts) <= HASH_SLOT_MAX,
{
    let size = part_size(parts);
    assert(size >= 1 && parts * size <= 16384) by (nonlinear_arith)
        requires
            0 < parts <= 16384,
            size == 16384nat / parts,
    ;
    assert(index * size <= (index + 1) * size <= parts * size && index * size < (index + 1) * size)
        by (nonlinear_arith)
        requires
            index < parts,
            size >= 1,
    ;
}

/// Cuts the slot space in `parts` contiguous parts.
pub fn partition(parts: u16) -> (slots: Vec<Slot>)
    requires
        0 < parts <= HASH_SLOT_MAX,
    ensures
        slots@.len() == parts,
        is_partition(slots@),
{
    let size: u16 = HASH_SLOT_MAX / parts;
    let mut slots: Vec<Slot> = Vec::new();
    let mut index: u16 = 0;
    while index < parts
        invariant
            0 < parts <= HASH_SLOT_MAX,
            size == part_size(parts as nat),
            index <= parts,
            slots@.len() == index,
            forall|i: int| 0 <= i < index ==> #[trigger] slots@[i] == slot_of_part(parts as nat, i as nat),
        decreases parts - index,
    {
        proof {
            lemma_slot_of_part(parts as nat, index as nat);
        }
        let start: u16 = index * size;
        let end: u16 = if index == parts - 1 {
            HASH_SLOT_MAX
        } else {
            (index + 1) * size
        };
        slots.push(Slot { start, end });
        index = index + 1;
    }
    slots
}

/// Slot partition: the parts lie one after the other from 0 up to the end
/// of the slot space, so every hash lies in exactly one of them.
pub proof fn lemma_partition_covers(slots: Seq<Slot>, hash: u16)
    requires
        is_partition(slots),
        hash < HASH_SLOT_MAX,
    ensures
        exists|i: int| 0 <= i < slots.len() && #[trigger] slots[i].holds(hash),
        forall|i: int, j: int|
            0 <= i < slots.len() && 0 <= j < slots.len() && #[trigger] slots[i].holds(hash)
                && #[trigger] slots[j].holds(hash) ==> i == j,
{
    let parts = slots.len();
    let size = part_size(parts);
    lemma_slot_of_part(parts, 0);
    let guess = hash as int / size as int;
    let owner = if guess >= parts {
        parts - 1
    } else {
        guess
    };
    assert(guess * size <= hash < (guess + 1) * size) by (nonlinear_arith)
        requires
            size >= 1,
            guess == hash as int / size as int,
    ;
    lemma_slot_of_part(parts, owner as nat);
    if guess >= parts {
        assert(owner * size <= guess * size) by (nonlinear_arith)
            requires
                owner <= guess,
                size >= 0,
        ;
    }
    assert(slots[owner].holds(hash));
    assert forall|i: int, j: int|
        0 <= i < slots.len() && 0 <= j < slots.len() && #[trigger] slots[i].holds(hash)
            && #[trigger] slots[j].holds(hash) implies i == j by {
        lemma_slot_of_part(parts, i as nat);
        lemma_slot_of_part(parts, j as nat);
        if i < j {
            assert((i + 1) * size <= j * size) by (nonlinear_arith)
                requires
                    i + 1 <= j,
                    size >= 0,
            ;
        } else if j < i {
            assert((j + 1) * size <= i * size) by (nonlinear_arith)
                requires
                    j + 1 <= i,
                    size >= 0,
            ;
        }
    }
}

/// The first part from `from` on whose slot range holds the hash.
pub open spec fn owner_from(slots: Seq<Slot>, hash: u16, from: int) -> Option<int>
    decreases slots.len() - from,
{
    if from < 0 || from >= slots.len() {
        None
    } else if slots[from].holds(hash) {
        Some(from)
    } else {
        owner_from(slots, hash, from + 1)
    }
}

/// The part that owns the hash: the first whose slot range holds it.
pub open spec fn owner_of(slots: Seq<Slot>, hash: u16) -> Option<int> {
    owner_from(slots, hash, 0)
}

/// Where a command has to run.
#[derive(Debug, Clone, Copy, PartialEq, Eq, Structural)]
pub enum Route {
    /// On the executor that holds the connection.
    Local,
    /// On the executor of the given part.
    Remote(usize),
}

/// Where a command with the given routing hash has to run, seen from the
/// executor that owns `local`. A command without a hash runs where it is,
/// and so does one whose hash no part owns.
pub open spec fn route_of(local: Slot, slots: Seq<Slot>, hash: Option<u16>) -> Route {
    match hash {
        None => Route::Local,
        Some(hash) => if local.holds(hash) {
            Route::Local
        } else {
            match owner_of(slots, hash) {
                Some(part) => Route::Remote(part as usize),
                None => Route::Local,
            }
        },
    }
}

/// The owner of a hash is a part whose slot range holds it, and no part
/// before it does.
pub proof fn lemma_owner_from(slots: Seq<Slot>, hash: u16, from: int)
    requires
        0 <= from,
    ensures
        match owner_from(slots, hash, from) {
            Some(part) => from <= part < slots.len() && slots[part].holds(hash) && forall|j: int|
                from <= j < part ==> !(#[trigger] slots[j]).holds(hash),
            None => forall|j: int| from <= j < slots.len() ==> !(#[trigger] slots[j]).holds(hash),
        },
    decreases slots.len() - from,
{
    if from < slots.len() && !slots[from].holds(hash) {
        lemma_owner_from(slots, hash, from + 1);
    }
}

/// Routing correctness: a command that stays has no hash, or a hash in the
/// local slot range, or one that no part owns; a command that leaves has a
/// hash that the local range does not hold and the range of its target does.
pub proof fn lemma_route_is_correct(local: Slot, slots: Seq<Slot>, hash: Option<u16>)
    requires
        slots.len() <= usize::MAX,
    ensures
        match route_of(local, slots, hash) {
            Route::Local => hash matches Some(h) ==> local.holds(h) || forall|j: int|
                0 <= j < slots.len() ==> !(#[trigger] slots[j]).holds(h),
            Route::Remote(part) => hash is Some && !local.holds(hash->0) && part < slots.len()
                && slots[part as int].holds(hash->0),
        },
{
    if let Some(h) = hash {
        lemma_owner_from(slots, h, 0);
    }
}

/// In a partition of the slot space every hash has an owner, so a command
/// whose hash is not local always has a part to go to.
pub proof fn lemma_partition_routes_everything(local: Slot, slots: Seq<Slot>, hash: u16)
    requires
        is_partition(slots),
        hash < HASH_SLOT_MAX,
        !local.holds(hash),
    ensures
        route_of(local, slots, Some(hash)) is Remote,
{
    lemma_owner_from(slots, hash, 0);
    lemma_partition_covers(slots, hash);
}

/// The routing table of a server: the slot range of every part.
#[derive(Debug)]
pub struct RootDialer {
    /// The whole range of the server.
    global_slot: Slot,
    /// The slot range of every part, by index.
    inner_slots: Vec<Slot>,
}

/// The routing table as one executor sees it.
#[derive(Debug)]
pub struct Dialer {
    /// The slot range of the executor.
    local_slot: Slot,
    /// The whole range of the server.
    global_slot: Slot,
    /// The slot range of every part, by index.
    inner_slots: Vec<Slot>,
}

/// Copies a routing table.
fn copy_slots(slots: &Vec<Slot>) -> (copy: Vec<Slot>)
    ensures
        copy@ == slots@,
{
    let mut copy: Vec<Slot> = Vec::new();
    let mut i: usize = 0;
    while i < slots.len()
        invariant
            i <= slots.len(),
            copy@ == slots@.take(i as int),
        decreases slots.len() - i,
    {
        copy.push(slots[i]);
        assert(copy@ =~= slots@.take(i + 1));
        i = i + 1;
    }
    assert(slots@.take(i as int) =~= slots@);
    copy
}

impl RootDialer {
    /// The slot range of every part, by index.
    pub closed spec fn table(&self) -> Seq<Slot> {
        self.inner_slots@
    }

    /// The whole range of the server.
    pub closed spec fn whole(&self) -> Slot {
        self.global_slot
    }

    /// The routing table of a server with the given whole range and parts.
    pub fn new(global_slot: Slot, inner_slots: Vec<Slot>) -> (dialer: RootDialer)
        ensures
            dialer.table() == inner_slots@,
            dialer.whole() == global_slot,
    {
        RootDialer { global_slot, inner_slots }
    }

    /// The routing table as the executor of a part sees it. Parts beyond
    /// the last wrap around; a table without parts has no executor.
    pub fn part(&self, part: u16) -> (dialer: Option<Dialer>)
        ensures
            self.table().len() == 0 ==> dialer is None,
            self.table().len() > 0 ==> dialer is Some && dialer->0.table() == self.table()
                && dialer->0.whole() == self.whole() && dialer->0.local() == self.table()[part as int
                % self.table().len() as int],
    {
        let count = self.inner_slots.len();
        if count == 0 {
            None
        } else {
            let index = part as usize % count;
            Some(
                Dialer {
                    local_slot: self.inner_slots[index],
                    global_slot: self.global_slot,
                    inner_slots: copy_slots(&self.inner_slots),
                },
            )
        }
    }
}

impl Dialer {
    /// The slot range of every part, by index.
    pub closed spec fn table(&self) -> Seq<Slot> {
        self.inner_slots@
    }

    /// The whole range of the server.
    pub closed spec fn whole(&self) -> Slot {
        self.global_slot
    }

    /// The slot range of the executor.
    pub closed spec fn local(&self) -> Slot {
        self.local_slot
    }

    /// The routing table of the executor that owns `local_slot`.
    pub fn new(local_slot: Slot, global_slot: Slot, inner_slots: Vec<Slot>) -> (dialer: Dialer)
        ensures
            dialer.table() == inner_slots@,
            dialer.whole() == global_slot,
            dialer.local() == local_slot,
    {
        Dialer { local_slot, global_slot, inner_slots }
    }

    /// The same table as the executor of another part sees it. Parts
    /// beyond the last wrap around; in a table without parts the local
    /// range stays.
    pub fn part(&self, part: u16) -> (dialer: Dialer)
        ensures
            dialer.table() == self.table(),
            dialer.whole() == self.whole(),
            dialer.local() == if self.table().len() > 0 {
                self.table()[part as int % self.table().len() as int]
            } else {
                self.local()
            },
    {
        let count = self.inner_slots.len();
        let local_slot = if count == 0 {
            self.local_slot
        } else {
            self.inner_slots[part as usize % count]
        };
        Dialer {
            local_slot,
            global_slot: self.global_slot,
            inner_slots: copy_slots(&self.inner_slots),
        }
    }

    /// Tells whether the hash lies in the slot range of the executor.
    pub fn is_in_slot(&self, hash: u16) -> (inside: bool)
        ensures
            inside == self.local().holds(hash),
    {
        self.local_slot.contains(hash)
    }

    /// The part that owns the hash, if any does.
    pub fn slot_nb(&self, hash: u16) -> (part: Option<usize>)
        ensures
            match owner_of(self.table(), hash) {
                Some(owner) => part == Some(owner as usize),
                None => part is None,
            },
    {
        let mut i: usize = 0;
        while i < self.inner_slots.len()
            invariant
                i <= self.inner_slots@.len(),
                owner_of(self.table(), hash) == owner_from(self.table(), hash, i as int),
            decreases self.inner_slots.len() - i,
        {
            if self.inner_slots[i].contains(hash) {
                return Some(i);
            }
            i = i + 1;
        }
        None
    }

    /// Where a command with the given routing hash has to run.
    pub fn route(&self, hash: Option<u16>) -> (route: Route)
        ensures
            route == route_of(self.local(), self.table(), hash),
    {
        match hash {
            None => Route::Local,
            Some(hash) => {
                if self.is_in_slot(hash) {
                    Route::Local
                } else {
                    match self.slot_nb(hash) {
                        Some(part) => Route::Remote(part),
                        None => Route::Local,
                    }
                }
            },
        }
    }
}

} // verus!
