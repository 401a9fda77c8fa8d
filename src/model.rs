//! The mathematical model of the table: its slots as a sequence, and what each
//! operation does to that sequence.

use vstd::prelude::*;

verus! {

/// Number of slots in every table.
pub const CAPACITY: usize = 26;

/// Longest key, in characters, that a search accepts.
pub const MAX_KEY_LEN: usize = 10;

/// The model of one slot.
pub ghost enum Slot {
    Empty,
    Tombstone,
    Occupied(Seq<char>),
}

/// The slots of a freshly made table: all empty.
pub open spec fn fresh_slots() -> Seq<Slot> {
    Seq::new(CAPACITY as nat, |i: int| Slot::Empty)
}

/// A key short enough to be searched for.
pub open spec fn is_valid(k: Seq<char>) -> bool {
    k.len() <= MAX_KEY_LEN
}

/// A key whose last character is a lowercase ASCII letter, and so names a bucket.
pub open spec fn has_bucket(k: Seq<char>) -> bool {
    k.len() > 0 && 'a' <= k.last() && k.last() <= 'z'
}

/// The starting slot of a key: the position of its last letter in the alphabet.
pub open spec fn bucket(k: Seq<char>) -> int {
    k.last() as int - 'a' as int
}

/// The slot visited at step `i` of a probe that starts at `start`.
pub open spec fn probe(start: int, i: int) -> int {
    (start + i) % (CAPACITY as int)
}

/// The step at which a probe that starts at `start` visits slot `j`.
pub open spec fn offset(start: int, j: int) -> int {
    (j - start + CAPACITY as int) % (CAPACITY as int)
}

/// Whether a search for `k` stops at slot `s`.
pub open spec fn stops(s: Slot, k: Seq<char>) -> bool {
    s is Empty || s == Slot::Occupied(k)
}

/// A search for `k` that starts at `start`, from step `i` on: it passes
/// tombstones and other keys, ends at an empty slot, and gives up after
/// `CAPACITY` steps.
pub open spec fn probe_from(s: Seq<Slot>, k: Seq<char>, start: int, i: nat) -> Option<int>
    decreases CAPACITY - i,
{
    if i >= CAPACITY {
        None
    } else {
        let j = probe(start, i as int);
        match s[j] {
            Slot::Empty => None,
            Slot::Tombstone => probe_from(s, k, start, i + 1),
            Slot::Occupied(v) => if v == k {
                Some(j)
            } else {
                probe_from(s, k, start, i + 1)
            },
        }
    }
}

/// The slot where a search for `k` finds it, if any.
pub open spec fn lookup(s: Seq<Slot>, k: Seq<char>) -> Option<int> {
    if is_valid(k) && has_bucket(k) {
        probe_from(s, k, bucket(k), 0)
    } else {
        None
    }
}

/// The first slot, from step `i` of a probe that starts at `start`, that holds
/// no key.
pub open spec fn free_from(s: Seq<Slot>, start: int, i: nat) -> Option<int>
    decreases CAPACITY - i,
{
    if i >= CAPACITY {
        None
    } else if s[probe(start, i as int)] is Occupied {
        free_from(s, start, i + 1)
    } else {
        Some(probe(start, i as int))
    }
}

/// The slot that an insertion of `k` writes, if any: none where `k` has no
/// bucket or every slot on its probe holds a key.
pub open spec fn free_slot(s: Seq<Slot>, k: Seq<char>) -> Option<int> {
    if has_bucket(k) {
        free_from(s, bucket(k), 0)
    } else {
        None
    }
}

/// The slots after inserting `k`: unchanged where a search finds `k` already
/// or no slot is free, else `k` written into the first free slot.
pub open spec fn after_insert(s: Seq<Slot>, k: Seq<char>) -> Seq<Slot> {
    if lookup(s, k) is Some {
        s
    } else {
        match free_slot(s, k) {
            Some(j) => s.update(j, Slot::Occupied(k)),
            None => s,
        }
    }
}

/// The slots after deleting `k`: the slot where a search finds it becomes a
/// tombstone.
pub open spec fn after_delete(s: Seq<Slot>, k: Seq<char>) -> Seq<Slot> {
    match lookup(s, k) {
        Some(j) => s.update(j, Slot::Tombstone),
        None => s,
    }
}

/// The keys held by occupied slots, in slot order.
pub open spec fn occupied_keys(s: Seq<Slot>) -> Seq<Seq<char>>
    decreases s.len(),
{
    if s.len() == 0 {
        Seq::empty()
    } else {
        let rest = occupied_keys(s.drop_last());
        match s.last() {
            Slot::Occupied(k) => rest.push(k),
            _ => rest,
        }
    }
}

/// The set of keys held by occupied slots.
pub open spec fn stored_keys(s: Seq<Slot>) -> Set<Seq<char>> {
    Set::new(|k: Seq<char>| exists|j: int| 0 <= j < s.len() && s[j] == Slot::Occupied(k))
}

/// Every slot that holds a key lies on that key's probe, with no empty slot
/// before it on the way.
pub open spec fn reachable(s: Seq<Slot>) -> bool {
    forall|j: int|
        0 <= j < s.len() && #[trigger] s[j] is Occupied ==> {
            let k = s[j]->Occupied_0;
            &&& has_bucket(k)
            &&& forall|d: int|
                0 <= d < offset(bucket(k), j) ==> !(#[trigger] s[probe(bucket(k), d)] is Empty)
        }
}

/// No key short enough to be searched for is held by two slots.
pub open spec fn unique_keys(s: Seq<Slot>) -> bool {
    forall|i: int, j: int|
        0 <= i < s.len() && 0 <= j < s.len() && #[trigger] s[i] is Occupied && #[trigger] s[j]
            == s[i] && is_valid(s[i]->Occupied_0) ==> i == j
}

/// The invariant of a table's slots.
pub open spec fn slots_wf(s: Seq<Slot>) -> bool {
    &&& s.len() == CAPACITY
    &&& reachable(s)
    &&& unique_keys(s)
}

} // verus!
