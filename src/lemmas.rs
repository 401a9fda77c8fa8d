//! Facts about probing that the operations and the laws rest on.

use vstd::prelude::*;
use crate::model::{
    after_delete, after_insert, bucket, free_from, free_slot, has_bucket, is_valid, lookup,
    offset, probe, probe_from, slots_wf, stops, Slot, CAPACITY,
};

verus! {

/// Stepping a probe forward by one slot.
pub proof fn lemma_probe_step(start: int, i: int)
    requires
        0 <= start < CAPACITY,
        0 <= i,
    ensures
        0 <= probe(start, i) < CAPACITY,
        probe(start, i + 1) == (probe(start, i) + 1) % (CAPACITY as int),
{
}

/// The steps of a probe visit distinct slots, and `offset` inverts `probe`.
pub proof fn lemma_probe_offset(start: int, d: int)
    requires
        0 <= start < CAPACITY,
        0 <= d < CAPACITY,
    ensures
        offset(start, probe(start, d)) == d,
        0 <= probe(start, d) < CAPACITY,
{
}

/// Where a search finds its key, that slot holds it.
pub proof fn lemma_probe_found(s: Seq<Slot>, k: Seq<char>, start: int, i: nat)
    requires
        s.len() == CAPACITY,
        0 <= start < CAPACITY,
    ensures
        probe_from(s, k, start, i) matches Some(j) ==> 0 <= j < CAPACITY && s[j] == Slot::Occupied(k),
    decreases CAPACITY - i,
{
    if i < CAPACITY {
        lemma_probe_step(start, i as int);
        lemma_probe_found(s, k, start, i + 1);
    }
}

/// A free slot found from step `i` lies at some step `d` after which it comes
/// first: every slot before it holds a key.
pub proof fn lemma_free_found(s: Seq<Slot>, start: int, i: nat) -> (d: int)
    requires
        s.len() == CAPACITY,
        0 <= start < CAPACITY,
        free_from(s, start, i) is Some,
    ensures
        i <= d < CAPACITY,
        free_from(s, start, i) == Some(probe(start, d)),
        !(s[probe(start, d)] is Occupied),
        forall|e: int| i <= e < d ==> #[trigger] s[probe(start, e)] is Occupied,
    decreases CAPACITY - i,
{
    lemma_probe_step(start, i as int);
    if s[probe(start, i as int)] is Occupied {
        lemma_free_found(s, start, i + 1)
    } else {
        i as int
    }
}

/// A search finds nothing where no slot holds its key.
pub proof fn lemma_probe_absent(s: Seq<Slot>, k: Seq<char>, start: int, i: nat)
    requires
        s.len() == CAPACITY,
        0 <= start < CAPACITY,
        forall|j: int| 0 <= j < CAPACITY ==> s[j] != Slot::Occupied(k),
    ensures
        probe_from(s, k, start, i) is None,
    decreases CAPACITY - i,
{
    if i < CAPACITY {
        lemma_probe_step(start, i as int);
        lemma_probe_absent(s, k, start, i + 1);
    }
}

/// A search finds a key that lies on its probe with no empty slot before it.
pub proof fn lemma_probe_reaches(s: Seq<Slot>, k: Seq<char>, start: int, i: nat, d: int)
    requires
        s.len() == CAPACITY,
        0 <= start < CAPACITY,
        i <= d < CAPACITY,
        s[probe(start, d)] == Slot::Occupied(k),
        forall|e: int| 0 <= e < d ==> !(#[trigger] s[probe(start, e)] is Empty),
    ensures
        probe_from(s, k, start, i) is Some,
    decreases d - i,
{
    if i < d {
        lemma_probe_reaches(s, k, start, i + 1, d);
    }
}

/// In a well-formed table a search finds every key short enough to be
/// searched for.
pub proof fn lemma_lookup_complete(s: Seq<Slot>, k: Seq<char>, j: int)
    requires
        slots_wf(s),
        0 <= j < CAPACITY,
        s[j] == Slot::Occupied(k),
        is_valid(k),
    ensures
        lookup(s, k) is Some,
{
    assert(s[j] is Occupied);
    let b = bucket(k);
    let d = offset(b, j);
    assert(probe(b, d) == j);
    lemma_probe_reaches(s, k, b, 0, d);
}

/// Overwriting a slot that a search for `k` passes by with another such slot
/// leaves the search's result unchanged.
pub proof fn lemma_probe_update_passing(s: Seq<Slot>, k: Seq<char>, start: int, i: nat, j: int, v: Slot)
    requires
        s.len() == CAPACITY,
        0 <= start < CAPACITY,
        0 <= j < CAPACITY,
        !stops(s[j], k),
        !stops(v, k),
    ensures
        probe_from(s.update(j, v), k, start, i) == probe_from(s, k, start, i),
    decreases CAPACITY - i,
{
    if i < CAPACITY {
        lemma_probe_step(start, i as int);
        lemma_probe_update_passing(s, k, start, i + 1, j, v);
    }
}

/// Writing `k` into the first free slot of its probe, where a search for it
/// found nothing, makes a search find it there.
pub proof fn lemma_probe_after_write(s: Seq<Slot>, k: Seq<char>, start: int, i: nat, d: int)
    requires
        s.len() == CAPACITY,
        0 <= start < CAPACITY,
        i <= d < CAPACITY,
        probe_from(s, k, start, i) is None,
        forall|e: int| i <= e < d ==> #[trigger] s[probe(start, e)] is Occupied,
    ensures
        probe_from(s.update(probe(start, d), Slot::Occupied(k)), k, start, i) == Some(
            probe(start, d),
        ),
    decreases d - i,
{
    let j = probe(start, d);
    lemma_probe_offset(start, d);
    lemma_probe_offset(start, i as int);
    if i < d {
        assert(s[probe(start, i as int)] is Occupied);
        lemma_probe_after_write(s, k, start, i + 1, d);
    }
}

/// Inserting a key that a search does not find, into a free slot, keeps the
/// table well-formed.
pub proof fn lemma_insert_wf(s: Seq<Slot>, k: Seq<char>)
    requires
        slots_wf(s),
        lookup(s, k) is None,
        free_slot(s, k) is Some,
    ensures
        slots_wf(after_insert(s, k)),
{
    let b = bucket(k);
    let d = lemma_free_found(s, b, 0);
    let j = probe(b, d);
    lemma_probe_offset(b, d);
    let t = s.update(j, Slot::Occupied(k));
    assert(after_insert(s, k) == t);
    assert forall|i: int| 0 <= i < CAPACITY && i != j && is_valid(k) implies s[i] != Slot::Occupied(
        k,
    ) by {
        if s[i] == Slot::Occupied(k) {
            lemma_lookup_complete(s, k, i);
        }
    }
    assert forall|i: int| 0 <= i < t.len() && #[trigger] t[i] is Occupied implies {
        let ki = t[i]->Occupied_0;
        &&& has_bucket(ki)
        &&& forall|e: int| 0 <= e < offset(bucket(ki), i) ==> !(#[trigger] t[probe(bucket(ki), e)] is Empty)
    } by {
        let ki = t[i]->Occupied_0;
        if i == j {
            assert forall|e: int| 0 <= e < offset(bucket(ki), i) implies !(#[trigger] t[probe(bucket(ki), e)] is Empty) by {
                lemma_probe_offset(b, e);
                assert(s[probe(b, e)] is Occupied);
            }
        } else {
            assert(s[i] is Occupied);
            assert forall|e: int| 0 <= e < offset(bucket(ki), i) implies !(#[trigger] t[probe(bucket(ki), e)] is Empty) by {
                assert(!(s[probe(bucket(ki), e)] is Empty));
            }
        }
    }
}

/// Deleting a key keeps the table well-formed.
pub proof fn lemma_delete_wf(s: Seq<Slot>, k: Seq<char>)
    requires
        slots_wf(s),
    ensures
        slots_wf(after_delete(s, k)),
{
    let t = after_delete(s, k);
    if let Some(j) = lookup(s, k) {
        lemma_probe_found(s, k, bucket(k), 0);
        assert forall|i: int| 0 <= i < t.len() && #[trigger] t[i] is Occupied implies {
            let ki = t[i]->Occupied_0;
            &&& has_bucket(ki)
            &&& forall|e: int| 0 <= e < offset(bucket(ki), i) ==> !(#[trigger] t[probe(bucket(ki), e)] is Empty)
        } by {
            let ki = t[i]->Occupied_0;
            assert(s[i] is Occupied);
            assert forall|e: int| 0 <= e < offset(bucket(ki), i) implies !(#[trigger] t[probe(bucket(ki), e)] is Empty) by {
                assert(!(s[probe(bucket(ki), e)] is Empty));
            }
        }
    }
}

} // verus!
