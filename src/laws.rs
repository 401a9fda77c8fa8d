//! Laws that relate the table's operations, stated over the model.

use vstd::prelude::*;
use crate::lemmas::{
    lemma_free_found, lemma_probe_absent, lemma_probe_after_write, lemma_probe_found,
    lemma_probe_update_passing,
};
use crate::model::{
    after_delete, after_insert, bucket, free_slot, fresh_slots, has_bucket, is_valid, lookup,
    slots_wf, stops, stored_keys, Slot, CAPACITY,
};

verus! {

/// A fresh table finds no key.
pub proof fn law_fresh_table_finds_nothing(k: Seq<char>)
    ensures
        lookup(fresh_slots(), k) is None,
{
    if is_valid(k) && has_bucket(k) {
        lemma_probe_absent(fresh_slots(), k, bucket(k), 0);
    }
}

/// After inserting a key that a search does not find, a search finds it in
/// the slot that the insertion wrote, wherever the key's probe had a slot free.
pub proof fn law_insert_then_find(s: Seq<Slot>, k: Seq<char>)
    requires
        s.len() == CAPACITY,
        is_valid(k),
        lookup(s, k) is None,
        free_slot(s, k) is Some,
    ensures
        lookup(after_insert(s, k), k) == free_slot(s, k),
        after_insert(s, k)[free_slot(s, k)->0] == Slot::Occupied(k),
{
    let b = bucket(k);
    let d = lemma_free_found(s, b, 0);
    lemma_probe_after_write(s, k, b, 0, d);
}

/// Inserting a key a second time changes no set of stored keys; for a key
/// short enough to be searched for, it changes nothing at all.
pub proof fn law_insert_idempotent(s: Seq<Slot>, k: Seq<char>)
    requires
        s.len() == CAPACITY,
    ensures
        stored_keys(after_insert(after_insert(s, k), k)) == stored_keys(after_insert(s, k)),
        is_valid(k) ==> after_insert(after_insert(s, k), k) == after_insert(s, k),
{
    let once = after_insert(s, k);
    let twice = after_insert(once, k);
    if lookup(s, k) is None && free_slot(s, k) is Some {
        let j = free_slot(s, k)->0;
        let b = bucket(k);
        lemma_free_found(s, b, 0);
        assert(once[j] == Slot::Occupied(k));
        if is_valid(k) {
            law_insert_then_find(s, k);
        } else if free_slot(once, k) is Some {
            let j2 = free_slot(once, k)->0;
            lemma_free_found(once, b, 0);
            assert(twice == once.update(j2, Slot::Occupied(k)));
            assert forall|x: Seq<char>| stored_keys(once).contains(x) <==> stored_keys(
                twice,
            ).contains(x) by {
                if stored_keys(twice).contains(x) {
                    let i = choose|i: int| 0 <= i < twice.len() && twice[i] == Slot::Occupied(x);
                    if i == j2 {
                        assert(once[j] == Slot::Occupied(x));
                    } else {
                        assert(once[i] == Slot::Occupied(x));
                    }
                }
                if stored_keys(once).contains(x) {
                    let i = choose|i: int| 0 <= i < once.len() && once[i] == Slot::Occupied(x);
                    if i == j2 {
                        assert(twice[j2] == Slot::Occupied(x));
                    } else {
                        assert(twice[i] == Slot::Occupied(x));
                    }
                }
            }
            assert(stored_keys(twice) =~= stored_keys(once));
        }
    }
}

/// In a well-formed table, after deleting a key that a search finds, a search
/// no longer finds it.
pub proof fn law_delete_then_miss(s: Seq<Slot>, k: Seq<char>)
    requires
        slots_wf(s),
        lookup(s, k) is Some,
    ensures
        lookup(after_delete(s, k), k) is None,
{
    let b = bucket(k);
    let j = lookup(s, k)->0;
    lemma_probe_found(s, k, b, 0);
    let t = after_delete(s, k);
    assert forall|i: int| 0 <= i < CAPACITY implies t[i] != Slot::Occupied(k) by {
        if i != j {
            assert(s[j] is Occupied && s[j] == s[j]);
            if s[i] == Slot::Occupied(k) {
                assert(s[i] == s[j]);
            }
        }
    }
    lemma_probe_absent(t, k, b, 0);
}

/// Deleting one key leaves a search for any other key as it was: the
/// tombstone left behind is passed like the key it replaced, so a key whose
/// probe ran past the deleted one is still found.
pub proof fn law_delete_keeps_others(s: Seq<Slot>, k1: Seq<char>, k2: Seq<char>)
    requires
        s.len() == CAPACITY,
        k1 != k2,
    ensures
        lookup(after_delete(s, k1), k2) == lookup(s, k2),
{
    if let Some(j) = lookup(s, k1) {
        lemma_probe_found(s, k1, bucket(k1), 0);
        if is_valid(k2) && has_bucket(k2) {
            assert(!stops(s[j], k2));
            lemma_probe_update_passing(s, k2, bucket(k2), 0, j, Slot::Tombstone);
        }
    }
}

} // verus!
