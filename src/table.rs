//! The table itself: a fixed array of slots and its three operations.

use vstd::prelude::*;
use vstd::string::*;
use crate::lemmas::{lemma_delete_wf, lemma_insert_wf, lemma_probe_found, lemma_probe_step};
use crate::model::{
    after_delete, after_insert, bucket, free_from, fresh_slots, has_bucket, is_valid, lookup,
    occupied_keys, probe, probe_from, slots_wf, Slot, CAPACITY, MAX_KEY_LEN,
};

verus! {

/// The position of a slot in the table.
pub type KeyIndex = usize;

/// One slot of the table.
pub enum Field {
    Occupied(String),
    Empty,
    Tombstone,
}

impl View for Field {
    type V = Slot;

    open spec fn view(&self) -> Slot {
        match self {
            Field::Occupied(k) => Slot::Occupied(k@),
            Field::Empty => Slot::Empty,
            Field::Tombstone => Slot::Tombstone,
        }
    }
}

/// A table of `CAPACITY` slots. A key starts its probe at the alphabet
/// position of its last character; a key that does not end in a lowercase
/// ASCII letter has no such start, and is never stored or found.
pub struct HashTable {
    fields: Vec<Field>,
}

impl View for HashTable {
    type V = Seq<Slot>;

    closed spec fn view(&self) -> Seq<Slot> {
        self.fields@.map_values(|f: Field| f@)
    }
}

/// The starting slot of `key`, where its last character is a lowercase ASCII
/// letter.
fn bucket_index(key: &String) -> (r: Option<usize>)
    ensures
        has_bucket(key@) ==> r == Some(bucket(key@) as usize) && 0 <= bucket(key@) < CAPACITY,
        !has_bucket(key@) ==> r is None,
{
    let n = key.as_str().unicode_len();
    if n == 0 {
        return None;
    }
    let c = key.as_str().get_char(n - 1);
    if 'a' <= c && c <= 'z' {
        Some((c as u32 - 'a' as u32) as usize)
    } else {
        None
    }
}

impl HashTable {
    /// The invariant of a table.
    pub open spec fn wf(&self) -> bool {
        slots_wf(self@)
    }

    /// Makes a table whose slots are all empty.
    pub fn new() -> (t: HashTable)
        ensures
            t@ == fresh_slots(),
            t.wf(),
    {
        let mut f: Vec<Field> = Vec::new();
        let mut i: usize = 0;
        while i < CAPACITY
            invariant
                i <= CAPACITY,
                f@.len() == i,
                forall|j: int| 0 <= j < i ==> f@[j]@ == Slot::Empty,
            decreases CAPACITY - i,
        {
            f.push(Field::Empty);
            i = i + 1;
        }
        let t = HashTable { fields: f };
        assert(t@ =~= fresh_slots());
        t
    }

    /// Whether `key` is short enough to be searched for: at most
    /// `MAX_KEY_LEN` characters.
    pub fn is_valid_key(key: String) -> (r: bool)
        ensures
            r == is_valid(key@),
    {
        if key.as_str().unicode_len() > MAX_KEY_LEN {
            return false;
        }
        true
    }

    /// The slot that holds `key`, found by probing from its bucket past
    /// tombstones and other keys until an empty slot or a full turn.
    pub fn search(&self, key: String) -> (r: Option<KeyIndex>)
        requires
            self.wf(),
        ensures
            r is Some <==> lookup(self@, key@) is Some,
            r matches Some(i) ==> i < CAPACITY && lookup(self@, key@) == Some(i as int) && self@[i as int]
                == Slot::Occupied(key@),
            !is_valid(key@) ==> r is None,
    {
        if !HashTable::is_valid_key(key.clone()) {
            return None;
        }
        let start = match bucket_index(&key) {
            Some(b) => b,
            None => return None,
        };
        let ghost s = self@;
        let ghost k = key@;
        proof {
            lemma_probe_found(s, k, start as int, 0);
        }
        let mut index: usize = start;
        let mut step: usize = 0;
        while step < CAPACITY
            invariant
                self.wf(),
                s == self@,
                k == key@,
                start < CAPACITY,
                step <= CAPACITY,
                index == probe(start as int, step as int),
                lookup(s, k) == probe_from(s, k, start as int, 0),
                probe_from(s, k, start as int, 0) == probe_from(s, k, start as int, step as nat),
            decreases CAPACITY - step,
        {
            proof {
                lemma_probe_step(start as int, step as int);
            }
            assert(self.fields@[index as int]@ == s[index as int]);
            match &self.fields[index] {
                Field::Empty => {
                    return None;
                },
                Field::Tombstone => {},
                Field::Occupied(value) => {
                    if *value == key {
                        return Some(index);
                    }
                },
            }
            index = (index + 1) % CAPACITY;
            step = step + 1;
        }
        None
    }

    /// Writes `key` into the first slot of its probe that holds no key, unless
    /// a search finds it already; where every slot of the probe holds a key,
    /// nothing changes.
    pub fn insert(&mut self, key: String)
        requires
            old(self).wf(),
        ensures
            final(self).wf(),
            final(self)@ == after_insert(old(self)@, key@),
    {
        if let Some(_) = self.search(key.clone()) {
            return;
        }
        let ghost s = self@;
        let ghost k = key@;
        let start = match bucket_index(&key) {
            Some(b) => b,
            None => return,
        };
        let mut index: usize = start;
        let mut step: usize = 0;
        loop
            invariant
                self.wf(),
                s == self@,
                k == key@,
                start as int == bucket(k),
                start < CAPACITY,
                step < CAPACITY,
                index == probe(start as int, step as int),
                free_from(s, start as int, 0) == free_from(s, start as int, step as nat),
            ensures
                free_from(s, start as int, 0) == Some(index as int),
                index < CAPACITY,
            decreases CAPACITY - step,
        {
            proof {
                lemma_probe_step(start as int, step as int);
            }
            assert(self.fields@[index as int]@ == s[index as int]);
            if !matches!(self.fields[index], Field::Occupied(_)) {
                break;
            }
            index = (index + 1) % CAPACITY;
            step = step + 1;
            if step == CAPACITY {
                return;
            }
        }
        proof {
            lemma_insert_wf(s, k);
        }
        self.fields[index] = Field::Occupied(key);
        assert(self@ =~= after_insert(s, k));
    }

    /// Turns the slot where a search finds `key` into a tombstone; nothing
    /// changes where it is not found.
    pub fn delete(&mut self, key: String)
        requires
            old(self).wf(),
        ensures
            final(self).wf(),
            final(self)@ == after_delete(old(self)@, key@),
    {
        let ghost s = self@;
        let ghost k = key@;
        proof {
            lemma_delete_wf(s, k);
        }
        match self.search(key) {
            None => {},
            Some(index) => {
                self.fields[index] = Field::Tombstone;
                assert(self@ =~= after_delete(s, k));
            },
        }
    }

    /// The keys of the occupied slots, in slot order.
    pub fn occupied_keys(&self) -> (r: Vec<String>)
        ensures
            r@.map_values(|k: String| k@) == occupied_keys(self@),
    {
        let mut keys: Vec<String> = Vec::new();
        let mut i: usize = 0;
        while i < self.fields.len()
            invariant
                i <= self.fields@.len(),
                keys@.map_values(|k: String| k@) == occupied_keys(self@.take(i as int)),
            decreases self.fields@.len() - i,
        {
            let ghost before = keys@.map_values(|k: String| k@);
            assert(self@.take(i + 1).drop_last() =~= self@.take(i as int));
            assert(self@.take(i + 1).last() == self.fields@[i as int]@);
            match &self.fields[i] {
                Field::Occupied(k) => {
                    keys.push(k.clone());
                    assert(keys@.map_values(|k: String| k@) =~= before.push(k@));
                },
                _ => {},
            }
            i = i + 1;
        }
        assert(self@.take(i as int) =~= self@);
        keys
    }
}

} // verus!
