//! A fixed-capacity hash table of short lowercase words, resolving collisions
//! by linear probing and marking deletions with tombstones.

pub mod laws;
mod lemmas;
pub mod model;
pub mod table;

pub use table::{Field, HashTable, KeyIndex};
pub use model::{Slot, CAPACITY, MAX_KEY_LEN};
