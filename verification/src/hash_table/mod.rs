//! A table with a fixed number of slots, addressed by the digest of a key.
//!
//! A key leads to one slot, and what is stored there is taken for the key's
//! entry: keys that lead to the same slot overwrite each other.

use vstd::prelude::*;
use std::collections::hash_map::DefaultHasher;
use std::hash::Hash;
use std::hash::Hasher;

pub mod errors;

pub use errors::Error;
pub use errors::Result;

verus! {

/// Slots that are empty or hold a key with its value.
#[derive(Debug)]
pub struct Table<K, V> {
    pub elements: Vec<Option<(K, V)>>,
    capacity: usize,
}

/// Lets `key` write itself into `hasher`.
///
/// Stands for `Hash::hash` of the key's type. What an implementation writes is
/// its own affair, so nothing is claimed of the hasher afterwards.
#[verifier::external_body]
fn feed<K: Hash>(key: &K, hasher: &mut DefaultHasher) {
    key.hash(hasher)
}

/// `slot` is empty or holds copies of the key and value of some entry of
/// `entries`.
pub open spec fn copied_from<K: Clone, V: Clone>(
    entries: Seq<Option<(K, V)>>,
    slot: Option<(K, V)>,
) -> bool {
    match slot {
        None => true,
        Some((key, value)) => exists|i: int|
            0 <= i < entries.len() && (#[trigger] entries[i]) is Some && cloned(
                entries[i].unwrap().0,
                key,
            ) && cloned(entries[i].unwrap().1, value),
    }
}

impl<K, V> View for Table<K, V> {
    type V = Seq<Option<(K, V)>>;

    /// The slots in their order.
    closed spec fn view(&self) -> Seq<Option<(K, V)>> {
        self.elements@
    }
}

impl<K, V> Table<K, V> {
    /// The number of slots that the table was made with.
    pub closed spec fn capacity(&self) -> usize {
        self.capacity
    }

    /// There are as many slots as the capacity says.
    pub open spec fn wf(&self) -> bool {
        self@.len() == self.capacity()
    }

    /// A table of `capacity` empty slots.
    pub fn new(capacity: usize) -> (table: Self)
        ensures
            table.wf(),
            table.capacity() == capacity,
            forall|i: int| 0 <= i < capacity ==> (#[trigger] table@[i]) is None,
    {
        let mut elements: Vec<Option<(K, V)>> = Vec::new();
        while elements.len() < capacity
            invariant
                elements@.len() <= capacity,
                forall|i: int| 0 <= i < elements@.len() ==> (#[trigger] elements@[i]) is None,
            decreases capacity - elements@.len(),
        {
            elements.push(None);
        }
        Table { elements, capacity }
    }

    /// The slot of the digest that the default hasher gives for `key`.
    fn hash(&self, key: &K) -> (index: usize) where K: Hash
        requires
            self.capacity() > 0,
        ensures
            index < self.capacity(),
            exists|written: Seq<Seq<u8>>|
                index == slot_of(#[trigger] digest_of(written), self.capacity()),
    {
        let mut hasher = DefaultHasher::new();
        feed(key, &mut hasher);
        let digest: u64 = hasher.finish();
        proof {
            assert(digest == digest_of(hasher@));
        }
        self.slot_for(digest)
    }

    /// The slot that `digest` leads to: the digest, cut to the width of
    /// `usize`, modulo the number of slots.
    pub fn slot_for(&self, digest: u64) -> (index: usize)
        requires
            self.capacity() > 0,
        ensures
            index == slot_of(digest, self.capacity()),
            index < self.capacity(),
    {
        (#[verifier::truncate] (digest as usize)) % self.capacity
    }

    /// Stores `key` with `value` in slot `index`, over what was there.
    pub fn insert_at(&mut self, index: usize, key: K, value: V)
        requires
            old(self).wf(),
            index < old(self).capacity(),
        ensures
            final(self).wf(),
            final(self).capacity() == old(self).capacity(),
            final(self)@ == old(self)@.update(index as int, Some((key, value))),
    {
        self.elements[index] = Some((key, value));
    }

    /// Stores `key` with `value` in the slot that `key` leads to, over what
    /// was there.
    pub fn insert(&mut self, key: K, value: V) where K: Hash
        requires
            old(self).wf(),
            old(self).capacity() > 0,
        ensures
            final(self).wf(),
            final(self).capacity() == old(self).capacity(),
            exists|index: int|
                0 <= index < old(self).capacity() && final(self)@ == old(self)@.update(
                    index,
                    Some((key, value)),
                ),
    {
        let index = self.hash(&key);
        self.insert_at(index, key, value);
    }

    /// The value stored in slot `index`; `KeyNotFound` where the slot is
    /// empty.
    pub fn get_at(&self, index: usize) -> (outcome: Result<&V>)
        requires
            self.wf(),
            index < self.capacity(),
        ensures
            match outcome {
                Ok(value) => self@[index as int] is Some && *value
                    == self@[index as int].unwrap().1,
                Err(e) => self@[index as int] is None && e == Error::KeyNotFound,
            },
    {
        match &self.elements[index] {
            Some(entry) => Ok(&entry.1),
            None => Err(Error::KeyNotFound),
        }
    }

    /// The value stored in the slot that `key` leads to; `KeyNotFound` where
    /// that slot is empty.
    pub fn get(&self, key: &K) -> (outcome: Result<&V>) where K: Hash
        requires
            self.wf(),
            self.capacity() > 0,
        ensures
            exists|index: int|
                0 <= index < self.capacity() && match outcome {
                    Ok(value) => (#[trigger] self@[index]) is Some && *value
                        == self@[index].unwrap().1,
                    Err(e) => self@[index] is None && e == Error::KeyNotFound,
                },
    {
        let index = self.hash(key);
        self.get_at(index)
    }

    /// Empties slot `index` and returns the value that was stored there;
    /// `KeyNotFound` where the slot was empty already.
    pub fn remove_at(&mut self, index: usize) -> (outcome: Result<V>)
        requires
            old(self).wf(),
            index < old(self).capacity(),
        ensures
            final(self).wf(),
            final(self).capacity() == old(self).capacity(),
            final(self)@ == old(self)@.update(index as int, None),
            match outcome {
                Ok(value) => {
                    &&& old(self)@[index as int] is Some
                    &&& value == old(self)@[index as int].unwrap().1
                },
                Err(e) => old(self)@[index as int] is None && e == Error::KeyNotFound,
            },
    {
        match self.elements[index].take() {
            Some(entry) => Ok(entry.1),
            None => Err(Error::KeyNotFound),
        }
    }

    /// Empties the slot that `key` leads to and returns the value that was
    /// stored there.
    ///
    /// A table without slots reports `EmptyTable`, an empty slot
    /// `KeyNotFound`.
    pub fn remove(&mut self, key: &K) -> (outcome: Result<V>) where K: Hash
        requires
            old(self).wf(),
        ensures
            final(self).wf(),
            final(self).capacity() == old(self).capacity(),
            old(self).capacity() == 0 ==> outcome.is_err() && outcome->Err_0 == Error::EmptyTable
                && final(self)@ == old(self)@,
            old(self).capacity() > 0 ==> exists|index: int|
                0 <= index < old(self).capacity() && final(self)@ == old(self)@.update(index, None)
                    && match outcome {
                    Ok(value) => {
                        &&& (#[trigger] old(self)@[index]) is Some
                        &&& value == old(self)@[index].unwrap().1
                    },
                    Err(e) => old(self)@[index] is None && e == Error::KeyNotFound,
                },
    {
        if self.capacity == 0 {
            return Err(Error::EmptyTable);
        }
        let index = self.hash(key);
        self.remove_at(index)
    }

    /// The value stored in slot `index`, for writing; `KeyNotFound` where the
    /// slot is empty. What the caller leaves in it is the slot's value
    /// afterwards; the key and the other slots stay.
    pub fn update_at(&mut self, index: usize) -> (outcome: Result<&mut V>)
        requires
            old(self).wf(),
            index < old(self).capacity(),
        ensures
            final(self).capacity() == old(self).capacity(),
            match outcome {
                Ok(value) => {
                    &&& old(self)@[index as int] is Some
                    &&& *value == old(self)@[index as int].unwrap().1
                    &&& final(self)@ == old(self)@.update(
                        index as int,
                        Some((old(self)@[index as int].unwrap().0, *final(value))),
                    )
                },
                Err(e) => {
                    &&& old(self)@[index as int] is None
                    &&& e == Error::KeyNotFound
                    &&& final(self)@ == old(self)@
                },
            },
    {
        match &mut self.elements[index] {
            Some(entry) => Ok(&mut entry.1),
            None => Err(Error::KeyNotFound),
        }
    }

    /// The value stored in the slot that `key` leads to, for writing.
    ///
    /// A table without slots reports `EmptyTable`, an empty slot
    /// `KeyNotFound`; both leave the table as it was.
    pub fn update(&mut self, key: &K) -> (outcome: Result<&mut V>) where K: Hash
        requires
            old(self).wf(),
        ensures
            final(self).capacity() == old(self).capacity(),
            old(self).capacity() == 0 ==> outcome.is_err() && outcome->Err_0 == Error::EmptyTable
                && final(self)@ == old(self)@,
            old(self).capacity() > 0 ==> exists|index: int|
                0 <= index < old(self).capacity() && match outcome {
                    Ok(value) => {
                        &&& (#[trigger] old(self)@[index]) is Some
                        &&& *value == old(self)@[index].unwrap().1
                        &&& final(self)@ == old(self)@.update(
                            index,
                            Some((old(self)@[index].unwrap().0, *final(value))),
                        )
                    },
                    Err(e) => {
                        &&& old(self)@[index] is None
                        &&& e == Error::KeyNotFound
                        &&& final(self)@ == old(self)@
                    },
                },
    {
        if self.capacity == 0 {
            return Err(Error::EmptyTable);
        }
        let index = self.hash(key);
        self.update_at(index)
    }

    /// Moves the table to `new_capacity` slots: copies of the entries are
    /// stored anew, in the order of their slots, each in the slot that its key
    /// leads to among the new ones.
    ///
    /// `InvalidCapacity` where `new_capacity` is zero; the table then stays as
    /// it was.
    pub fn resize(&mut self, new_capacity: usize) -> (outcome: Result<()>) where
        K: Hash + Clone,
        V: Clone,

        requires
            old(self).wf(),
        ensures
            final(self).wf(),
            new_capacity == 0 ==> {
                &&& outcome == Err::<(), Error>(Error::InvalidCapacity)
                &&& final(self)@ == old(self)@
                &&& final(self).capacity() == old(self).capacity()
            },
            new_capacity > 0 ==> outcome == Ok::<(), Error>(()) && final(self).capacity()
                == new_capacity && forall|j: int|
                0 <= j < new_capacity ==> copied_from(old(self)@, #[trigger] final(self)@[j]),
    {
        if new_capacity == 0 {
            return Err(Error::InvalidCapacity);
        }
        let mut new_table: Table<K, V> = Table::new(new_capacity);
        let mut i: usize = 0;
        while i < self.elements.len()
            invariant
                new_capacity > 0,
                new_table.wf(),
                new_table.capacity() == new_capacity,
                self@ == old(self)@,
                self.elements@ == self@,
                forall|j: int|
                    0 <= j < new_capacity ==> copied_from(self@, #[trigger] new_table@[j]),
            decreases self.elements@.len() - i,
        {
            match &self.elements[i] {
                Some(entry) => {
                    let key = entry.0.clone();
                    let value = entry.1.clone();
                    let ghost before = new_table@;
                    new_table.insert(key, value);
                    proof {
                        assert(self@[i as int] is Some);
                        assert(copied_from(self@, Some((key, value))));
                        assert forall|j: int| 0 <= j < new_capacity implies copied_from(
                            self@,
                            #[trigger] new_table@[j],
                        ) by {
                            assert(copied_from(self@, before[j]));
                        }
                    }
                },
                None => {},
            }
            i += 1;
        }
        self.elements = new_table.elements;
        self.capacity = new_capacity;
        Ok(())
    }
}

impl<K, V> Default for Table<K, V> {
    /// A table of 64 empty slots.
    fn default() -> (table: Self)
        ensures
            table.wf(),
            table.capacity() == 64,
            forall|i: int| 0 <= i < 64 ==> (#[trigger] table@[i]) is None,
    {
        Self::new(64)
    }
}

/// The slot that `digest` leads to among `capacity` slots: the digest, cut to
/// the width of `usize`, modulo `capacity`.
pub open spec fn slot_of(digest: u64, capacity: usize) -> int {
    (digest as usize) as int % capacity as int
}

/// The digest that the default hasher gives after the byte strings of
/// `written` were written into it, one after the other.
pub open spec fn digest_of(written: Seq<Seq<u8>>) -> u64 {
    <DefaultHasher as vstd::std_specs::hash::DefaultHasherAdditionalSpecFns>::spec_finish(written)
}

} // verus!
