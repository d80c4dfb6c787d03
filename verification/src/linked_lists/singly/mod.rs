//! A sequence kept as a singly linked chain.

use vstd::prelude::*;
use vstd::std_specs::cmp::PartialEqSpec;
use super::model::appended_all;
use super::model::get_outcome;
use super::model::lemma_built_from;
use super::model::lemma_first_match_is;
use super::model::pop_outcome;
use super::model::search_outcome;
use super::model::with_first_replaced;
use super::model::without_first;
use super::model::without_last;
use super::node::singly::chain_values;
use super::types;
use super::Error;
use super::List;
use super::Result;
use super::SNode;

verus! {

/// A sequence whose elements hang on one chain of exclusively owned nodes,
/// with the number of nodes kept beside the chain.
#[derive(Debug)]
pub struct Singly<T> {
    head: Option<Box<SNode<T>>>,
    len: usize,
}

impl<T> View for Singly<T> {
    type V = Seq<T>;

    /// The elements, first to last.
    closed spec fn view(&self) -> Seq<T> {
        chain_values(self.head)
    }
}

impl<T> Singly<T> {
    /// The stored length is the number of nodes on the chain.
    pub closed spec fn wf(&self) -> bool {
        self.len == chain_values(self.head).len()
    }

    /// An empty list.
    pub fn new() -> (list: Self)
        ensures
            list.wf(),
            list@ == Seq::<T>::empty(),
    {
        Singly { head: None, len: 0 }
    }

    /// Adds `value` behind the last element.
    pub fn append(&mut self, value: T)
        requires
            old(self).wf(),
            old(self)@.len() < usize::MAX,
        ensures
            final(self).wf(),
            final(self)@ == old(self)@.push(value),
    {
        let new_node = Box::new(SNode::new(value));
        let ghost before = chain_values(self.head);
        let ghost mut passed = Seq::<T>::empty();
        let mut link = &mut self.head;
        while link.is_some()
            invariant
                before == passed + chain_values(*link),
                chain_values(after_borrow(self.head)) == passed + chain_values(*final(link)),
            decreases chain_values(*link).len(),
        {
            let node = link.as_mut().unwrap();
            proof {
                passed = passed.push(node.value());
            }
            link = node.get_next_mut();
        }
        *link = Some(new_node);
        self.len += 1;
    }

    /// Removes the first element that equals `value`.
    ///
    /// An empty list reports `EmptyList`, a list without such an element
    /// `ValueNotFound`; both leave the list as it was.
    pub fn remove_first(&mut self, value: &T) -> (outcome: Result<bool>) where T: PartialEq
        requires
            old(self).wf(),
        ensures
            final(self).wf(),
            outcome == Err::<bool, Error>(Error::EmptyList) <==> old(self)@.len() == 0,
            match outcome {
                Ok(removed) => removed && exists|k: int|
                    0 <= k < old(self)@.len() && final(self)@ == old(self)@.remove(k),
                Err(e) => e != Error::IndexOutOfBounds && final(self)@ == old(self)@,
            },
            T::obeys_eq_spec() ==> outcome == search_outcome(old(self)@, *value) && final(self)@
                == without_first(old(self)@, *value),
    {
        if self.head.is_none() {
            return Err(Error::EmptyList);
        }
        let ghost before = chain_values(self.head);
        let ghost mut passed = Seq::<T>::empty();
        let mut link = &mut self.head;
        while link.is_some()
            invariant
                self.len == before.len(),
                before == old(self)@,
                before == passed + chain_values(*link),
                chain_values(after_borrow(self.head)) == passed + chain_values(*final(link)),
                T::obeys_eq_spec() ==> forall|j: int|
                    0 <= j < passed.len() ==> !(#[trigger] passed[j]).eq_spec(value),
            decreases chain_values(*link).len(),
        {
            if *link.as_ref().unwrap().get_value() == *value {
                let ghost k = passed.len() as int;
                let found = link.take().unwrap();
                let (_, rest) = found.into_parts();
                *link = rest;
                self.len -= 1;
                proof {
                    assert(before[k] == found.value());
                    assert(chain_values(self.head) =~= before.remove(k));
                    assert(self@ == old(self)@.remove(k));
                    if T::obeys_eq_spec() {
                        lemma_first_match_is(before, *value, k);
                    }
                }
                return Ok(true);
            }
            let node = link.as_mut().unwrap();
            proof {
                passed = passed.push(node.value());
            }
            link = node.get_next_mut();
        }
        proof {
            assert(passed =~= before);
            if T::obeys_eq_spec() {
                lemma_first_match_is(before, *value, before.len() as int);
            }
        }
        Err(Error::ValueNotFound)
    }

    /// Removes the first element that equals `value`.
    ///
    /// Reports and changes the list as `remove_first` does.
    pub fn remove(&mut self, value: T) -> (outcome: Result<bool>) where T: PartialEq
        requires
            old(self).wf(),
        ensures
            final(self).wf(),
            outcome == Err::<bool, Error>(Error::EmptyList) <==> old(self)@.len() == 0,
            match outcome {
                Ok(removed) => removed && exists|k: int|
                    0 <= k < old(self)@.len() && final(self)@ == old(self)@.remove(k),
                Err(e) => e != Error::IndexOutOfBounds && final(self)@ == old(self)@,
            },
            T::obeys_eq_spec() ==> outcome == search_outcome(old(self)@, value) && final(self)@
                == without_first(old(self)@, value),
    {
        self.remove_first(&value)
    }

    /// Looks for an element that equals `value`.
    ///
    /// Reports `EmptyList` on an empty list and `ValueNotFound` where no
    /// element of a non-empty list equals `value`; it never answers `false`.
    pub fn search_for(&self, value: &T) -> (outcome: Result<bool>) where T: PartialEq
        ensures
            outcome == Err::<bool, Error>(Error::EmptyList) <==> self@.len() == 0,
            outcome != Ok::<bool, Error>(false),
            outcome != Err::<bool, Error>(Error::IndexOutOfBounds),
            T::obeys_eq_spec() ==> outcome == search_outcome(self@, *value),
    {
        if self.head.is_none() {
            return Err(Error::EmptyList);
        }
        let ghost mut passed = Seq::<T>::empty();
        let mut link = &self.head;
        while link.is_some()
            invariant
                self@.len() > 0,
                self@ == passed + chain_values(*link),
                T::obeys_eq_spec() ==> forall|j: int|
                    0 <= j < passed.len() ==> !(#[trigger] passed[j]).eq_spec(value),
            decreases chain_values(*link).len(),
        {
            let node = link.as_ref().unwrap();
            if *node.get_value() == *value {
                proof {
                    if T::obeys_eq_spec() {
                        lemma_first_match_is(self@, *value, passed.len() as int);
                    }
                }
                return Ok(true);
            }
            proof {
                passed = passed.push(node.value());
            }
            link = node.get_next();
        }
        proof {
            assert(passed =~= self@);
            if T::obeys_eq_spec() {
                lemma_first_match_is(self@, *value, self@.len() as int);
            }
        }
        Err(Error::ValueNotFound)
    }

    /// Looks for an element that equals `value`.
    ///
    /// Reports as `search_for` does.
    pub fn search(&self, value: T) -> (outcome: Result<bool>) where T: PartialEq
        ensures
            outcome == Err::<bool, Error>(Error::EmptyList) <==> self@.len() == 0,
            outcome != Ok::<bool, Error>(false),
            outcome != Err::<bool, Error>(Error::IndexOutOfBounds),
            T::obeys_eq_spec() ==> outcome == search_outcome(self@, value),
    {
        self.search_for(&value)
    }

    /// Puts `new_value` in place of the first element that equals `old_value`.
    ///
    /// Reports as `search` does, and leaves the list as it was on an error.
    pub fn replace_first(&mut self, old_value: &T, new_value: T) -> (outcome: Result<bool>) where
        T: PartialEq,

        requires
            old(self).wf(),
        ensures
            final(self).wf(),
            outcome == Err::<bool, Error>(Error::EmptyList) <==> old(self)@.len() == 0,
            match outcome {
                Ok(updated) => updated && exists|k: int|
                    0 <= k < old(self)@.len() && final(self)@ == old(self)@.update(k, new_value),
                Err(e) => e != Error::IndexOutOfBounds && final(self)@ == old(self)@,
            },
            T::obeys_eq_spec() ==> outcome == search_outcome(old(self)@, *old_value) && final(self)@
                == with_first_replaced(old(self)@, *old_value, new_value),
    {
        if self.head.is_none() {
            return Err(Error::EmptyList);
        }
        let ghost before = chain_values(self.head);
        let ghost mut passed = Seq::<T>::empty();
        let mut link = &mut self.head;
        while link.is_some()
            invariant
                self.len == before.len(),
                before == old(self)@,
                before == passed + chain_values(*link),
                chain_values(after_borrow(self.head)) == passed + chain_values(*final(link)),
                T::obeys_eq_spec() ==> forall|j: int|
                    0 <= j < passed.len() ==> !(#[trigger] passed[j]).eq_spec(old_value),
            decreases chain_values(*link).len(),
        {
            let node = link.as_mut().unwrap();
            if *node.get_value() == *old_value {
                let ghost k = passed.len() as int;
                proof {
                    assert(before[k] == node.value());
                }
                node.set_value(new_value);
                proof {
                    assert(chain_values(self.head) =~= before.update(k, new_value));
                    assert(self@ == old(self)@.update(k, new_value));
                    if T::obeys_eq_spec() {
                        lemma_first_match_is(before, *old_value, k);
                    }
                }
                return Ok(true);
            }
            proof {
                passed = passed.push(node.value());
            }
            link = node.get_next_mut();
        }
        proof {
            assert(passed =~= before);
            if T::obeys_eq_spec() {
                lemma_first_match_is(before, *old_value, before.len() as int);
            }
        }
        Err(Error::ValueNotFound)
    }

    /// Puts `new_value` in place of the first element that equals `old_value`.
    ///
    /// Reports and changes the list as `replace_first` does.
    pub fn update(&mut self, old_value: T, new_value: T) -> (outcome: Result<bool>) where
        T: PartialEq,

        requires
            old(self).wf(),
        ensures
            final(self).wf(),
            outcome == Err::<bool, Error>(Error::EmptyList) <==> old(self)@.len() == 0,
            match outcome {
                Ok(updated) => updated && exists|k: int|
                    0 <= k < old(self)@.len() && final(self)@ == old(self)@.update(k, new_value),
                Err(e) => e != Error::IndexOutOfBounds && final(self)@ == old(self)@,
            },
            T::obeys_eq_spec() ==> outcome == search_outcome(old(self)@, old_value) && final(self)@
                == with_first_replaced(old(self)@, old_value, new_value),
    {
        self.replace_first(&old_value, new_value)
    }

    /// A list of the elements of `values`, in their order.
    pub fn from_vec(values: Vec<T>) -> (list: Self)
        ensures
            list.wf(),
            list@ == values@,
            list@ == appended_all(Seq::empty(), values@),
    {
        let mut list = Self::new();
        let ghost all = values@;
        proof {
            assert(all.len() == values.len());
        }
        for value in it: values
            invariant
                list.wf(),
                all.len() <= usize::MAX,
                it.seq() == all,
                list@ == all.take(it.index() as int),
        {
            proof {
                assert(all.take(it.index() as int).push(value) =~= all.take(it.index() + 1));
            }
            list.append(value);
        }
        proof {
            assert(all.take(all.len() as int) =~= all);
            lemma_built_from(all);
        }
        list
    }

    /// Takes the last element off the list and returns it.
    ///
    /// An empty list reports `EmptyList`.
    pub fn pop(&mut self) -> (outcome: Result<Option<T>>)
        requires
            old(self).wf(),
        ensures
            final(self).wf(),
            outcome == pop_outcome(old(self)@),
            final(self)@ == without_last(old(self)@),
    {
        if self.head.is_none() {
            return Err(Error::EmptyList);
        }
        let ghost before = chain_values(self.head);
        let ghost mut passed = Seq::<T>::empty();
        let mut link = &mut self.head;
        while link.as_ref().unwrap().get_next().is_some()
            invariant
                self.len == before.len(),
                before == old(self)@,
                *link is Some,
                before == passed + chain_values(*link),
                chain_values(after_borrow(self.head)) == passed + chain_values(*final(link)),
            decreases chain_values(*link).len(),
        {
            let node = link.as_mut().unwrap();
            proof {
                passed = passed.push(node.value());
            }
            link = node.get_next_mut();
        }
        let last = link.take().unwrap();
        let (value, _) = last.into_parts();
        self.len -= 1;
        proof {
            assert(chain_values(last.next()) =~= Seq::<T>::empty());
            assert(before =~= passed.push(value));
            assert(chain_values(self.head) =~= before.drop_last());
        }
        Ok(Some(value))
    }

    /// Whether the list holds no element.
    pub fn is_empty(&self) -> (empty: bool)
        ensures
            empty == (self@.len() == 0),
    {
        self.head.is_none()
    }

    /// The number of elements.
    pub fn len(&self) -> (n: usize)
        requires
            self.wf(),
        ensures
            n == self@.len(),
    {
        self.len
    }

    /// The element at position `index`, counted from zero.
    ///
    /// An empty list reports `EmptyList`, whatever the index; a position that
    /// is not below the length reports `IndexOutOfBounds`.
    pub fn get(&self, index: usize) -> (outcome: Result<Option<&T>>)
        ensures
            match outcome {
                Ok(Some(value)) => get_outcome(self@, index as int) == Ok::<Option<T>, Error>(
                    Some(*value),
                ),
                Ok(None) => false,
                Err(e) => get_outcome(self@, index as int) == Err::<Option<T>, Error>(e),
            },
    {
        if self.head.is_none() {
            return Err(Error::EmptyList);
        }
        let mut at: usize = 0;
        let mut link = &self.head;
        while link.is_some()
            invariant
                self@.len() > 0,
                at <= index,
                at + chain_values(*link).len() == self@.len(),
                self@.skip(at as int) == chain_values(*link),
            decreases chain_values(*link).len(),
        {
            let node = link.as_ref().unwrap();
            if at == index {
                proof {
                    assert(self@[at as int] == self@.skip(at as int)[0]);
                }
                return Ok(Some(node.get_value()));
            }
            proof {
                assert(self@.skip(at as int + 1) =~= self@.skip(at as int).drop_first());
                assert(chain_values(node.next()) =~= chain_values(*link).drop_first());
            }
            link = node.get_next();
            at += 1;
        }
        Err(Error::IndexOutOfBounds)
    }

    /// The elements in their order, for reading.
    pub fn values(&self) -> (all: Vec<&T>)
        ensures
            all@.len() == self@.len(),
            forall|i: int| 0 <= i < all@.len() ==> *(#[trigger] all@[i]) == self@[i],
    {
        let mut all: Vec<&T> = Vec::new();
        let mut link = &self.head;
        while link.is_some()
            invariant
                all@.len() + chain_values(*link).len() == self@.len(),
                self@.skip(all@.len() as int) == chain_values(*link),
                forall|i: int| 0 <= i < all@.len() ==> *(#[trigger] all@[i]) == self@[i],
            decreases chain_values(*link).len(),
        {
            let node = link.as_ref().unwrap();
            proof {
                let n = all@.len() as int;
                assert(self@[n] == self@.skip(n)[0]);
                assert(self@.skip(n + 1) =~= self@.skip(n).drop_first());
                assert(chain_values(node.next()) =~= chain_values(*link).drop_first());
            }
            all.push(node.get_value());
            link = node.get_next();
        }
        all
    }
}

impl<T: PartialEq + Clone> List<T> for Singly<T> {
    open spec fn elements(&self) -> Seq<T> {
        self@
    }

    open spec fn valid(&self) -> bool {
        self.wf()
    }

    fn new() -> (list: Self) {
        Singly::new()
    }

    fn insert(&mut self, value: T) {
        self.append(value)
    }

    fn remove(&mut self, value: &T) -> (outcome: types::Result<bool, types::Error<T>>) {
        match self.remove_first(value) {
            Ok(removed) => Ok(removed),
            Err(Error::EmptyList) => Err(types::Error::EmptyList),
            Err(_) => Err(types::Error::ValueNotFound { value: value.clone() }),
        }
    }

    fn search(&self, value: &T) -> (outcome: types::Result<bool, types::Error<T>>) {
        match self.search_for(value) {
            Ok(found) => Ok(found),
            Err(Error::EmptyList) => Err(types::Error::EmptyList),
            Err(_) => Err(types::Error::ValueNotFound { value: value.clone() }),
        }
    }

    fn update(&mut self, old_value: T, new_value: T) -> (outcome: types::Result<
        bool,
        types::Error<T>,
    >) {
        match self.replace_first(&old_value, new_value) {
            Ok(updated) => Ok(updated),
            Err(Error::EmptyList) => Err(types::Error::EmptyList),
            Err(_) => Err(types::Error::ValueNotFound { value: old_value }),
        }
    }

    fn from_vec(values: Vec<T>) -> (list: Self) {
        Singly::from_vec(values)
    }

    fn pop(&mut self) -> (last: Option<T>) {
        match Singly::pop(self) {
            Ok(last) => last,
            Err(_) => None,
        }
    }

    fn is_empty(&self) -> (empty: bool) {
        Singly::is_empty(self)
    }

    fn len(&self) -> (n: usize) {
        Singly::len(self)
    }

    fn values(&self) -> (all: Vec<&T>) {
        Singly::values(self)
    }

    fn get(&self, index: usize) -> (outcome: types::Result<Option<&T>, types::Error<T>>) {
        match Singly::get(self, index) {
            Ok(value) => Ok(value),
            Err(Error::EmptyList) => Err(types::Error::EmptyList),
            Err(_) => Err(types::Error::IndexOutOfBounds { index, max_index: self.len - 1 }),
        }
    }
}

} // verus!
