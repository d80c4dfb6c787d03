//! A plain singly linked list that answers with `bool` and `Option` where the
//! lists of `linked_lists` report an error.

use vstd::prelude::*;
use vstd::std_specs::cmp::PartialEqSpec;
use crate::linked_lists::model::appended_all;
use crate::linked_lists::model::has_match;
use crate::linked_lists::model::lemma_built_from;
use crate::linked_lists::model::lemma_first_match_is;
use crate::linked_lists::model::with_first_replaced;
use crate::linked_lists::model::without_first;
use crate::linked_lists::model::without_last;
use crate::linked_lists::node::singly::chain_values;
use crate::linked_lists::SNode;

verus! {

/// A chain of exclusively owned nodes, reached from its first node.
pub struct LinkedList<T> {
    head: Option<Box<SNode<T>>>,
}

impl<T> View for LinkedList<T> {
    type V = Seq<T>;

    /// The elements, first to last.
    closed spec fn view(&self) -> Seq<T> {
        chain_values(self.head)
    }
}

impl<T> LinkedList<T> {
    /// An empty list.
    pub fn new() -> (list: Self)
        ensures
            list@ == Seq::<T>::empty(),
    {
        LinkedList { head: None }
    }

    /// Adds `value` behind the last element.
    pub fn insert(&mut self, value: T)
        ensures
            final(self)@ == old(self)@.push(value),
    {
        let new_node = Box::new(SNode::new(value));
        let ghost before = chain_values(self.head);
        let ghost mut passed = Seq::<T>::empty();
        let mut link = &mut self.head;
        while link.is_some()
            invariant
                before == passed + chain_values(*link),
                chain_values(after_borrow(self.head)) == passed + chain_values(*final(link)),
            decreases chain_values(*link).len(),
        {
            let node = link.as_mut().unwrap();
            proof {
                passed = passed.push(node.value());
            }
            link = node.get_next_mut();
        }
        *link = Some(new_node);
    }

    /// Removes the first element that equals `value` and says whether there
    /// was one.
    pub fn remove(&mut self, value: &T) -> (removed: bool) where T: PartialEq
        ensures
            removed ==> exists|k: int|
                0 <= k < old(self)@.len() && final(self)@ == old(self)@.remove(k),
            !removed ==> final(self)@ == old(self)@,
            T::obeys_eq_spec() ==> removed == has_match(old(self)@, *value) && final(self)@
                == without_first(old(self)@, *value),
    {
        let ghost before = chain_values(self.head);
        let ghost mut passed = Seq::<T>::empty();
        let mut link = &mut self.head;
        while link.is_some()
            invariant
                before == old(self)@,
                before == passed + chain_values(*link),
                chain_values(after_borrow(self.head)) == passed + chain_values(*final(link)),
                T::obeys_eq_spec() ==> forall|j: int|
                    0 <= j < passed.len() ==> !(#[trigger] passed[j]).eq_spec(value),
            decreases chain_values(*link).len(),
        {
            if *link.as_ref().unwrap().get_value() == *value {
                let ghost k = passed.len() as int;
                let found = link.take().unwrap();
                let (_, rest) = found.into_parts();
                *link = rest;
                proof {
                    assert(before[k] == found.value());
                    assert(chain_values(self.head) =~= before.remove(k));
                    assert(self@ == old(self)@.remove(k));
                    if T::obeys_eq_spec() {
                        lemma_first_match_is(before, *value, k);
                    }
                }
                return true;
            }
            let node = link.as_mut().unwrap();
            proof {
                passed = passed.push(node.value());
            }
            link = node.get_next_mut();
        }
        proof {
            assert(passed =~= before);
            if T::obeys_eq_spec() {
                lemma_first_match_is(before, *value, before.len() as int);
            }
        }
        false
    }

    /// Takes the last element off the list and returns it; `None` where the
    /// list is empty.
    pub fn pop(&mut self) -> (last: Option<T>)
        ensures
            last == (if old(self)@.len() == 0 {
                None
            } else {
                Some(old(self)@.last())
            }),
            final(self)@ == without_last(old(self)@),
    {
        if self.head.is_none() {
            return None;
        }
        let ghost before = chain_values(self.head);
        let ghost mut passed = Seq::<T>::empty();
        let mut link = &mut self.head;
        while link.as_ref().unwrap().get_next().is_some()
            invariant
                before == old(self)@,
                *link is Some,
                before == passed + chain_values(*link),
                chain_values(after_borrow(self.head)) == passed + chain_values(*final(link)),
            decreases chain_values(*link).len(),
        {
            let node = link.as_mut().unwrap();
            proof {
                passed = passed.push(node.value());
            }
            link = node.get_next_mut();
        }
        let last = link.take().unwrap();
        let (value, _) = last.into_parts();
        proof {
            assert(chain_values(last.next()) =~= Seq::<T>::empty());
            assert(before =~= passed.push(value));
            assert(chain_values(self.head) =~= before.drop_last());
        }
        Some(value)
    }

    /// A list of the elements of `values`, in their order.
    pub fn from_vec(values: Vec<T>) -> (list: Self)
        ensures
            list@ == values@,
            list@ == appended_all(Seq::empty(), values@),
    {
        let mut list = LinkedList::new();
        let ghost all = values@;
        for value in it: values
            invariant
                it.seq() == all,
                list@ == all.take(it.index() as int),
        {
            proof {
                assert(all.take(it.index() as int).push(value) =~= all.take(it.index() + 1));
            }
            list.insert(value);
        }
        proof {
            assert(all.take(all.len() as int) =~= all);
            lemma_built_from(all);
        }
        list
    }

    /// Whether some element equals `value`.
    pub fn search(&self, value: &T) -> (found: bool) where T: PartialEq
        ensures
            found ==> self@.len() > 0,
            T::obeys_eq_spec() ==> found == has_match(self@, *value),
    {
        let ghost mut passed = Seq::<T>::empty();
        let mut link = &self.head;
        while link.is_some()
            invariant
                self@ == passed + chain_values(*link),
                T::obeys_eq_spec() ==> forall|j: int|
                    0 <= j < passed.len() ==> !(#[trigger] passed[j]).eq_spec(value),
            decreases chain_values(*link).len(),
        {
            let node = link.as_ref().unwrap();
            if *node.get_value() == *value {
                proof {
                    if T::obeys_eq_spec() {
                        lemma_first_match_is(self@, *value, passed.len() as int);
                    }
                }
                return true;
            }
            proof {
                passed = passed.push(node.value());
            }
            link = node.get_next();
        }
        proof {
            assert(passed =~= self@);
            if T::obeys_eq_spec() {
                lemma_first_match_is(self@, *value, self@.len() as int);
            }
        }
        false
    }

    /// Puts `new_value` in place of the first element that equals `value` and
    /// says whether there was one.
    pub fn update(&mut self, value: T, new_value: T) -> (updated: bool) where T: PartialEq
        ensures
            updated ==> exists|k: int|
                0 <= k < old(self)@.len() && final(self)@ == old(self)@.update(k, new_value),
            !updated ==> final(self)@ == old(self)@,
            T::obeys_eq_spec() ==> updated == has_match(old(self)@, value) && final(self)@
                == with_first_replaced(old(self)@, value, new_value),
    {
        let ghost before = chain_values(self.head);
        let ghost mut passed = Seq::<T>::empty();
        let mut link = &mut self.head;
        while link.is_some()
            invariant
                before == old(self)@,
                before == passed + chain_values(*link),
                chain_values(after_borrow(self.head)) == passed + chain_values(*final(link)),
                T::obeys_eq_spec() ==> forall|j: int|
                    0 <= j < passed.len() ==> !(#[trigger] passed[j]).eq_spec(&value),
            decreases chain_values(*link).len(),
        {
            let node = link.as_mut().unwrap();
            if *node.get_value() == value {
                let ghost k = passed.len() as int;
                proof {
                    assert(before[k] == node.value());
                }
                node.set_value(new_value);
                proof {
                    assert(chain_values(self.head) =~= before.update(k, new_value));
                    assert(self@ == old(self)@.update(k, new_value));
                    if T::obeys_eq_spec() {
                        lemma_first_match_is(before, value, k);
                    }
                }
                return true;
            }
            proof {
                passed = passed.push(node.value());
            }
            link = node.get_next_mut();
        }
        proof {
            assert(passed =~= before);
            if T::obeys_eq_spec() {
                lemma_first_match_is(before, value, before.len() as int);
            }
        }
        false
    }

    /// The elements in their order, for reading.
    pub fn values(&self) -> (all: Vec<&T>)
        ensures
            all@.len() == self@.len(),
            forall|i: int| 0 <= i < all@.len() ==> *(#[trigger] all@[i]) == self@[i],
    {
        let mut all: Vec<&T> = Vec::new();
        let mut link = &self.head;
        while link.is_some()
            invariant
                all@.len() + chain_values(*link).len() == self@.len(),
                self@.skip(all@.len() as int) == chain_values(*link),
                forall|i: int| 0 <= i < all@.len() ==> *(#[trigger] all@[i]) == self@[i],
            decreases chain_values(*link).len(),
        {
            let node = link.as_ref().unwrap();
            proof {
                let n = all@.len() as int;
                assert(self@[n] == self@.skip(n)[0]);
                assert(self@.skip(n + 1) =~= self@.skip(n).drop_first());
                assert(chain_values(node.next()) =~= chain_values(*link).drop_first());
            }
            all.push(node.get_value());
            link = node.get_next();
        }
        all
    }
}

} // verus!
