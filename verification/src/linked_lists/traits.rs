//! What a list can do, whatever chain it is kept on, and what its nodes can
//! do.

use vstd::prelude::*;
use vstd::std_specs::cmp::PartialEqSpec;
use super::errors;
use super::model::appended_all;
use super::model::get_outcome;
use super::model::search_outcome;
use super::model::with_first_replaced;
use super::model::without_first;
use super::model::without_last;
use super::types::names_index;
use super::types::names_value;
use super::types::plain;
use super::types::Error;
use super::types::Result;

verus! {

/// A sequence with access by position and by value.
///
/// Every operation is stated on `elements`, the sequence that the list stands
/// for. Two values count as equal where `eq_spec` of `T` says so.
pub trait List<T: PartialEq + Clone>: Sized {
    /// The elements, first to last.
    spec fn elements(&self) -> Seq<T>;

    /// The list's own bookkeeping is in order. Every operation asks for it
    /// and keeps it.
    spec fn valid(&self) -> bool;

    /// An empty list.
    fn new() -> (list: Self)
        ensures
            list.valid(),
            list.elements() == Seq::<T>::empty(),
    ;

    /// Adds `value` behind the last element.
    fn insert(&mut self, value: T)
        requires
            old(self).valid(),
            old(self).elements().len() < usize::MAX,
        ensures
            final(self).valid(),
            final(self).elements() == old(self).elements().push(value),
    ;

    /// Removes the first element that equals `value`.
    ///
    /// An empty list reports `EmptyList`, a list without such an element
    /// `ValueNotFound` with a copy of `value`; both leave the list as it was.
    fn remove(&mut self, value: &T) -> (outcome: Result<bool, Error<T>>)
        requires
            old(self).valid(),
        ensures
            final(self).valid(),
            names_value(outcome, *value),
            plain(outcome) == Err::<bool, errors::Error>(errors::Error::EmptyList)
                <==> old(self).elements().len() == 0,
            match outcome {
                Ok(removed) => removed && exists|k: int|
                    0 <= k < old(self).elements().len()
                        && final(self).elements() == old(self).elements().remove(k),
                Err(e) => {
                    &&& !(e is IndexOutOfBounds)
                    &&& final(self).elements() == old(self).elements()
                },
            },
            T::obeys_eq_spec() ==> plain(outcome) == search_outcome(old(self).elements(), *value)
                && final(self).elements() == without_first(old(self).elements(), *value),
    ;

    /// Looks for an element that equals `value`.
    ///
    /// Reports `EmptyList` on an empty list and `ValueNotFound`, with a copy
    /// of `value`, where no element of a non-empty list equals it; it never
    /// answers `false`.
    fn search(&self, value: &T) -> (outcome: Result<bool, Error<T>>)
        requires
            self.valid(),
        ensures
            names_value(outcome, *value),
            plain(outcome) == Err::<bool, errors::Error>(errors::Error::EmptyList)
                <==> self.elements().len() == 0,
            match outcome {
                Ok(found) => found,
                Err(e) => !(e is IndexOutOfBounds),
            },
            T::obeys_eq_spec() ==> plain(outcome) == search_outcome(self.elements(), *value),
    ;

    /// Puts `new_value` in place of the first element that equals
    /// `old_value`.
    ///
    /// Reports as `search` does, with `old_value` itself in `ValueNotFound`,
    /// and leaves the list as it was on an error.
    fn update(&mut self, old_value: T, new_value: T) -> (outcome: Result<bool, Error<T>>)
        requires
            old(self).valid(),
        ensures
            final(self).valid(),
            names_value(outcome, old_value),
            plain(outcome) == Err::<bool, errors::Error>(errors::Error::EmptyList)
                <==> old(self).elements().len() == 0,
            match outcome {
                Ok(updated) => updated && exists|k: int|
                    0 <= k < old(self).elements().len()
                        && final(self).elements() == old(self).elements().update(k, new_value),
                Err(e) => {
                    &&& !(e is IndexOutOfBounds)
                    &&& final(self).elements() == old(self).elements()
                },
            },
            T::obeys_eq_spec() ==> plain(outcome) == search_outcome(
                old(self).elements(),
                old_value,
            ) && final(self).elements() == with_first_replaced(
                old(self).elements(),
                old_value,
                new_value,
            ),
    ;

    /// A list of the elements of `values`, in their order.
    fn from_vec(values: Vec<T>) -> (list: Self)
        ensures
            list.valid(),
            list.elements() == values@,
            list.elements() == appended_all(Seq::empty(), values@),
    ;

    /// Takes the last element off the list and returns it; `None` where the
    /// list is empty.
    fn pop(&mut self) -> (last: Option<T>)
        requires
            old(self).valid(),
        ensures
            final(self).valid(),
            last == (if old(self).elements().len() == 0 {
                None
            } else {
                Some(old(self).elements().last())
            }),
            final(self).elements() == without_last(old(self).elements()),
    ;

    /// Whether the list holds no element.
    fn is_empty(&self) -> (empty: bool)
        requires
            self.valid(),
        ensures
            empty == (self.elements().len() == 0),
    ;

    /// The number of elements.
    fn len(&self) -> (n: usize)
        requires
            self.valid(),
        ensures
            n == self.elements().len(),
    ;

    /// The elements in their order, for reading.
    fn values(&self) -> (all: Vec<&T>)
        requires
            self.valid(),
        ensures
            all@.len() == self.elements().len(),
            forall|i: int| 0 <= i < all@.len() ==> *(#[trigger] all@[i]) == self.elements()[i],
    ;

    /// The element at position `index`, counted from zero.
    ///
    /// An empty list reports `EmptyList`, whatever the index; a position that
    /// is not below the length reports `IndexOutOfBounds` with the index and
    /// the last position.
    fn get(&self, index: usize) -> (outcome: Result<Option<&T>, Error<T>>)
        requires
            self.valid(),
        ensures
            names_index(outcome, index, self.elements().len()),
            match outcome {
                Ok(Some(value)) => get_outcome(self.elements(), index as int) == Ok::<
                    Option<T>,
                    errors::Error,
                >(Some(*value)),
                Ok(None) => false,
                Err(e) => get_outcome(self.elements(), index as int) == Err::<
                    Option<T>,
                    errors::Error,
                >(Error::kind_of(e)),
            },
    ;
}

/// A node of a chain that is walked one way: a value and the node behind it,
/// which it owns.
pub trait SinglyNode<T>: Sized {
    /// The value that the node holds.
    spec fn held(&self) -> T;

    /// The node behind this one.
    spec fn link(&self) -> Option<Box<Self>>;

    /// A node with `value` and no successor.
    fn new(value: T) -> (node: Self)
        ensures
            node.held() == value,
            node.link() is None,
    ;

    /// The value of the node.
    fn get_value(&self) -> (value: &T)
        ensures
            *value == self.held(),
    ;

    /// The node behind this one.
    fn get_next(&self) -> (next: Option<&Self>)
        ensures
            match next {
                Some(node) => self.link() is Some && *node == *self.link().unwrap(),
                None => self.link() is None,
            },
    ;

    /// The node behind this one, for writing. What the caller leaves in it is
    /// the successor afterwards; the value stays.
    fn get_next_mut(&mut self) -> (next: Option<&mut Self>)
        ensures
            final(self).held() == old(self).held(),
            match next {
                Some(node) => {
                    &&& old(self).link() is Some
                    &&& *node == *old(self).link().unwrap()
                    &&& final(self).link() is Some
                    &&& *final(self).link().unwrap() == *final(node)
                },
                None => old(self).link() is None && final(self).link() is None,
            },
    ;

    /// Puts `value` in place of the node's value.
    fn set_value(&mut self, value: T)
        ensures
            final(self).held() == value,
            final(self).link() == old(self).link(),
    ;

    /// Puts `next` in place of the node's successor.
    fn set_next(&mut self, next: Option<Box<Self>>)
        ensures
            final(self).link() == next,
            final(self).held() == old(self).held(),
    ;
}

/// A node of a chain that is walked both ways: a value and the slots of the
/// node behind it and of the node before it.
pub trait ExtendedNode<T>: Sized {
    /// The value that the node holds.
    spec fn held(&self) -> T;

    /// The slot of the node behind this one.
    spec fn forward_link(&self) -> Option<usize>;

    /// The slot of the node before this one.
    spec fn backward_link(&self) -> Option<usize>;

    /// A node with `value` and no neighbours.
    fn new(value: T) -> (node: Self)
        ensures
            node.held() == value,
            node.forward_link() is None,
            node.backward_link() is None,
    ;

    /// The value of the node.
    fn get_value(&self) -> (value: &T)
        ensures
            *value == self.held(),
    ;

    /// Puts `value` in place of the node's value.
    fn set_value(&mut self, value: T)
        ensures
            final(self).held() == value,
            final(self).forward_link() == old(self).forward_link(),
            final(self).backward_link() == old(self).backward_link(),
    ;

    /// The slot of the node behind this one.
    fn get_next(&self) -> (next: Option<&usize>)
        ensures
            match next {
                Some(slot) => self.forward_link() == Some(*slot),
                None => self.forward_link() is None,
            },
    ;

    /// The slot of the node before this one.
    fn get_previous(&self) -> (previous: Option<&usize>)
        ensures
            match previous {
                Some(slot) => self.backward_link() == Some(*slot),
                None => self.backward_link() is None,
            },
    ;

    /// The slot of the node behind this one, for writing. What the caller
    /// leaves in it is the forward link afterwards; the rest stays.
    fn get_next_mut(&mut self) -> (next: Option<&mut usize>)
        ensures
            final(self).held() == old(self).held(),
            final(self).backward_link() == old(self).backward_link(),
            match next {
                Some(slot) => old(self).forward_link() == Some(*slot) && final(self).forward_link()
                    == Some(*final(slot)),
                None => old(self).forward_link() is None && final(self).forward_link() is None,
            },
    ;

    /// The slot of the node before this one, for writing. What the caller
    /// leaves in it is the backward link afterwards; the rest stays.
    fn get_previous_mut(&mut self) -> (previous: Option<&mut usize>)
        ensures
            final(self).held() == old(self).held(),
            final(self).forward_link() == old(self).forward_link(),
            match previous {
                Some(slot) => {
                    &&& old(self).backward_link() == Some(*slot)
                    &&& final(self).backward_link() == Some(*final(slot))
                },
                None => old(self).backward_link() is None && final(self).backward_link() is None,
            },
    ;

    /// Puts `next` in place of the forward link.
    fn set_next(&mut self, next: Option<usize>)
        ensures
            final(self).forward_link() == next,
            final(self).held() == old(self).held(),
            final(self).backward_link() == old(self).backward_link(),
    ;

    /// Puts `previous` in place of the backward link.
    fn set_previous(&mut self, previous: Option<usize>)
        ensures
            final(self).backward_link() == previous,
            final(self).held() == old(self).held(),
            final(self).forward_link() == old(self).forward_link(),
    ;
}

} // verus!
