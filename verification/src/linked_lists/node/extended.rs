//! Node of a chain that can be walked both ways.
//!
//! An `ExtNode` holds a value and names its two neighbours by the slot each
//! occupies in the storage of the list it belongs to. A slot number owns
//! nothing, so the links of a chain form no cycle of ownership.

use vstd::prelude::*;
use crate::linked_lists::traits::ExtendedNode;

verus! {

/// A value with the slots of the node behind it and of the node before it.
#[derive(Debug)]
pub struct ExtNode<T> {
    value: T,
    next: Option<usize>,
    previous: Option<usize>,
}

impl<T> ExtNode<T> {
    /// The value that the node holds.
    pub closed spec fn value(&self) -> T {
        self.value
    }

    /// The slot of the node behind this one.
    pub closed spec fn next(&self) -> Option<usize> {
        self.next
    }

    /// The slot of the node before this one.
    pub closed spec fn previous(&self) -> Option<usize> {
        self.previous
    }

    /// A node without neighbours.
    pub fn new(value: T) -> (node: Self)
        ensures
            node.value() == value,
            node.next() is None,
            node.previous() is None,
    {
        ExtNode { value, next: None, previous: None }
    }

    pub fn get_value(&self) -> (value: &T)
        ensures
            *value == self.value(),
    {
        &self.value
    }

    pub fn set_value(&mut self, value: T)
        ensures
            final(self).value() == value,
            final(self).next() == old(self).next(),
            final(self).previous() == old(self).previous(),
    {
        self.value = value;
    }

    pub fn get_next(&self) -> (next: &Option<usize>)
        ensures
            *next == self.next(),
    {
        &self.next
    }

    pub fn get_previous(&self) -> (previous: &Option<usize>)
        ensures
            *previous == self.previous(),
    {
        &self.previous
    }

    /// The forward link, for writing. What the caller leaves in it is the
    /// node's forward link afterwards; value and backward link stay.
    pub fn get_next_mut(&mut self) -> (next: &mut Option<usize>)
        ensures
            *next == old(self).next(),
            final(self).next() == *final(next),
            final(self).value() == old(self).value(),
            final(self).previous() == old(self).previous(),
    {
        &mut self.next
    }

    /// The backward link, for writing. What the caller leaves in it is the
    /// node's backward link afterwards; value and forward link stay.
    pub fn get_previous_mut(&mut self) -> (previous: &mut Option<usize>)
        ensures
            *previous == old(self).previous(),
            final(self).previous() == *final(previous),
            final(self).value() == old(self).value(),
            final(self).next() == old(self).next(),
    {
        &mut self.previous
    }

    pub fn set_next(&mut self, next: Option<usize>)
        ensures
            final(self).next() == next,
            final(self).value() == old(self).value(),
            final(self).previous() == old(self).previous(),
    {
        self.next = next;
    }

    pub fn set_previous(&mut self, previous: Option<usize>)
        ensures
            final(self).previous() == previous,
            final(self).value() == old(self).value(),
            final(self).next() == old(self).next(),
    {
        self.previous = previous;
    }

    /// Gives up the node for its value.
    pub fn into_value(self) -> (value: T)
        ensures
            value == self.value(),
    {
        self.value
    }
}

impl<T> ExtendedNode<T> for ExtNode<T> {
    open spec fn held(&self) -> T {
        self.value()
    }

    open spec fn forward_link(&self) -> Option<usize> {
        self.next()
    }

    open spec fn backward_link(&self) -> Option<usize> {
        self.previous()
    }

    fn new(value: T) -> (node: Self) {
        ExtNode::new(value)
    }

    fn get_value(&self) -> (value: &T) {
        ExtNode::get_value(self)
    }

    fn set_value(&mut self, value: T) {
        ExtNode::set_value(self, value)
    }

    fn get_next(&self) -> (next: Option<&usize>) {
        self.next.as_ref()
    }

    fn get_previous(&self) -> (previous: Option<&usize>) {
        self.previous.as_ref()
    }

    fn get_next_mut(&mut self) -> (next: Option<&mut usize>) {
        self.next.as_mut()
    }

    fn get_previous_mut(&mut self) -> (previous: Option<&mut usize>) {
        self.previous.as_mut()
    }

    fn set_next(&mut self, next: Option<usize>) {
        ExtNode::set_next(self, next)
    }

    fn set_previous(&mut self, previous: Option<usize>) {
        ExtNode::set_previous(self, previous)
    }
}

} // verus!
