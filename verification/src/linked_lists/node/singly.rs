//! Node of a singly linked chain.
//!
//! An `SNode` holds a value and owns the node that follows it, if there is one.

use vstd::prelude::*;
use crate::linked_lists::traits::SinglyNode;

verus! {

/// A value and the rest of the chain behind it.
#[derive(Debug)]
pub struct SNode<T> {
    value: T,
    next: Option<Box<SNode<T>>>,
}

/// The values of the chain that starts in `link`, first to last.
pub open spec fn chain_values<T>(link: Option<Box<SNode<T>>>) -> Seq<T>
    decreases link,
{
    match link {
        None => Seq::empty(),
        Some(node) => seq![node.value()] + chain_values(node.next()),
    }
}

impl<T> SNode<T> {
    /// The value that the node holds.
    pub closed spec fn value(&self) -> T {
        self.value
    }

    /// The link to the node behind this one.
    pub closed spec fn next(&self) -> Option<Box<SNode<T>>> {
        self.next
    }

    /// A node with no successor.
    pub fn new(value: T) -> (node: Self)
        ensures
            node.value() == value,
            node.next() is None,
    {
        SNode { value, next: None }
    }

    pub fn get_value(&self) -> (value: &T)
        ensures
            *value == self.value(),
    {
        &self.value
    }

    pub fn get_next(&self) -> (next: &Option<Box<Self>>)
        ensures
            *next == self.next(),
    {
        &self.next
    }

    /// The link to the successor, for writing. What the caller leaves in it is
    /// the node's link afterwards; the value stays.
    pub fn get_next_mut(&mut self) -> (next: &mut Option<Box<Self>>)
        ensures
            *next == old(self).next(),
            final(self).next() == *final(next),
            final(self).value() == old(self).value(),
    {
        &mut self.next
    }

    pub fn set_value(&mut self, value: T)
        ensures
            final(self).value() == value,
            final(self).next() == old(self).next(),
    {
        self.value = value;
    }

    pub fn set_next(&mut self, next: Option<Box<Self>>)
        ensures
            final(self).next() == next,
            final(self).value() == old(self).value(),
    {
        self.next = next;
    }

    /// Takes the node apart into its value and its link.
    pub fn into_parts(self) -> (parts: (T, Option<Box<Self>>))
        ensures
            parts.0 == self.value(),
            parts.1 == self.next(),
    {
        (self.value, self.next)
    }
}

impl<T> SinglyNode<T> for SNode<T> {
    open spec fn held(&self) -> T {
        self.value()
    }

    open spec fn link(&self) -> Option<Box<Self>> {
        self.next()
    }

    fn new(value: T) -> (node: Self) {
        SNode::new(value)
    }

    fn get_value(&self) -> (value: &T) {
        SNode::get_value(self)
    }

    fn get_next(&self) -> (next: Option<&Self>) {
        match &self.next {
            Some(node) => Some(&**node),
            None => None,
        }
    }

    fn get_next_mut(&mut self) -> (next: Option<&mut Self>) {
        match &mut self.next {
            Some(node) => Some(&mut **node),
            None => None,
        }
    }

    fn set_value(&mut self, value: T) {
        SNode::set_value(self, value)
    }

    fn set_next(&mut self, next: Option<Box<Self>>) {
        SNode::set_next(self, next)
    }
}

} // verus!
