//! A sequence kept as a doubly linked chain.
//!
//! The nodes live in the slots of one vector and name their neighbours by
//! slot number. Slots whose node was removed are kept on a free list and are
//! used again before the vector grows.

use vstd::prelude::*;
use vstd::std_specs::cmp::PartialEqSpec;
use super::model::appended_all;
use super::model::first_match;
use super::model::get_outcome;
use super::model::lemma_built_from;
use super::model::lemma_first_match_is;
use super::model::pop_outcome;
use super::model::search_outcome;
use super::model::with_first_replaced;
use super::model::without_first;
use super::model::without_last;
use super::types;
use super::Error;
use super::ExtNode;
use super::List;
use super::Result;

verus! {

/// A sequence whose elements hang on a chain that is linked both ways, with
/// the first node, the last node and the number of nodes kept beside it.
pub struct Double<T> {
    slots: Vec<Option<ExtNode<T>>>,
    free: Vec<usize>,
    head: Option<usize>,
    tail: Option<usize>,
    len: usize,
    order: Ghost<Seq<usize>>,
}

impl<T> View for Double<T> {
    type V = Seq<T>;

    /// The elements, first to last.
    closed spec fn view(&self) -> Seq<T> {
        Seq::new(self.order@.len(), |k: int| self.node(self.order@[k] as int).value())
    }
}

impl<T> Double<T> {
    /// The node in slot `p`.
    spec fn node(&self, p: int) -> ExtNode<T> {
        self.slots@[p].unwrap()
    }

    /// Slot `p` exists and holds a node.
    spec fn live(&self, p: int) -> bool {
        0 <= p < self.slots@.len() && self.slots@[p] is Some
    }

    /// The slot that stands at position `k` of the chain, if `k` is a position.
    spec fn slot_at(&self, k: int) -> Option<usize> {
        if 0 <= k < self.order@.len() {
            Some(self.order@[k])
        } else {
            None
        }
    }

    /// Position `k` of the chain holds a node that names the node of the next
    /// position as its successor and the node of the position before as its
    /// predecessor.
    spec fn linked(&self, k: int) -> bool {
        &&& self.live(self.order@[k] as int)
        &&& self.node(self.order@[k] as int).next() == self.slot_at(k + 1)
        &&& self.node(self.order@[k] as int).previous() == self.slot_at(k - 1)
    }

    /// Position `j` of the free list names an empty slot.
    spec fn spare(&self, j: int) -> bool {
        &&& 0 <= self.free@[j] < self.slots@.len()
        &&& self.slots@[self.free@[j] as int] is None
    }

    /// The links agree with the order of the chain: every position is linked
    /// to its neighbours, the head is the first node and the tail the last, no
    /// slot stands twice in the chain, the stored length is the number of
    /// nodes, and the free list holds empty slots, each once.
    pub closed spec fn wf(&self) -> bool {
        &&& self.len == self.order@.len()
        &&& self.len + self.free@.len() <= self.slots@.len()
        &&& self.head == self.slot_at(0)
        &&& self.tail == self.slot_at(self.order@.len() - 1)
        &&& forall|k: int| 0 <= k < self.order@.len() ==> #[trigger] self.linked(k)
        &&& forall|i: int, j: int|
            0 <= i < j < self.order@.len() ==> self.order@[i] != self.order@[j]
        &&& forall|j: int| 0 <= j < self.free@.len() ==> #[trigger] self.spare(j)
        &&& forall|i: int, j: int| 0 <= i < j < self.free@.len() ==> self.free@[i] != self.free@[j]
    }

    /// The values met on a walk that starts in slot `start` and follows the
    /// forward links until one is absent. A walk visits at most `fuel` nodes.
    spec fn walk_forward(&self, start: Option<usize>, fuel: nat) -> Seq<T>
        decreases fuel,
    {
        match start {
            Some(p) if fuel > 0 && self.live(p as int) => seq![self.node(p as int).value()]
                + self.walk_forward(self.node(p as int).next(), (fuel - 1) as nat),
            _ => Seq::empty(),
        }
    }

    /// The values met on a walk that starts in slot `start` and follows the
    /// backward links until one is absent. A walk visits at most `fuel` nodes.
    spec fn walk_backward(&self, start: Option<usize>, fuel: nat) -> Seq<T>
        decreases fuel,
    {
        match start {
            Some(p) if fuel > 0 && self.live(p as int) => seq![self.node(p as int).value()]
                + self.walk_backward(self.node(p as int).previous(), (fuel - 1) as nat),
            _ => Seq::empty(),
        }
    }

    /// The values met from the head along the forward links. The walk may
    /// visit as many nodes as there are slots, so only an absent link ends it
    /// early.
    pub closed spec fn forward(&self) -> Seq<T> {
        self.walk_forward(self.head, self.slots@.len())
    }

    /// The values met from the tail along the backward links, bounded as
    /// `forward` is.
    pub closed spec fn backward(&self) -> Seq<T> {
        self.walk_backward(self.tail, self.slots@.len())
    }

    /// A forward walk from position `k` meets the elements from `k` on.
    proof fn lemma_walk_forward(&self, k: int, fuel: nat)
        requires
            self.wf(),
            0 <= k <= self@.len(),
            fuel >= self@.len() - k,
        ensures
            self.walk_forward(self.slot_at(k), fuel) == self@.skip(k),
        decreases self@.len() - k,
    {
        if k < self@.len() {
            assert(self.linked(k));
            self.lemma_walk_forward(k + 1, (fuel - 1) as nat);
            assert(self@.skip(k) =~= seq![self@[k]] + self@.skip(k + 1));
        } else {
            assert(self@.skip(k) =~= Seq::<T>::empty());
        }
    }

    /// A backward walk from position `k` meets the elements up to `k`, last
    /// to first.
    proof fn lemma_walk_backward(&self, k: int, fuel: nat)
        requires
            self.wf(),
            -1 <= k < self@.len(),
            fuel >= k + 1,
        ensures
            self.walk_backward(self.slot_at(k), fuel) == self@.take(k + 1).reverse(),
        decreases k + 1,
    {
        if k >= 0 {
            assert(self.linked(k));
            self.lemma_walk_backward(k - 1, (fuel - 1) as nat);
            assert(self@.take(k + 1).reverse() =~= seq![self@[k]] + self@.take(k).reverse());
        } else {
            assert(self@.take(k + 1).reverse() =~= Seq::<T>::empty());
        }
    }

    /// In a well-formed list the walk from the head along the forward links
    /// meets the elements in their order, and the walk from the tail along the
    /// backward links meets the same elements in the opposite order: each as
    /// often as the other.
    pub proof fn lemma_traversals_mirror(&self)
        requires
            self.wf(),
        ensures
            self.forward() == self@,
            self.backward() == self@.reverse(),
            self.backward() == self.forward().reverse(),
            self.backward().to_multiset() == self.forward().to_multiset(),
    {
        self.lemma_walk_forward(0, self.slots@.len());
        self.lemma_walk_backward(self@.len() - 1, self.slots@.len());
        assert(self@.skip(0) =~= self@);
        assert(self@.take(self@.len() as int) =~= self@);
        self@.lemma_reverse_to_multiset();
    }

    /// An empty list.
    pub fn new() -> (list: Self)
        ensures
            list.wf(),
            list@ == Seq::<T>::empty(),
    {
        let list = Double {
            slots: Vec::new(),
            free: Vec::new(),
            head: None,
            tail: None,
            len: 0,
            order: Ghost(Seq::empty()),
        };
        proof {
            assert(list@ =~= Seq::<T>::empty());
        }
        list
    }

    /// Puts `node` into an empty slot, one of the free list if it has any, and
    /// returns the slot.
    fn place(&mut self, node: ExtNode<T>) -> (p: usize)
        requires
            old(self).wf(),
        ensures
            !old(self).live(p as int),
            final(self).live(p as int),
            final(self).node(p as int) == node,
            forall|q: int|
                q != p ==> final(self).live(q) == old(self).live(q) && (old(self).live(q)
                    ==> final(self).node(q) == old(self).node(q)),
            final(self).len + final(self).free@.len() < final(self).slots@.len(),
            forall|j: int| 0 <= j < final(self).free@.len() ==> #[trigger] final(self).spare(j),
            forall|i: int, j: int|
                0 <= i < j < final(self).free@.len() ==> final(self).free@[i] != final(self).free@[j],
            final(self).head == old(self).head,
            final(self).tail == old(self).tail,
            final(self).len == old(self).len,
            final(self).order == old(self).order,
    {
        match self.free.pop() {
            Some(p) => {
                proof {
                    assert(old(self).spare(old(self).free@.len() - 1));
                }
                self.slots[p] = Some(node);
                proof {
                    assert forall|j: int| 0 <= j < self.free@.len() implies #[trigger] self.spare(
                        j,
                    ) by {
                        assert(old(self).spare(j));
                    }
                }
                p
            },
            None => {
                self.slots.push(Some(node));
                proof {
                    assert forall|j: int| 0 <= j < self.free@.len() implies #[trigger] self.spare(
                        j,
                    ) by {
                        assert(old(self).spare(j));
                    }
                }
                self.slots.len() - 1
            },
        }
    }

    /// Adds `value` behind the last element.
    pub fn append(&mut self, value: T)
        requires
            old(self).wf(),
        ensures
            final(self).wf(),
            final(self)@ == old(self)@.push(value),
    {
        let ghost n = self.order@.len() as int;
        let mut node = ExtNode::new(value);
        node.set_previous(self.tail);
        let p = self.place(node);
        let ghost placed = *self;
        proof {
            assert forall|k: int| 0 <= k < n implies self.order@[k] != p by {
                assert(old(self).linked(k));
            }
        }
        match self.tail {
            Some(t) => {
                proof {
                    assert(old(self).linked(n - 1));
                }
                self.slots[t].as_mut().unwrap().set_next(Some(p));
            },
            None => {
                self.head = Some(p);
            },
        }
        self.tail = Some(p);
        proof {
            assert(self.slots@.len() == placed.slots@.len());
            assert(self.len < self.slots.len());
        }
        self.len += 1;
        self.order = Ghost(self.order@.push(p));
        proof {
            assert forall|k: int| 0 <= k < self.order@.len() implies #[trigger] self.linked(k) by {
                if k < n {
                    assert(old(self).linked(k));
                    assert(placed.node(self.order@[k] as int) == old(self).node(
                        self.order@[k] as int,
                    ));
                }
            }
            assert forall|j: int| 0 <= j < self.free@.len() implies #[trigger] self.spare(j) by {
                assert(placed.spare(j));
            }
            assert forall|k: int| 0 <= k < n implies self.node(self.order@[k] as int).value()
                == old(self).node(old(self).order@[k] as int).value() by {
                assert(old(self).linked(k));
                assert(placed.node(self.order@[k] as int) == old(self).node(
                    self.order@[k] as int,
                ));
            }
            assert(self@ =~= old(self)@.push(value));
        }
    }

    /// Walks the chain from the head to the first node whose value equals
    /// `value`, and returns its slot with its position.
    fn locate(&self, value: &T) -> (found: Option<(usize, Ghost<int>)>) where T: PartialEq
        requires
            self.wf(),
        ensures
            match found {
                Some((p, k)) => {
                    &&& 0 <= k@ < self@.len()
                    &&& self.order@[k@] == p
                    &&& T::obeys_eq_spec() ==> first_match(self@, *value) == k@
                },
                None => T::obeys_eq_spec() ==> first_match(self@, *value) == self@.len(),
            },
    {
        let mut cur = self.head;
        let ghost mut k: int = 0;
        loop
            invariant
                self.wf(),
                0 <= k <= self@.len(),
                cur == self.slot_at(k),
                T::obeys_eq_spec() ==> forall|j: int|
                    0 <= j < k ==> !(#[trigger] self@[j]).eq_spec(value),
            decreases self@.len() - k,
        {
            match cur {
                None => {
                    proof {
                        if T::obeys_eq_spec() {
                            lemma_first_match_is(self@, *value, k);
                        }
                    }
                    return None;
                },
                Some(p) => {
                    proof {
                        assert(self.linked(k));
                    }
                    let node = self.slots[p].as_ref().unwrap();
                    if *node.get_value() == *value {
                        proof {
                            if T::obeys_eq_spec() {
                                lemma_first_match_is(self@, *value, k);
                            }
                        }
                        return Some((p, Ghost(k)));
                    }
                    cur = *node.get_next();
                    proof {
                        k = k + 1;
                    }
                },
            }
        }
    }

    /// Takes the node at position `k`, which stands in slot `p`, out of the
    /// chain: its neighbours are linked to each other, head and tail follow,
    /// and the slot goes to the free list.
    fn unlink(&mut self, p: usize, Ghost(k): Ghost<int>) -> (value: T)
        requires
            old(self).wf(),
            0 <= k < old(self)@.len(),
            old(self).order@[k] == p,
        ensures
            final(self).wf(),
            final(self)@ == old(self)@.remove(k),
            value == old(self)@[k],
    {
        let ghost n = self.order@.len() as int;
        proof {
            assert(self.linked(k));
        }
        let node = self.slots[p].take().unwrap();
        let previous = *node.get_previous();
        let next = *node.get_next();
        match previous {
            Some(q) => {
                proof {
                    assert(old(self).linked(k - 1));
                }
                self.slots[q].as_mut().unwrap().set_next(next);
            },
            None => {
                self.head = next;
            },
        }
        match next {
            Some(q) => {
                proof {
                    assert(old(self).linked(k + 1));
                }
                self.slots[q].as_mut().unwrap().set_previous(previous);
            },
            None => {
                self.tail = previous;
            },
        }
        self.free.push(p);
        self.len -= 1;
        self.order = Ghost(self.order@.remove(k));
        proof {
            assert forall|j: int| 0 <= j < self.order@.len() implies #[trigger] self.linked(j) by {
                let i = if j < k { j } else { j + 1 };
                assert(old(self).linked(i));
                assert(self.order@[j] == old(self).order@[i]);
            }
            assert forall|j: int| 0 <= j < self.free@.len() implies #[trigger] self.spare(j) by {
                if j < old(self).free@.len() {
                    assert(old(self).spare(j));
                    assert(old(self).free@[j] != p);
                }
            }
            assert forall|i: int, j: int| 0 <= i < j < self.free@.len() implies self.free@[i]
                != self.free@[j] by {
                assert(old(self).spare(i));
            }
            assert forall|j: int| 0 <= j < self.order@.len() implies self.node(
                self.order@[j] as int,
            ).value() == old(self)@.remove(k)[j] by {
                let i = if j < k { j } else { j + 1 };
                assert(old(self).linked(i));
            }
            assert(self@ =~= old(self)@.remove(k));
        }
        node.into_value()
    }

    /// Removes the first element that equals `value`.
    ///
    /// An empty list reports `EmptyList`, a list without such an element
    /// `ValueNotFound`; both leave the list as it was.
    pub fn remove_first(&mut self, value: &T) -> (outcome: Result<bool>) where T: PartialEq
        requires
            old(self).wf(),
        ensures
            final(self).wf(),
            outcome == Err::<bool, Error>(Error::EmptyList) <==> old(self)@.len() == 0,
            match outcome {
                Ok(removed) => removed && exists|k: int|
                    0 <= k < old(self)@.len() && final(self)@ == old(self)@.remove(k),
                Err(e) => e != Error::IndexOutOfBounds && final(self)@ == old(self)@,
            },
            T::obeys_eq_spec() ==> outcome == search_outcome(old(self)@, *value) && final(self)@
                == without_first(old(self)@, *value),
    {
        if self.head.is_none() {
            return Err(Error::EmptyList);
        }
        match self.locate(value) {
            None => Err(Error::ValueNotFound),
            Some((p, k)) => {
                let _ = self.unlink(p, k);
                Ok(true)
            },
        }
    }

    /// Removes the first element that equals `value`.
    ///
    /// Reports and changes the list as `remove_first` does.
    pub fn remove(&mut self, value: T) -> (outcome: Result<bool>) where T: PartialEq
        requires
            old(self).wf(),
        ensures
            final(self).wf(),
            outcome == Err::<bool, Error>(Error::EmptyList) <==> old(self)@.len() == 0,
            match outcome {
                Ok(removed) => removed && exists|k: int|
                    0 <= k < old(self)@.len() && final(self)@ == old(self)@.remove(k),
                Err(e) => e != Error::IndexOutOfBounds && final(self)@ == old(self)@,
            },
            T::obeys_eq_spec() ==> outcome == search_outcome(old(self)@, value) && final(self)@
                == without_first(old(self)@, value),
    {
        self.remove_first(&value)
    }

    /// Looks for an element that equals `value`.
    ///
    /// Reports `EmptyList` on an empty list and `ValueNotFound` where no
    /// element of a non-empty list equals `value`; it never answers `false`.
    pub fn search_for(&self, value: &T) -> (outcome: Result<bool>) where T: PartialEq
        requires
            self.wf(),
        ensures
            outcome == Err::<bool, Error>(Error::EmptyList) <==> self@.len() == 0,
            outcome != Ok::<bool, Error>(false),
            outcome != Err::<bool, Error>(Error::IndexOutOfBounds),
            T::obeys_eq_spec() ==> outcome == search_outcome(self@, *value),
    {
        if self.head.is_none() {
            return Err(Error::EmptyList);
        }
        match self.locate(value) {
            None => Err(Error::ValueNotFound),
            Some(_) => Ok(true),
        }
    }

    /// Looks for an element that equals `value`.
    ///
    /// Reports as `search_for` does.
    pub fn search(&self, value: T) -> (outcome: Result<bool>) where T: PartialEq
        requires
            self.wf(),
        ensures
            outcome == Err::<bool, Error>(Error::EmptyList) <==> self@.len() == 0,
            outcome != Ok::<bool, Error>(false),
            outcome != Err::<bool, Error>(Error::IndexOutOfBounds),
            T::obeys_eq_spec() ==> outcome == search_outcome(self@, value),
    {
        self.search_for(&value)
    }

    /// Puts `new_value` in place of the first element that equals `old_value`.
    ///
    /// Reports as `search` does, and leaves the list as it was on an error.
    pub fn replace_first(&mut self, old_value: &T, new_value: T) -> (outcome: Result<bool>) where
        T: PartialEq,

        requires
            old(self).wf(),
        ensures
            final(self).wf(),
            outcome == Err::<bool, Error>(Error::EmptyList) <==> old(self)@.len() == 0,
            match outcome {
                Ok(updated) => updated && exists|k: int|
                    0 <= k < old(self)@.len() && final(self)@ == old(self)@.update(k, new_value),
                Err(e) => e != Error::IndexOutOfBounds && final(self)@ == old(self)@,
            },
            T::obeys_eq_spec() ==> outcome == search_outcome(old(self)@, *old_value) && final(self)@
                == with_first_replaced(old(self)@, *old_value, new_value),
    {
        if self.head.is_none() {
            return Err(Error::EmptyList);
        }
        match self.locate(old_value) {
            None => Err(Error::ValueNotFound),
            Some((p, k)) => {
                proof {
                    assert(self.linked(k@));
                }
                self.slots[p].as_mut().unwrap().set_value(new_value);
                proof {
                    assert forall|j: int| 0 <= j < self.order@.len() implies #[trigger] self.linked(
                        j,
                    ) by {
                        assert(old(self).linked(j));
                    }
                    assert forall|j: int| 0 <= j < self.free@.len() implies #[trigger] self.spare(
                        j,
                    ) by {
                        assert(old(self).spare(j));
                    }
                    assert forall|j: int| 0 <= j < self.order@.len() implies self.node(
                        self.order@[j] as int,
                    ).value() == old(self)@.update(k@, new_value)[j] by {
                        assert(old(self).linked(j));
                    }
                    assert(self@ =~= old(self)@.update(k@, new_value));
                }
                Ok(true)
            },
        }
    }

    /// Puts `new_value` in place of the first element that equals `old_value`.
    ///
    /// Reports and changes the list as `replace_first` does.
    pub fn update(&mut self, old_value: T, new_value: T) -> (outcome: Result<bool>) where
        T: PartialEq,

        requires
            old(self).wf(),
        ensures
            final(self).wf(),
            outcome == Err::<bool, Error>(Error::EmptyList) <==> old(self)@.len() == 0,
            match outcome {
                Ok(updated) => updated && exists|k: int|
                    0 <= k < old(self)@.len() && final(self)@ == old(self)@.update(k, new_value),
                Err(e) => e != Error::IndexOutOfBounds && final(self)@ == old(self)@,
            },
            T::obeys_eq_spec() ==> outcome == search_outcome(old(self)@, old_value) && final(self)@
                == with_first_replaced(old(self)@, old_value, new_value),
    {
        self.replace_first(&old_value, new_value)
    }

    /// A list of the elements of `values`, in their order.
    pub fn from_vec(values: Vec<T>) -> (list: Self)
        ensures
            list.wf(),
            list@ == values@,
            list@ == appended_all(Seq::empty(), values@),
    {
        let mut list = Self::new();
        let ghost all = values@;
        for value in it: values
            invariant
                list.wf(),
                it.seq() == all,
                list@ == all.take(it.index() as int),
        {
            proof {
                assert(all.take(it.index() as int).push(value) =~= all.take(it.index() + 1));
            }
            list.append(value);
        }
        proof {
            assert(all.take(all.len() as int) =~= all);
            lemma_built_from(all);
        }
        list
    }

    /// Takes the last element off the list and returns it.
    ///
    /// An empty list reports `EmptyList`.
    pub fn pop(&mut self) -> (outcome: Result<Option<T>>)
        requires
            old(self).wf(),
        ensures
            final(self).wf(),
            outcome == pop_outcome(old(self)@),
            final(self)@ == without_last(old(self)@),
    {
        match self.tail {
            None => Err(Error::EmptyList),
            Some(p) => {
                let ghost k = self.order@.len() - 1;
                let value = self.unlink(p, Ghost(k));
                proof {
                    assert(old(self)@.remove(k) =~= old(self)@.drop_last());
                }
                Ok(Some(value))
            },
        }
    }

    /// The element at position `index`, counted from zero, for reading.
    ///
    /// An empty list reports `EmptyList`, whatever the index; a position that
    /// is not below the length reports `IndexOutOfBounds`.
    pub fn get_ref(&self, index: usize) -> (outcome: Result<Option<&T>>)
        requires
            self.wf(),
        ensures
            match outcome {
                Ok(Some(value)) => get_outcome(self@, index as int) == Ok::<Option<T>, Error>(
                    Some(*value),
                ),
                Ok(None) => false,
                Err(e) => get_outcome(self@, index as int) == Err::<Option<T>, Error>(e),
            },
    {
        if self.head.is_none() {
            return Err(Error::EmptyList);
        }
        let mut cur = self.head;
        let mut at: usize = 0;
        loop
            invariant
                self.wf(),
                self@.len() > 0,
                at <= index,
                at <= self@.len(),
                cur == self.slot_at(at as int),
            decreases self@.len() - at,
        {
            match cur {
                None => {
                    return Err(Error::IndexOutOfBounds);
                },
                Some(p) => {
                    proof {
                        assert(self.linked(at as int));
                    }
                    let node = self.slots[p].as_ref().unwrap();
                    if at == index {
                        return Ok(Some(node.get_value()));
                    }
                    cur = *node.get_next();
                    at += 1;
                },
            }
        }
    }

    /// A copy of the element at position `index`, counted from zero.
    ///
    /// Reports as `get_ref` does.
    pub fn get(&self, index: usize) -> (outcome: Result<Option<T>>) where T: Clone
        requires
            self.wf(),
        ensures
            match outcome {
                Ok(Some(value)) => 0 <= index < self@.len() && cloned(self@[index as int], value),
                Ok(None) => false,
                Err(e) => get_outcome(self@, index as int) == Err::<Option<T>, Error>(e),
            },
    {
        match self.get_ref(index) {
            Ok(Some(value)) => Ok(Some(value.clone())),
            Ok(None) => Ok(None),
            Err(e) => Err(e),
        }
    }

    /// The elements in their order, gathered on a walk from the head along the
    /// forward links.
    pub fn values(&self) -> (all: Vec<&T>)
        requires
            self.wf(),
        ensures
            all@.len() == self@.len(),
            forall|i: int| 0 <= i < all@.len() ==> *(#[trigger] all@[i]) == self@[i],
    {
        let mut all: Vec<&T> = Vec::new();
        let mut cur = self.head;
        loop
            invariant
                self.wf(),
                all@.len() <= self@.len(),
                cur == self.slot_at(all@.len() as int),
                forall|i: int| 0 <= i < all@.len() ==> *(#[trigger] all@[i]) == self@[i],
            decreases self@.len() - all@.len(),
        {
            match cur {
                None => {
                    return all;
                },
                Some(p) => {
                    proof {
                        assert(self.linked(all@.len() as int));
                    }
                    let node = self.slots[p].as_ref().unwrap();
                    all.push(node.get_value());
                    cur = *node.get_next();
                },
            }
        }
    }

    /// The elements in reverse order, gathered on a walk from the tail along
    /// the backward links.
    pub fn values_reversed(&self) -> (all: Vec<&T>)
        requires
            self.wf(),
        ensures
            all@.len() == self@.len(),
            forall|i: int|
                0 <= i < all@.len() ==> *(#[trigger] all@[i]) == self@[self@.len() - 1 - i],
    {
        let mut all: Vec<&T> = Vec::new();
        let mut cur = self.tail;
        loop
            invariant
                self.wf(),
                all@.len() <= self@.len(),
                cur == self.slot_at(self@.len() - 1 - all@.len()),
                forall|i: int|
                    0 <= i < all@.len() ==> *(#[trigger] all@[i]) == self@[self@.len() - 1 - i],
            decreases self@.len() - all@.len(),
        {
            match cur {
                None => {
                    return all;
                },
                Some(p) => {
                    proof {
                        assert(self.linked(self@.len() - 1 - all@.len()));
                    }
                    let node = self.slots[p].as_ref().unwrap();
                    all.push(node.get_value());
                    cur = *node.get_previous();
                },
            }
        }
    }

    /// Whether the list holds no element.
    pub fn is_empty(&self) -> (empty: bool)
        requires
            self.wf(),
        ensures
            empty == (self@.len() == 0),
    {
        self.head.is_none()
    }

    /// The number of elements.
    pub fn len(&self) -> (n: usize)
        requires
            self.wf(),
        ensures
            n == self@.len(),
    {
        self.len
    }
}

impl<T> Default for Double<T> {
    /// An empty list.
    fn default() -> (list: Self)
        ensures
            list.wf(),
            list@ == Seq::<T>::empty(),
    {
        Self::new()
    }
}

impl<T: PartialEq + Clone> List<T> for Double<T> {
    open spec fn elements(&self) -> Seq<T> {
        self@
    }

    open spec fn valid(&self) -> bool {
        self.wf()
    }

    fn new() -> (list: Self) {
        Double::new()
    }

    fn insert(&mut self, value: T) {
        self.append(value)
    }

    fn remove(&mut self, value: &T) -> (outcome: types::Result<bool, types::Error<T>>) {
        match self.remove_first(value) {
            Ok(removed) => Ok(removed),
            Err(Error::EmptyList) => Err(types::Error::EmptyList),
            Err(_) => Err(types::Error::ValueNotFound { value: value.clone() }),
        }
    }

    fn search(&self, value: &T) -> (outcome: types::Result<bool, types::Error<T>>) {
        match self.search_for(value) {
            Ok(found) => Ok(found),
            Err(Error::EmptyList) => Err(types::Error::EmptyList),
            Err(_) => Err(types::Error::ValueNotFound { value: value.clone() }),
        }
    }

    fn update(&mut self, old_value: T, new_value: T) -> (outcome: types::Result<
        bool,
        types::Error<T>,
    >) {
        match self.replace_first(&old_value, new_value) {
            Ok(updated) => Ok(updated),
            Err(Error::EmptyList) => Err(types::Error::EmptyList),
            Err(_) => Err(types::Error::ValueNotFound { value: old_value }),
        }
    }

    fn from_vec(values: Vec<T>) -> (list: Self) {
        Double::from_vec(values)
    }

    fn pop(&mut self) -> (last: Option<T>) {
        match Double::pop(self) {
            Ok(last) => last,
            Err(_) => None,
        }
    }

    fn is_empty(&self) -> (empty: bool) {
        Double::is_empty(self)
    }

    fn len(&self) -> (n: usize) {
        Double::len(self)
    }

    fn values(&self) -> (all: Vec<&T>) {
        Double::values(self)
    }

    fn get(&self, index: usize) -> (outcome: types::Result<Option<&T>, types::Error<T>>) {
        match self.get_ref(index) {
            Ok(value) => Ok(value),
            Err(Error::EmptyList) => Err(types::Error::EmptyList),
            Err(_) => Err(types::Error::IndexOutOfBounds { index, max_index: self.len - 1 }),
        }
    }
}

} // verus!
