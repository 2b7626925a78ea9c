//! A singly linked list with positional insert, read, update, swap and
//! removal.
//!
//! The list is modelled by the sequence of its payloads, first node first.
//! Each operation has a model on sequences, and the operation's contract says
//! that the list follows the model.

use crate::error::IndexError;
use crate::linked_list::node::{chain_of, NodeSingle};
use crate::search::{first_match, lemma_first_match_is, lemma_first_match_none};
use vstd::prelude::*;
use vstd::std_specs::cmp::PartialEqSpec;

pub mod node;

verus! {

/// What `read_at` gives on a list that holds `s`.
pub open spec fn model_read_at<T>(s: Seq<T>, i: usize) -> Result<T, IndexError> {
    if i < s.len() {
        Ok(s[i as int])
    } else {
        Err(IndexError)
    }
}

/// What `index_of` gives on a list that holds `s`: the first position whose
/// payload equals `v`.
pub open spec fn model_index_of<T: PartialEq>(s: Seq<T>, v: T) -> Option<usize> {
    match first_match(s, v) {
        Some(i) => Some(i as usize),
        None => None,
    }
}

/// What `push` makes of a list that holds `s`.
pub open spec fn model_push<T>(s: Seq<T>, v: T) -> Seq<T> {
    s.insert(0, v)
}

/// What `append` makes of a list that holds `s`.
pub open spec fn model_append<T>(s: Seq<T>, v: T) -> Seq<T> {
    s.push(v)
}

/// What `insert_after` makes of a list that holds `s`: the new value comes to
/// stand right behind position `i`, which must exist.
pub open spec fn model_insert_after<T>(s: Seq<T>, v: T, i: usize) -> Result<Seq<T>, IndexError> {
    if i < s.len() {
        Ok(s.insert(i + 1, v))
    } else {
        Err(IndexError)
    }
}

/// What `insert` makes of a list that holds `s`: without a position the value
/// goes to the end, with a position `k` it comes to stand at `k`, which may be
/// any position of the list or the one just behind its end.
pub open spec fn model_insert<T>(s: Seq<T>, v: T, index: Option<usize>) -> Result<
    Seq<T>,
    IndexError,
> {
    match index {
        None => Ok(s.push(v)),
        Some(k) => if k <= s.len() {
            Ok(s.insert(k as int, v))
        } else {
            Err(IndexError)
        },
    }
}

/// What `update_at` makes of a list that holds `s`.
pub open spec fn model_update_at<T>(s: Seq<T>, v: T, i: usize) -> Result<Seq<T>, IndexError> {
    if i < s.len() {
        Ok(s.update(i as int, v))
    } else {
        Err(IndexError)
    }
}

/// What `swap_at` makes of a list that holds `s`.
pub open spec fn model_swap_at<T>(s: Seq<T>, i: usize, j: usize) -> Result<Seq<T>, IndexError> {
    if i < s.len() && j < s.len() {
        Ok(s.update(i as int, s[j as int]).update(j as int, s[i as int]))
    } else {
        Err(IndexError)
    }
}

/// What `remove_at` makes of a list that holds `s`.
pub open spec fn model_remove_at<T>(s: Seq<T>, i: usize) -> Result<Seq<T>, IndexError> {
    if i < s.len() {
        Ok(s.remove(i as int))
    } else {
        Err(IndexError)
    }
}

/// What a list that holds `s` comes to hold when `insert` is called without a
/// position for each of `values` in turn.
pub open spec fn model_insert_all<T>(s: Seq<T>, values: Seq<T>) -> Seq<T>
    decreases values.len(),
{
    if values.len() == 0 {
        s
    } else {
        match model_insert(model_insert_all(s, values.drop_last()), values.last(), None) {
            Ok(t) => t,
            Err(_) => s,
        }
    }
}

/// A singly linked list. It owns its first node, and through it the whole
/// chain, and keeps count of the nodes.
pub struct LinkedList<T: Copy> {
    /// The first node, absent in an empty list.
    head: Option<Box<NodeSingle<T>>>,
    /// The number of nodes in the chain.
    length: usize,
}

impl<T: Copy> View for LinkedList<T> {
    type V = Seq<T>;

    closed spec fn view(&self) -> Seq<T> {
        chain_of(self.head)
    }
}

/// Walks `i` links on from `node` and hands out the node reached, for writing.
/// Whatever the caller then makes of that node and of what follows it, the
/// `i` nodes walked over stay as they were.
fn node_at_mut<T: Copy>(node: &mut NodeSingle<T>, i: usize) -> (reached: &mut NodeSingle<T>)
    requires
        i < old(node)@.len(),
    ensures
        reached@ == old(node)@.skip(i as int),
        final(node)@ == old(node)@.take(i as int) + final(reached)@,
{
    let mut cur_node = node;
    let mut counter: usize = 0;
    while counter < i
        invariant
            counter <= i < old(node)@.len(),
            cur_node@ == old(node)@.skip(counter as int),
            final(node)@ == old(node)@.take(counter as int) + final(cur_node)@,
        decreases i - counter,
    {
        proof {
            cur_node.lemma_chain_unfolds();
        }
        cur_node =
        match &mut cur_node.next {
            Some(successor) => &mut **successor,
            None => unreached(),
        };
        counter += 1;
    }
    cur_node
}

impl<T: Copy> LinkedList<T> {
    /// The count always matches the chain.
    #[verifier::type_invariant]
    spec fn well_formed(self) -> bool {
        self.length == chain_of(self.head).len()
    }

    /// An empty list.
    pub fn new() -> (list: Self)
        ensures
            list@ == Seq::<T>::empty(),
    {
        Self { head: None, length: 0 }
    }

    /// The number of elements.
    pub fn len(&self) -> (length: usize)
        ensures
            length == self@.len(),
    {
        proof {
            use_type_invariant(&*self);
        }
        self.length
    }

    /// A shared handle on the first node, absent exactly when the list is
    /// empty. The chain of that node is the whole list.
    pub fn head(&self) -> (head: Option<&NodeSingle<T>>)
        ensures
            self@.len() == 0 <==> head.is_none(),
            head matches Some(node) ==> node@ == self@,
    {
        match &self.head {
            Some(node) => Some(&**node),
            None => None,
        }
    }

    /// A shared handle on the node at position `i`: the node reached from the
    /// head by following `i` links. Its chain is the list from `i` on.
    pub fn get_node_at(&self, i: usize) -> (r: Result<Option<&NodeSingle<T>>, IndexError>)
        ensures
            i < self@.len() ==> (r matches Ok(Some(node)) && node@ == self@.skip(i as int)),
            i >= self@.len() ==> r == Err::<Option<&NodeSingle<T>>, IndexError>(IndexError),
    {
        proof {
            use_type_invariant(&*self);
        }
        if i >= self.length {
            return Err(IndexError);
        }
        let mut cur_node: &NodeSingle<T> = match &self.head {
            Some(node) => &**node,
            None => unreached(),
        };
        let mut counter: usize = 0;
        while counter < i
            invariant
                counter <= i < self@.len(),
                cur_node@ == self@.skip(counter as int),
            decreases i - counter,
        {
            proof {
                assert(self@.skip(counter as int).skip(1) =~= self@.skip(counter + 1));
            }
            cur_node =
            match &cur_node.next {
                Some(node) => &**node,
                None => unreached(),
            };
            counter += 1;
        }
        Ok(Some(cur_node))
    }

    /// Takes the chain and its count out of the list, which is left empty.
    fn take_chain(&mut self) -> (parts: (Option<Box<NodeSingle<T>>>, usize))
        ensures
            final(self)@ == Seq::<T>::empty(),
            chain_of(parts.0) == old(self)@,
            parts.1 == old(self)@.len(),
    {
        proof {
            use_type_invariant(&*self);
        }
        let mut taken = Self::new();
        core::mem::swap(self, &mut taken);
        let LinkedList { head, length } = taken;
        (head, length)
    }

    /// Puts a new node in front of the list; the node that was first, if any,
    /// becomes its successor.
    pub fn push(&mut self, new_data: T) -> (r: Result<(), IndexError>)
        requires
            old(self)@.len() < usize::MAX,
        ensures
            r is Ok,
            final(self)@ == model_push(old(self)@, new_data),
    {
        let (head, length) = self.take_chain();
        let new_head = NodeSingle::new(new_data, head);
        *self = LinkedList { head: Some(Box::new(new_head)), length: length + 1 };
        Ok(())
    }

    /// Puts a new node behind the last one, or makes it the head of an empty
    /// list.
    pub fn append(&mut self, new_data: T) -> (r: Result<(), IndexError>)
        requires
            old(self)@.len() < usize::MAX,
        ensures
            r is Ok,
            final(self)@ == model_append(old(self)@, new_data),
    {
        let (mut head, length) = self.take_chain();
        match &mut head {
            None => {
                *self = LinkedList { head, length };
                self.push(new_data)
            },
            Some(first) => {
                let cur_tail = node_at_mut(&mut **first, length - 1);
                proof {
                    cur_tail.lemma_chain_unfolds();
                }
                let new_tail = NodeSingle::new(new_data, None);
                cur_tail.set_next(Some(Box::new(new_tail)));
                proof {
                    new_tail.lemma_chain_unfolds();
                }
                *self = LinkedList { head, length: length + 1 };
                Ok(())
            },
        }
    }

    /// Puts a new node right behind the node at position `i`. An empty list
    /// has no such node, so there the call fails.
    pub fn insert_after(&mut self, new_data: T, i: usize) -> (r: Result<(), IndexError>)
        requires
            old(self)@.len() < usize::MAX,
        ensures
            match model_insert_after(old(self)@, new_data, i) {
                Ok(s) => r is Ok && final(self)@ == s,
                Err(e) => r == Err::<(), IndexError>(e) && final(self)@ == old(self)@,
            },
    {
        let length = self.len();
        if i >= length {
            Err(IndexError)
        } else if i == length - 1 {
            self.append(new_data)
        } else {
            let (mut head, length) = self.take_chain();
            match &mut head {
                None => unreached(),
                Some(first) => {
                    let cur_node = node_at_mut(&mut **first, i);
                    proof {
                        cur_node.lemma_chain_unfolds();
                    }
                    let successor = cur_node.next.take();
                    let new_node = NodeSingle::new(new_data, successor);
                    cur_node.set_next(Some(Box::new(new_node)));
                    proof {
                        new_node.lemma_chain_unfolds();
                    }
                },
            }
            *self = LinkedList { head, length: length + 1 };
            Ok(())
        }
    }

    /// Puts a new node at position `index`, or at the end where no position is
    /// given. Every position of the list may be named and the one just behind
    /// its end; any other is refused and the list stays as it is.
    pub fn insert(&mut self, value: T, index: Option<usize>) -> (r: Result<(), IndexError>)
        requires
            old(self)@.len() < usize::MAX,
        ensures
            match model_insert(old(self)@, value, index) {
                Ok(s) => r is Ok && final(self)@ == s,
                Err(e) => r == Err::<(), IndexError>(e) && final(self)@ == old(self)@,
            },
    {
        match index {
            None => self.append(value),
            Some(k) => {
                if k == 0 {
                    self.push(value)
                } else {
                    self.insert_after(value, k - 1)
                }
            },
        }
    }

    /// A copy of the payload at position `i`.
    pub fn read_at(&self, i: usize) -> (r: Result<T, IndexError>)
        ensures
            r == model_read_at(self@, i),
    {
        match self.get_node_at(i) {
            Ok(Some(node)) => {
                proof {
                    node.lemma_chain_unfolds();
                }
                Ok(*node.get_data())
            },
            Ok(None) => unreached(),
            Err(e) => Err(e),
        }
    }

    /// Replaces the payload at position `i`. Neither the links nor the count
    /// change.
    pub fn update_at(&mut self, new_data: T, i: usize) -> (r: Result<(), IndexError>)
        ensures
            match model_update_at(old(self)@, new_data, i) {
                Ok(s) => r is Ok && final(self)@ == s,
                Err(e) => r == Err::<(), IndexError>(e) && final(self)@ == old(self)@,
            },
    {
        if i >= self.len() {
            return Err(IndexError);
        }
        let (mut head, length) = self.take_chain();
        match &mut head {
            None => unreached(),
            Some(first) => {
                let node = node_at_mut(&mut **first, i);
                proof {
                    node.lemma_chain_unfolds();
                }
                node.set_data(new_data);
            },
        }
        *self = LinkedList { head, length };
        Ok(())
    }

    /// Exchanges the payloads at positions `i` and `j`. The nodes stay where
    /// they are. With `i == j` nothing changes.
    pub fn swap_at(&mut self, i_ref: usize, i_tgt: usize) -> (r: Result<(), IndexError>)
        ensures
            match model_swap_at(old(self)@, i_ref, i_tgt) {
                Ok(s) => r is Ok && final(self)@ == s,
                Err(e) => r == Err::<(), IndexError>(e) && final(self)@ == old(self)@,
            },
    {
        let length = self.len();
        if i_ref >= length || i_tgt >= length {
            return Err(IndexError);
        }
        let data_ref = match self.read_at(i_ref) {
            Ok(data) => data,
            Err(_) => unreached(),
        };
        let data_tgt = match self.read_at(i_tgt) {
            Ok(data) => data,
            Err(_) => unreached(),
        };
        let _ = self.update_at(data_tgt, i_ref);
        self.update_at(data_ref, i_tgt)
    }

    /// Takes the node at position `i` out of the chain: its predecessor, or
    /// the list itself for the first node, is linked to its successor.
    pub fn remove_at(&mut self, i: usize) -> (r: Result<(), IndexError>)
        ensures
            match model_remove_at(old(self)@, i) {
                Ok(s) => r is Ok && final(self)@ == s,
                Err(e) => r == Err::<(), IndexError>(e) && final(self)@ == old(self)@,
            },
    {
        if i >= self.len() {
            return Err(IndexError);
        }
        let (mut head, length) = self.take_chain();
        if i == 0 {
            let mut removed = match head {
                Some(first) => first,
                None => unreached(),
            };
            *self = LinkedList { head: removed.next.take(), length: length - 1 };
        } else {
            match &mut head {
                None => unreached(),
                Some(first) => {
                    let previous = node_at_mut(&mut **first, i - 1);
                    proof {
                        previous.lemma_chain_unfolds();
                    }
                    let mut removed = match previous.next.take() {
                        Some(node) => node,
                        None => unreached(),
                    };
                    proof {
                        removed.lemma_chain_unfolds();
                    }
                    previous.set_next(removed.next.take());
                },
            }
            *self = LinkedList { head, length: length - 1 };
        }
        Ok(())
    }
}

impl<T: Copy + PartialEq> LinkedList<T> {
    /// The position of the first node whose payload equals `data`, found by
    /// walking the chain from the head.
    pub fn index_of(&self, data: T) -> (r: Option<usize>)
        ensures
            r matches Some(i) ==> i < self@.len(),
            T::obeys_eq_spec() ==> r == model_index_of(self@, data),
    {
        let length = self.len();
        let mut cur_node: Option<&NodeSingle<T>> = self.head();
        let mut counter: usize = 0;
        while counter < length
            invariant
                length == self@.len(),
                counter <= length,
                counter < length ==> (cur_node matches Some(node) && node@ == self@.skip(counter as int)),
                T::obeys_eq_spec() ==> forall|j: int|
                    0 <= j < counter ==> !(#[trigger] self@[j]).eq_spec(&data),
            decreases length - counter,
        {
            let node = match cur_node {
                Some(node) => node,
                None => unreached(),
            };
            proof {
                node.lemma_chain_unfolds();
            }
            if *node.get_data() == data {
                proof {
                    if T::obeys_eq_spec() {
                        lemma_first_match_is(self@, data, counter as int);
                    }
                }
                return Some(counter);
            }
            cur_node = node.get_next();
            counter += 1;
        }
        proof {
            if T::obeys_eq_spec() {
                lemma_first_match_none(self@, data);
            }
        }
        None
    }
}

/// Without a position `insert` appends, which is to insert at the position
/// just behind the end; at position 0 it does what `push` does, and at any
/// later position what `insert_after` does for the position before.
pub proof fn lemma_insert_cases<T>(s: Seq<T>, v: T, k: usize)
    requires
        s.len() <= usize::MAX,
    ensures
        model_insert(s, v, None) == Ok::<Seq<T>, IndexError>(model_append(s, v)),
        model_insert(s, v, None) == model_insert(s, v, Some(s.len() as usize)),
        model_insert(s, v, Some(0)) == Ok::<Seq<T>, IndexError>(model_push(s, v)),
        k > 0 ==> model_insert(s, v, Some(k)) == model_insert_after(s, v, (k - 1) as usize),
{
    assert(s.push(v) =~= s.insert(s.len() as int, v));
}

/// In a list built from nothing by appending `values` one by one, each value
/// is read back at the position at which it was appended, and the position
/// behind the last one is out of range.
pub proof fn lemma_appended_values_read_back<T>(values: Seq<T>, k: usize)
    ensures
        model_insert_all(Seq::empty(), values) == values,
        k < values.len() ==> model_read_at(model_insert_all(Seq::empty(), values), k) == Ok::<
            T,
            IndexError,
        >(values[k as int]),
        k >= values.len() ==> model_read_at(model_insert_all(Seq::empty(), values), k) == Err::<
            T,
            IndexError,
        >(IndexError),
    decreases values.len(),
{
    if values.len() > 0 {
        lemma_appended_values_read_back(values.drop_last(), k);
    } else {
    }
}

/// Inserting at the front makes the value the first element, moves every
/// element that was there one position back, and makes the list longer by
/// exactly one.
pub proof fn lemma_insert_front_shifts<T>(s: Seq<T>, v: T, j: usize)
    requires
        s.len() < usize::MAX,
    ensures
        model_insert(s, v, Some(0)) matches Ok(t) && {
            &&& t.len() == s.len() + 1
            &&& model_read_at(t, 0) == Ok::<T, IndexError>(v)
            &&& j < s.len() ==> model_read_at(t, (j + 1) as usize) == model_read_at(s, j)
        },
{
}

/// An insertion behind the position just after the end is refused and names
/// no new contents.
pub proof fn lemma_insert_out_of_range<T>(s: Seq<T>, v: T, k: usize)
    requires
        k > s.len(),
    ensures
        model_insert(s, v, Some(k)) == Err::<Seq<T>, IndexError>(IndexError),
{
}

/// After a removal at `k` the list is shorter by exactly one, a read at `k`
/// gives what stood at `k + 1`, or is out of range where `k` was the last
/// position, and the elements before `k` are where they were.
pub proof fn lemma_remove_then_read<T>(s: Seq<T>, k: usize, j: usize)
    requires
        k < s.len(),
        s.len() <= usize::MAX,
    ensures
        model_remove_at(s, k) matches Ok(t) && {
            &&& t.len() == s.len() - 1
            &&& k + 1 < s.len() ==> model_read_at(t, k) == model_read_at(s, (k + 1) as usize)
            &&& k + 1 == s.len() ==> model_read_at(t, k) == Err::<T, IndexError>(IndexError)
            &&& j < k ==> model_read_at(t, j) == model_read_at(s, j)
            &&& k <= j && j + 1 < s.len() ==> model_read_at(t, j) == model_read_at(
                s,
                (j + 1) as usize,
            )
        },
{
}

/// Swapping the same two positions twice gives back the list as it was.
pub proof fn lemma_swap_twice_restores<T>(s: Seq<T>, i: usize, j: usize)
    requires
        i < s.len(),
        j < s.len(),
    ensures
        model_swap_at(s, i, j) matches Ok(t) && model_swap_at(t, i, j) == Ok::<
            Seq<T>,
            IndexError,
        >(s),
{
    let t = s.update(i as int, s[j as int]).update(j as int, s[i as int]);
    assert(t.update(i as int, t[j as int]).update(j as int, t[i as int]) =~= s);
}

/// Swapping a position with itself changes nothing.
pub proof fn lemma_swap_same_is_noop<T>(s: Seq<T>, i: usize)
    requires
        i < s.len(),
    ensures
        model_swap_at(s, i, i) == Ok::<Seq<T>, IndexError>(s),
{
    assert(s.update(i as int, s[i as int]).update(i as int, s[i as int]) =~= s);
}

/// A swap puts at each of the two positions what stood at the other and
/// leaves every other position alone.
pub proof fn lemma_swap_exchanges<T>(s: Seq<T>, i: usize, j: usize, k: usize)
    requires
        i < s.len(),
        j < s.len(),
    ensures
        model_swap_at(s, i, j) matches Ok(t) && {
            &&& t.len() == s.len()
            &&& model_read_at(t, i) == model_read_at(s, j)
            &&& model_read_at(t, j) == model_read_at(s, i)
            &&& k != i && k != j ==> model_read_at(t, k) == model_read_at(s, k)
        },
{
}

/// An update is read back at its position and changes no other.
pub proof fn lemma_update_then_read<T>(s: Seq<T>, v: T, i: usize, k: usize)
    requires
        i < s.len(),
    ensures
        model_update_at(s, v, i) matches Ok(t) && {
            &&& t.len() == s.len()
            &&& model_read_at(t, i) == Ok::<T, IndexError>(v)
            &&& k != i ==> model_read_at(t, k) == model_read_at(s, k)
        },
{
}

} // verus!
