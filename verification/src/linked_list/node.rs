//! The node of a singly linked chain.

use vstd::prelude::*;

verus! {

/// One element of a singly linked chain: a payload and the link to its
/// successor. A node owns everything that can be reached from it, so a chain
/// is always finite and never loops back on itself.
#[derive(PartialEq, Debug)]
pub struct NodeSingle<T: Copy> {
    /// The payload.
    pub data: T,
    /// The successor, absent at the end of the chain.
    pub next: Option<Box<NodeSingle<T>>>,
}

/// The payloads that a link leads to, in order: nothing for an absent link,
/// else the chain of the node behind it.
pub open spec fn chain_of<T: Copy>(link: Option<Box<NodeSingle<T>>>) -> Seq<T> {
    match link {
        None => Seq::empty(),
        Some(node) => node.chain(),
    }
}

impl<T: Copy> NodeSingle<T> {
    /// The payloads from this node to the end of its chain, this node's first.
    pub open spec fn chain(&self) -> Seq<T>
        decreases self,
    {
        match self.next {
            None => seq![self.data],
            Some(rest) => seq![self.data] + rest.chain(),
        }
    }

    /// A node that holds `data` and is followed by `next`.
    pub fn new(data: T, next: Option<Box<Self>>) -> (node: Self)
        ensures
            node.data == data,
            node.next == next,
    {
        Self { data, next }
    }

    /// The payload.
    pub fn get_data(&self) -> (data: &T)
        ensures
            *data == self.data,
    {
        &self.data
    }

    /// Replaces the payload and leaves the successor alone.
    pub fn set_data(&mut self, new_data: T)
        ensures
            final(self).data == new_data,
            final(self).next == old(self).next,
    {
        self.data = new_data;
    }

    /// A shared handle on the successor, if there is one. Any number of such
    /// handles may be held at once; none of them owns the successor.
    pub fn get_next(&self) -> (next: Option<&Self>)
        ensures
            match self.next {
                None => next.is_none(),
                Some(successor) => next == Some(&*successor),
            },
    {
        match &self.next {
            Some(successor) => Some(&**successor),
            None => None,
        }
    }

    /// Rewires the successor and leaves the payload alone. The chain that
    /// followed before is let go of.
    pub fn set_next(&mut self, new_next: Option<Box<Self>>)
        ensures
            final(self).data == old(self).data,
            final(self).next == new_next,
    {
        self.next = new_next;
    }

    /// A chain starts with its node's payload and goes on with what the
    /// successor link leads to.
    pub proof fn lemma_chain_unfolds(&self)
        ensures
            self@ == seq![self.data] + chain_of(self.next),
            self@.len() == 1 + chain_of(self.next).len(),
            self@[0] == self.data,
            self@.skip(1) == chain_of(self.next),
    {
    }
}

/// A node is known by its chain: two nodes with the same payloads in the same
/// order are the same value.
pub proof fn lemma_chain_identifies_node<T: Copy>(a: NodeSingle<T>, b: NodeSingle<T>)
    requires
        a@ == b@,
    ensures
        a == b,
    decreases a,
{
    a.lemma_chain_unfolds();
    b.lemma_chain_unfolds();
    match (a.next, b.next) {
        (Some(rest_a), Some(rest_b)) => {
            lemma_chain_identifies_node(*rest_a, *rest_b);
        },
        _ => {},
    }
}

impl<T: Copy> Drop for NodeSingle<T> {
    /// Lets go of the chain behind the node link by link, so that the release
    /// of a long chain does not pile up on the call stack.
    fn drop(&mut self)
        opens_invariants none
        no_unwind
    {
        let mut link: Option<Box<NodeSingle<T>>> = None;
        core::mem::swap(&mut self.next, &mut link);
        loop
            decreases chain_of(link).len(),
        {
            match link {
                None => {
                    break ;
                },
                Some(mut node) => {
                    let mut rest: Option<Box<NodeSingle<T>>> = None;
                    core::mem::swap(&mut node.next, &mut rest);
                    link = rest;
                },
            }
        }
    }
}

impl<T: Copy> Clone for NodeSingle<T> {
    /// A copy of the node and of the whole chain behind it, built link by
    /// link from the front.
    fn clone(&self) -> (copy: Self)
        ensures
            copy == *self,
    {
        let mut copy = NodeSingle { data: self.data, next: None };
        let mut source: &NodeSingle<T> = self;
        let mut tail: &mut NodeSingle<T> = &mut copy;
        let ghost mut copied: int = 0;
        loop
            invariant
                0 <= copied < self@.len(),
                source@ == self@.skip(copied),
                tail.data == source.data,
                tail.next.is_none(),
                after_borrow(copy)@ == self@.take(copied) + final(tail)@,
            ensures
                self@.take(copied) + tail@ == self@,
            decreases self@.len() - copied,
        {
            proof {
                source.lemma_chain_unfolds();
            }
            match &source.next {
                None => {
                    break ;
                },
                Some(successor) => {
                    source = &**successor;
                    tail.next = Some(Box::new(NodeSingle { data: source.data, next: None }));
                    tail =
                    match &mut tail.next {
                        Some(added) => &mut **added,
                        None => unreached(),
                    };
                    proof {
                        copied = copied + 1;
                    }
                },
            }
        }
        proof {
            lemma_chain_identifies_node(copy, *self);
        }
        copy
    }
}

impl<T: Copy> View for NodeSingle<T> {
    type V = Seq<T>;

    open spec fn view(&self) -> Seq<T> {
        self.chain()
    }
}

} // verus!
