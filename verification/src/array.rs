//! A fixed-length array: storage for a number of elements that is chosen at
//! construction and never changes, with bounds-checked reads and writes and a
//! linear search.
//!
//! The array is modelled by the sequence of its elements. Each operation has
//! a model on sequences, and the operation's contract says that the array
//! follows the model.

use crate::error::{AllocationError, IndexError, NotFoundError};
use crate::search::{
    first_match, lemma_first_match_is, lemma_first_match_least, lemma_first_match_none,
};
use std::collections::TryReserveError;
use vstd::prelude::*;
use vstd::std_specs::cmp::PartialEqSpec;

verus! {

/// What a new array of `length` elements holds: `init_value` in every slot.
pub open spec fn model_new<T>(length: usize, init_value: T) -> Seq<T> {
    Seq::new(length as nat, |i: int| init_value)
}

/// What `get_at` gives on an array that holds `s`.
pub open spec fn model_get_at<T>(s: Seq<T>, i: usize) -> Result<T, IndexError> {
    if i < s.len() {
        Ok(s[i as int])
    } else {
        Err(IndexError)
    }
}

/// What `set_at` makes of an array that holds `s`.
pub open spec fn model_set_at<T>(s: Seq<T>, i: usize, new_value: T) -> Result<Seq<T>, IndexError> {
    if i < s.len() {
        Ok(s.update(i as int, new_value))
    } else {
        Err(IndexError)
    }
}

/// What `index_of` gives on an array that holds `s`: the first position whose
/// element equals `search_value`.
pub open spec fn model_index_of<T: PartialEq>(s: Seq<T>, search_value: T) -> Result<
    usize,
    NotFoundError,
> {
    match first_match(s, search_value) {
        Some(i) => Ok(i as usize),
        None => Err(NotFoundError),
    }
}

/// A block of storage for a fixed number of elements. The storage is released
/// when the array goes out of scope, once.
pub struct Array<T> {
    items: Vec<T>,
}

impl<T> View for Array<T> {
    type V = Seq<T>;

    closed spec fn view(&self) -> Seq<T> {
        self.items@
    }
}

/// Asks the allocator for room for exactly `additional` more elements, by
/// `Vec::try_reserve_exact`. Whether room is granted is the allocator's to
/// say, so nothing is claimed of the answer; the elements that the vector
/// holds stay as they are either way.
#[verifier::external_body]
fn try_reserve_exact<T>(storage: &mut Vec<T>, additional: usize) -> (granted: Result<(), TryReserveError>)
    ensures
        final(storage)@ == old(storage)@,
{
    storage.try_reserve_exact(additional)
}

impl<T: Copy> Array<T> {
    /// An array of `length` elements, each of them `init_value`. An array of
    /// no elements needs no storage and is always had; for any other length
    /// the allocator decides.
    pub fn new(length: usize, init_value: T) -> (r: Result<Self, AllocationError>)
        ensures
            length == 0 ==> r is Ok,
            r matches Ok(array) ==> array@ == model_new(length, init_value),
    {
        Self::from_allocation(Self::alloc_mem(length), length, init_value)
    }

    /// Empty storage with room for `length` elements, or the allocator's
    /// refusal.
    fn alloc_mem(length: usize) -> (allocation: Result<Vec<T>, TryReserveError>)
        ensures
            length == 0 ==> allocation is Ok,
            allocation matches Ok(storage) ==> storage@ == Seq::<T>::empty(),
    {
        let mut storage: Vec<T> = Vec::new();
        if length > 0 {
            match try_reserve_exact(&mut storage, length) {
                Ok(()) => {},
                Err(refusal) => {
                    return Err(refusal);
                },
            }
        }
        Ok(storage)
    }

    /// Adds `length` elements to `storage`, each of them `init_value`.
    fn assign_init_values(storage: &mut Vec<T>, length: usize, init_value: T)
        ensures
            final(storage)@ == old(storage)@ + model_new(length, init_value),
    {
        let mut i: usize = 0;
        while i < length
            invariant
                i <= length,
                storage@ == old(storage)@ + model_new(i, init_value),
            decreases length - i,
        {
            storage.push(init_value);
            i += 1;
        }
    }

    /// Finishes a construction once the request for storage has been
    /// answered. On a grant the array fills that storage, discarding whatever
    /// it held, with `length` copies of `init_value`; on a refusal the
    /// construction fails.
    pub fn from_allocation(
        allocation: Result<Vec<T>, TryReserveError>,
        length: usize,
        init_value: T,
    ) -> (r: Result<Self, AllocationError>)
        ensures
            allocation is Ok ==> (r matches Ok(array) && array@ == model_new(length, init_value)),
            allocation is Err ==> r is Err,
    {
        match allocation {
            Ok(mut items) => {
                items.clear();
                Self::assign_init_values(&mut items, length, init_value);
                Ok(Self { items })
            },
            Err(_) => Err(AllocationError),
        }
    }

    /// The number of elements, fixed at construction.
    pub fn len(&self) -> (length: usize)
        ensures
            length == self@.len(),
    {
        self.items.len()
    }

    /// A read-only view of the element at `i`.
    pub fn get_at(&self, i: usize) -> (r: Result<&T, IndexError>)
        ensures
            match r {
                Ok(value) => model_get_at(self@, i) == Ok::<T, IndexError>(*value),
                Err(e) => model_get_at(self@, i) == Err::<T, IndexError>(e),
            },
    {
        if i >= self.items.len() {
            return Err(IndexError);
        }
        Ok(&self.items[i])
    }

    /// Overwrites the element at `i`; the value that stood there is gone.
    pub fn set_at(&mut self, i: usize, new_value: T) -> (r: Result<(), IndexError>)
        ensures
            match model_set_at(old(self)@, i, new_value) {
                Ok(s) => r is Ok && final(self)@ == s,
                Err(e) => r == Err::<(), IndexError>(e) && final(self)@ == old(self)@,
            },
    {
        if i >= self.items.len() {
            return Err(IndexError);
        }
        self.items[i] = new_value;
        Ok(())
    }
}

impl<T: Copy + PartialEq> Array<T> {
    /// The first position, counting up from 0, whose element equals
    /// `search_value`.
    pub fn index_of(&self, search_value: T) -> (r: Result<usize, NotFoundError>)
        ensures
            r matches Ok(i) ==> i < self@.len(),
            T::obeys_eq_spec() ==> r == model_index_of(self@, search_value),
    {
        let length = self.items.len();
        let mut i: usize = 0;
        while i < length
            invariant
                length == self@.len(),
                i <= length,
                T::obeys_eq_spec() ==> forall|j: int|
                    0 <= j < i ==> !(#[trigger] self@[j]).eq_spec(&search_value),
            decreases length - i,
        {
            if self.items[i] == search_value {
                proof {
                    if T::obeys_eq_spec() {
                        lemma_first_match_is(self@, search_value, i as int);
                    }
                }
                return Ok(i);
            }
            i += 1;
        }
        proof {
            if T::obeys_eq_spec() {
                lemma_first_match_none(self@, search_value);
            }
        }
        Err(NotFoundError)
    }
}

/// A new array has the length asked for, and every position of it reads as
/// the initial value.
pub proof fn lemma_new_then_get<T>(length: usize, init_value: T, i: usize)
    ensures
        model_new(length, init_value).len() == length,
        i < length ==> model_get_at(model_new(length, init_value), i) == Ok::<T, IndexError>(
            init_value,
        ),
{
}

/// At or behind the length, a read and a write both fail, and they fail
/// nowhere else.
pub proof fn lemma_out_of_range_fails<T>(s: Seq<T>, i: usize, new_value: T)
    ensures
        i >= s.len() <==> model_get_at(s, i) == Err::<T, IndexError>(IndexError),
        i >= s.len() <==> model_set_at(s, i, new_value) == Err::<Seq<T>, IndexError>(IndexError),
{
}

/// A write is read back at its position, changes no other position, and
/// keeps the length.
pub proof fn lemma_set_then_get<T>(s: Seq<T>, i: usize, new_value: T, k: usize)
    requires
        i < s.len(),
    ensures
        model_set_at(s, i, new_value) matches Ok(t) && {
            &&& t.len() == s.len()
            &&& model_get_at(t, i) == Ok::<T, IndexError>(new_value)
            &&& k != i ==> model_get_at(t, k) == model_get_at(s, k)
        },
{
}

/// A search gives the smallest position whose element equals the value
/// looked for, whatever writes have led to the contents searched, and fails
/// exactly when no element equals it.
pub proof fn lemma_index_of_is_smallest<T: PartialEq>(s: Seq<T>, search_value: T)
    requires
        s.len() <= usize::MAX,
    ensures
        match model_index_of(s, search_value) {
            Ok(i) => {
                &&& i < s.len()
                &&& s[i as int].eq_spec(&search_value)
                &&& forall|j: int| 0 <= j < i ==> !(#[trigger] s[j]).eq_spec(&search_value)
            },
            Err(e) => {
                &&& e == NotFoundError
                &&& forall|j: int| 0 <= j < s.len() ==> !(#[trigger] s[j]).eq_spec(&search_value)
            },
        },
{
    lemma_first_match_least(s, search_value);
}

/// Right after a write of a value that equals itself, a search for that value
/// succeeds, at the position written or before it.
pub proof fn lemma_index_of_after_set_at<T: PartialEq>(s: Seq<T>, i: usize, new_value: T)
    requires
        i < s.len(),
        s.len() <= usize::MAX,
        new_value.eq_spec(&new_value),
    ensures
        model_set_at(s, i, new_value) matches Ok(t) && model_index_of(t, new_value) matches Ok(
            found,
        ) && found <= i,
{
    let t = s.update(i as int, new_value);
    assert(t[i as int].eq_spec(&new_value));
    lemma_first_match_least(t, new_value);
}

} // verus!
