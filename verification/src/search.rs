//! What a linear search finds: the first position of a sequence whose element
//! equals the value looked for.
//!
//! Equality is that of the element type's `==`. In contracts it is written
//! `eq_spec`, and it is known to be what `==` computes for every type that
//! says so by `obeys_eq_spec`, the integers and `char` among them.

use vstd::prelude::*;
use vstd::std_specs::cmp::PartialEqSpec;

verus! {

/// Some element of `s` equals `v`.
pub open spec fn has_match<T: PartialEq>(s: Seq<T>, v: T) -> bool {
    exists|i: int| 0 <= i < s.len() && (#[trigger] s[i]).eq_spec(&v)
}

/// The element at `i` equals `v`, and no element before it does.
pub open spec fn is_first_match<T: PartialEq>(s: Seq<T>, v: T, i: int) -> bool {
    &&& 0 <= i < s.len()
    &&& s[i].eq_spec(&v)
    &&& forall|j: int| 0 <= j < i ==> !(#[trigger] s[j]).eq_spec(&v)
}

/// The smallest position of `s` whose element equals `v`, if there is one.
pub open spec fn first_match<T: PartialEq>(s: Seq<T>, v: T) -> Option<int> {
    if has_match(s, v) {
        Some(choose|i: int| is_first_match(s, v, i))
    } else {
        None
    }
}

/// A position that holds the first match is what `first_match` names: there
/// is only one such position.
pub proof fn lemma_first_match_is<T: PartialEq>(s: Seq<T>, v: T, i: int)
    requires
        is_first_match(s, v, i),
    ensures
        first_match(s, v) == Some(i),
{
}

/// Where no element equals `v`, `first_match` names no position.
pub proof fn lemma_first_match_none<T: PartialEq>(s: Seq<T>, v: T)
    requires
        forall|j: int| 0 <= j < s.len() ==> !(#[trigger] s[j]).eq_spec(&v),
    ensures
        first_match(s, v).is_none(),
{
}

/// What `first_match` names is in range, equals `v`, and comes before every
/// other element that equals `v`; where it names nothing, no element does.
pub proof fn lemma_first_match_least<T: PartialEq>(s: Seq<T>, v: T)
    ensures
        match first_match(s, v) {
            Some(i) => is_first_match(s, v, i),
            None => forall|j: int| 0 <= j < s.len() ==> !(#[trigger] s[j]).eq_spec(&v),
        },
{
    if has_match(s, v) {
        let w = choose|i: int| 0 <= i < s.len() && (#[trigger] s[i]).eq_spec(&v);
        lemma_some_first_match(s, v, w);
    }
}

/// Below any match there is a first one.
proof fn lemma_some_first_match<T: PartialEq>(s: Seq<T>, v: T, w: int)
    requires
        0 <= w < s.len(),
        s[w].eq_spec(&v),
    ensures
        exists|i: int| is_first_match(s, v, i),
    decreases w,
{
    if exists|j: int| 0 <= j < w && (#[trigger] s[j]).eq_spec(&v) {
        let j = choose|j: int| 0 <= j < w && (#[trigger] s[j]).eq_spec(&v);
        lemma_some_first_match(s, v, j);
    } else {
        assert(is_first_match(s, v, w));
    }
}

} // verus!
