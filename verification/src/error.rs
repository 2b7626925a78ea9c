//! The failures that the containers report to their callers.
//!
//! Every operation that can fail says so in its result. A failure leaves the
//! container as it was.
//!
//! No failure stands for broken bookkeeping. That a list's count matches its
//! chain, and that every position below a container's length holds an
//! element, is proved of every operation, so a walk can never come to a
//! missing node before it has gone as far as the length allows.

use vstd::prelude::*;

verus! {

/// The storage that a container asked for could not be had: the request was
/// larger than what can be addressed, or the allocator turned it down. Only
/// the construction that asked has failed.
#[derive(Debug, Clone, Copy, PartialEq, Eq, Structural)]
pub struct AllocationError;

/// A position handed to a container lies outside its valid range.
#[derive(Debug, Clone, Copy, PartialEq, Eq, Structural)]
pub struct IndexError;

/// A search went through the whole container and found no element equal to
/// the value looked for.
#[derive(Debug, Clone, Copy, PartialEq, Eq, Structural)]
pub struct NotFoundError;

} // verus!
