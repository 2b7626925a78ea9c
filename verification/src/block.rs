//! A block of a chain: a payload together with its place in the chain, the
//! time at which it was built, a proof number and the hash of the block
//! before it.

use vstd::prelude::*;

verus! {

/// One block of a chain.
pub struct Block<T> {
    /// The block's place in the chain, counted from 0.
    pub index: usize,
    /// When the block was built, in seconds since the Unix epoch.
    pub timestamp: i64,
    /// The proof number found for the block.
    pub proof_number: u64,
    /// The hash of the block before this one.
    pub prev_hash: u64,
    /// The payload.
    pub data: T,
}

/// Reads the system clock, by `chrono::Utc::now`, and gives the seconds since
/// the Unix epoch that `DateTime::timestamp` counts. The value is the
/// clock's, so nothing is claimed of it. A clock that stands before the
/// epoch, or further behind it than `chrono` can count, makes `chrono` panic.
#[verifier::external_body]
fn current_timestamp() -> (seconds: i64) {
    chrono::Utc::now().timestamp()
}

impl<T> Block<T> {
    /// A block built now: its time is read from the system clock, everything
    /// else is as given.
    pub fn build(index: usize, proof_number: u64, prev_hash: u64, data: T) -> (block: Self)
        ensures
            block.index == index,
            block.proof_number == proof_number,
            block.prev_hash == prev_hash,
            block.data == data,
    {
        Self::build_at(index, current_timestamp(), proof_number, prev_hash, data)
    }

    /// A block built at the given time.
    pub fn build_at(
        index: usize,
        timestamp: i64,
        proof_number: u64,
        prev_hash: u64,
        data: T,
    ) -> (block: Self)
        ensures
            block.index == index,
            block.timestamp == timestamp,
            block.proof_number == proof_number,
            block.prev_hash == prev_hash,
            block.data == data,
    {
        Self { index, timestamp, proof_number, prev_hash, data }
    }
}

} // verus!
