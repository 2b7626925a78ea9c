//! Elementary containers with machine-checked contracts.
//!
//! - [`array`]: a fixed-length array with bounds-checked reads and writes and
//!   a linear search.
//! - [`linked_list`]: a singly linked list with positional insert, read,
//!   update, swap and removal, and the node it is made of.
//! - [`search`]: what a linear search finds, shared by both containers.
//! - [`error`]: the failures that the containers report.
//! - [`block`]: a time-stamped record for a chain of blocks.
//!
//! Each container is modelled by the sequence of its elements. Every
//! operation states in its contract what it returns and what it makes of that
//! sequence, and the verifier proves that the code keeps the contract, does
//! not overflow and does not panic.

pub mod array;
pub mod block;
pub mod error;
pub mod linked_list;
pub mod search;
