//! Lazy sequence-transformation adaptors over a pull-based cursor.
//!
//! The crate is organised around [`cursor::Cursor`], a verified pull source
//! over an owned vector, and a family of adaptors that wrap one or more
//! cursors: fan-out ([`tee`]), run-length grouping ([`group_by`]),
//! cartesian product ([`cartesian_product`]), an oscillating index walk
//! ([`pacing_walk`]), and a set of simple single-pass wrappers.
//! Every adaptor states in its contract exactly which elements it yields.

pub mod cursor;

pub mod accumulate;
pub mod cartesian_product;
pub mod clone_each;
pub mod fold;
pub mod group_by;
pub mod indexed;
pub mod intersperse;
pub mod keep_some;
pub mod pacing_walk;
pub mod pad_tail_to;
pub mod round_robin;
pub mod sorted;
pub mod skip_exactly;
pub mod stride;
pub mod take_exactly;
pub mod tee;
pub mod zip_longest;
