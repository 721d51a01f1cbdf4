//! A lazy two-way merge of sorted sources.
//!
//! `MergeIter` pulls from two sources that are each sorted under an ordering
//! policy and hands out their elements as one sorted sequence. Only one element
//! per side is held back at a time. On equal keys the right source goes first.
//! Unsorted sources are not detected: the output is then some interleaving of
//! the two sources, still without losing or inventing an element.

pub mod order;
pub mod source;
pub mod merge;
pub mod laws;

pub use merge::MergeIter;
pub use order::{Natural, Order, Reverse};
pub use source::{collect, Source, VecSource};
