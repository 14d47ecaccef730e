//! Key-sorted text for hash maps.
//!
//! A `HashMap` walks its entries in an order that differs from run to run.
//! This crate borrows such a map and lays its entries out by ascending key,
//! in the form `{k1: v1, k2: v2}`, so that the same map always gives the same
//! text. The map stays a `HashMap`; only the reading is sorted.
//!
//! - [`sorted_view`] holds the borrowed view, its sorted keys, entries and
//!   text, and the trait that lends a map out as such a view.
//! - [`order`] says what ascending means for keys and sorts them.
//! - [`text`] gives single keys and values their text.
//! - [`layout`] puts the texts of the entries together.
//! - [`laws`] states what holds of the sorted text of every map.

pub mod laws;
pub mod layout;
pub mod order;
pub mod sorted_view;
pub mod text;

pub use sorted_view::{SortedHashMapDebugOutput, SortedOutputExt};
pub use text::DebugText;
