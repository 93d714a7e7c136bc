//! Knapsack: the logic of a small password manager, verified with Verus.
use vstd::prelude::*;

pub mod backup;
pub mod entry;
pub mod generator;
pub mod laws;
pub mod rows;
pub mod sql;
pub mod text;

verus! {
} // verus!
