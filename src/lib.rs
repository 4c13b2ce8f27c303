//! Deterministic data and predicate building blocks for exercising join
//! operators, with the decisions of a partitioned join driver and an
//! order-insensitive comparison of rendered results.

pub mod generators;
pub mod random;
pub mod sorting;
pub mod dataset;
pub mod predicate;
pub mod partition;
pub mod compare;
