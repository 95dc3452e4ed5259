//! Aggregation of recipe ingredient quantities into shopping-list totals.
//!
//! Quantities observed for one ingredient are bucketed by unit label and
//! value kind; buckets with the same key are merged additively.  Magnitudes
//! are fixed-point integers: the caller picks one scale (the tests use
//! thousandths of a unit) and every magnitude is a count at that scale.

pub mod assoc;
pub mod model;
pub mod quantity;
pub mod list;
pub mod metadata;
pub mod aisle;
pub mod recipe;
