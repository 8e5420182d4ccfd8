//! Classifies words by whether their characters stand in ascending
//! code-point order, descending order, or neither.

pub mod classify;
pub mod sorting;
