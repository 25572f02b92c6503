//! Oblivious salary benchmarking over the records of three parties.
//!
//! Each party hands in a bounded batch of salary records. The records are
//! merged into one fixed-capacity buffer, sorted by a comparison network
//! whose shape does not depend on the data, and summarised by fixed-offset
//! reads: mean, median, quartiles and mean experience.
pub mod types;
pub mod merge;
pub mod sort;
pub mod stats;
pub mod benchmark;
pub mod callback;
