//! The compactor: classification of a partition's files, the filters that
//! decide whether there is work, and the decisions of the driver that runs
//! the rounds.

pub mod changed_files;
pub mod driver;
pub mod file_classification;
pub mod file_classifier;
pub mod partition_filter;
pub mod possible_progress;
pub mod round_info;
pub mod round_split;
