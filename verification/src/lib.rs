//! Verified core of the SPK Type 21 segment decoder and of the data set
//! error and description helpers.

pub mod dataset_error;
pub mod errors;
pub mod extended_modified_diff;
pub mod pretty_print;
