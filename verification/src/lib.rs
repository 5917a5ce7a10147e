//! Small verified building blocks of a tour of Rust ownership and concurrency:
//! shared counters, unique ids, banners, and a handful of numeric folds.

pub mod config;
pub mod counter;
pub mod foo;
pub mod ownership;
pub mod sums;
pub mod tensor;
pub mod text;
pub mod timing;
pub mod trees;
