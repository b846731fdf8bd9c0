//! A bounded counting sequence that signals its own exhaustion exactly once,
//! a function that hands a fixed message to a caller-supplied closure, and
//! element-wise transformations and sums over vectors of integers.
pub mod bomb;
pub mod closures;
pub mod transforms;
