//! Shared heap manager of a multi-domain runtime: large-block allocation,
//! tri-color epoch rotation, incremental sweeping and heap statistics.
pub mod value;
pub mod colors;
pub mod heap;
pub mod sweep;
