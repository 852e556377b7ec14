//! A lazy cartesian-product combinator.
//!
//! Two finite sequences of items are materialized into buffers, and every
//! ordered pair is then handed out one at a time, in row-major order: all
//! pairs for the first left-hand item, in right-hand order, before any pair
//! for the second left-hand item, and so on.

pub mod producer;
pub mod product;
