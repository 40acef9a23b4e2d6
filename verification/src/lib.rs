//! A flexbox layout engine with a verified core.
//!
//! A tree of style records goes in, a tree of sizes and positions of the
//! same shape comes out: [`algorithm::compute::compute`] lays out an owned
//! tree, [`algorithm::compute::compute_layout`] one that crosses a
//! boundary behind [`array::Array`] handles.
//!
//! Every length is a [`fixed::Fixed`], a fixed-point number whose
//! arithmetic saturates, so layout is total: no input overflows, divides
//! by zero or leaves a box without a size. A quantity that cannot be
//! resolved yet is a [`number::Number`] without a value.
//!
//! What the engine computes is stated as mathematical functions of the
//! style tree, and what holds of every layout is proved of those
//! functions in [`algorithm::laws`].

pub mod algorithm;
pub mod array;
pub mod fixed;
pub mod geometry;
pub mod layout;
pub mod number;
pub mod style;
