//! The layout algorithm: from a style tree to a geometry tree.
//!
//! Layout runs in two passes. The first walks the tree bottom-up and
//! gives every node its natural size, the size it takes when nothing
//! outside constrains it. The second walks top-down: a container of known
//! size breaks its children into lines, distributes the free space of each
//! line, aligns the lines and the children in them, and hands every child
//! its final box, inside which the child arranges its own children.

pub mod compute;
pub mod flex;
pub mod item;
pub mod laws;
pub mod line;
pub mod measure;
pub mod place;
pub mod resolve;
pub mod series;
