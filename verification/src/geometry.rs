//! Plain aggregates for positions, extents and edges.

use vstd::prelude::*;

verus! {

/// A position.
#[derive(Copy, Clone, PartialEq, Eq, Debug)]
pub struct Point<T> {
    pub x: T,
    pub y: T,
}

/// An extent along both axes.
#[derive(Copy, Clone, PartialEq, Eq, Debug)]
pub struct Size<T> {
    pub width: T,
    pub height: T,
}

/// One value per edge of a box, in flow order.
#[derive(Copy, Clone, PartialEq, Eq, Debug)]
pub struct Rect<T> {
    pub start: T,
    pub end: T,
    pub top: T,
    pub bottom: T,
}

} // verus!
