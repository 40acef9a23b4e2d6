//! Resolution of dimensions against a containing box, and the two axes.

use crate::fixed::Fixed;
use crate::geometry::{Point, Rect, Size};
use crate::number::Number;
use crate::style::{Dimension, FlexDirection, Style};
use vstd::prelude::*;

verus! {

/// The zero length.
pub open spec fn zero() -> Fixed {
    Fixed { raw: 0 }
}

/// The component of `size` along the main axis.
pub open spec fn main_of_spec<T: Copy>(size: Size<T>, direction: FlexDirection) -> T {
    if direction.is_row() {
        size.width
    } else {
        size.height
    }
}

/// The component of `size` along the main axis.
#[verifier::when_used_as_spec(main_of_spec)]
pub fn main_of<T: Copy>(size: Size<T>, direction: FlexDirection) -> (r: T)
    ensures
        r == main_of_spec(size, direction),
{
    if direction.is_row() {
        size.width
    } else {
        size.height
    }
}

/// The component of `size` along the cross axis.
pub open spec fn cross_of_spec<T: Copy>(size: Size<T>, direction: FlexDirection) -> T {
    if direction.is_row() {
        size.height
    } else {
        size.width
    }
}

/// The component of `size` along the cross axis.
#[verifier::when_used_as_spec(cross_of_spec)]
pub fn cross_of<T: Copy>(size: Size<T>, direction: FlexDirection) -> (r: T)
    ensures
        r == cross_of_spec(size, direction),
{
    if direction.is_row() {
        size.height
    } else {
        size.width
    }
}

/// The size with the given extents along the main and the cross axis.
pub open spec fn oriented_size_spec<T: Copy>(direction: FlexDirection, main: T, cross: T) -> Size<T> {
    if direction.is_row() {
        Size { width: main, height: cross }
    } else {
        Size { width: cross, height: main }
    }
}

/// The size with the given extents along the main and the cross axis.
#[verifier::when_used_as_spec(oriented_size_spec)]
pub fn oriented_size<T: Copy>(direction: FlexDirection, main: T, cross: T) -> (r: Size<T>)
    ensures
        r == oriented_size_spec(direction, main, cross),
{
    if direction.is_row() {
        Size { width: main, height: cross }
    } else {
        Size { width: cross, height: main }
    }
}

/// The point with the given offsets along the main and the cross axis.
pub open spec fn oriented_point_spec<T: Copy>(direction: FlexDirection, main: T, cross: T) -> Point<T> {
    if direction.is_row() {
        Point { x: main, y: cross }
    } else {
        Point { x: cross, y: main }
    }
}

/// The point with the given offsets along the main and the cross axis.
#[verifier::when_used_as_spec(oriented_point_spec)]
pub fn oriented_point<T: Copy>(direction: FlexDirection, main: T, cross: T) -> (r: Point<T>)
    ensures
        r == oriented_point_spec(direction, main, cross),
{
    if direction.is_row() {
        Point { x: main, y: cross }
    } else {
        Point { x: cross, y: main }
    }
}

/// The width of an edge: the dimension resolved against `basis`, zero
/// where it resolves to nothing.
pub open spec fn edge_spec(dimension: Dimension, basis: Number) -> Fixed {
    dimension.resolve(basis).or_else(zero())
}

/// The width of an edge.
#[verifier::when_used_as_spec(edge_spec)]
pub fn edge(dimension: Dimension, basis: Number) -> (r: Fixed)
    ensures
        r == edge_spec(dimension, basis),
{
    dimension.resolve(basis).or_else(Fixed::zero())
}

/// All four edges, each resolved against `basis`.
pub open spec fn edges_spec(rect: Rect<Dimension>, basis: Number) -> Rect<Fixed> {
    Rect {
        start: edge(rect.start, basis),
        end: edge(rect.end, basis),
        top: edge(rect.top, basis),
        bottom: edge(rect.bottom, basis),
    }
}

/// All four edges, each resolved against `basis`.
#[verifier::when_used_as_spec(edges_spec)]
pub fn edges(rect: Rect<Dimension>, basis: Number) -> (r: Rect<Fixed>)
    ensures
        r == edges_spec(rect, basis),
{
    Rect {
        start: edge(rect.start, basis),
        end: edge(rect.end, basis),
        top: edge(rect.top, basis),
        bottom: edge(rect.bottom, basis),
    }
}

/// `value` held between `min` and `max` where they are defined, and never
/// below zero. Where the two limits contradict each other `min` wins.
pub open spec fn bounded_spec(value: Fixed, min: Number, max: Number) -> Fixed {
    Number::Defined(value).maybe_min(max).maybe_max(min).or_else(value).max_spec(zero())
}

/// `value` held between `min` and `max` where they are defined, and never
/// below zero.
#[verifier::when_used_as_spec(bounded_spec)]
pub fn bounded(value: Fixed, min: Number, max: Number) -> (r: Fixed)
    ensures
        r == bounded_spec(value, min, max),
{
    Number::Defined(value).maybe_min(max).maybe_max(min).or_else(value).max(Fixed::zero())
}

/// A bounded value respects its lower limit always, and its upper limit
/// where the limits allow.
pub proof fn lemma_bounded(value: Fixed, min: Number, max: Number)
    ensures
        bounded(value, min, max).raw >= 0,
        min matches Number::Defined(lo) ==> bounded(value, min, max).raw >= lo.raw,
        max matches Number::Defined(hi) ==> (min matches Number::Defined(lo) ==> lo.raw <= hi.raw)
            && hi.raw >= 0 ==> bounded(value, min, max).raw <= hi.raw,
        min is Undefined && max is Undefined && value.raw >= 0 ==> bounded(value, min, max) == value,
{
}

/// What is left of `size` inside the padding and the border of a box,
/// both of which resolve against the width `containing` of the box that
/// holds it. Never negative.
pub open spec fn content_box_spec(style: Style, size: Size<Fixed>, containing: Number) -> Size<Fixed> {
    let padding = edges(style.padding, containing);
    let border = edges(style.border, containing);
    Size {
        width: size.width.spec_sub(padding.start).spec_sub(padding.end).spec_sub(border.start).spec_sub(
            border.end,
        ).max_spec(zero()),
        height: size.height.spec_sub(padding.top).spec_sub(padding.bottom).spec_sub(border.top).spec_sub(
            border.bottom,
        ).max_spec(zero()),
    }
}

/// What is left of `size` inside the padding and the border of a box.
pub fn content_box(style: &Style, size: Size<Fixed>, containing: Number) -> (r: Size<Fixed>)
    ensures
        r == content_box_spec(*style, size, containing),
{
    let padding = edges(style.padding, containing);
    let border = edges(style.border, containing);
    Size {
        width: (size.width - padding.start - padding.end - border.start - border.end).max(Fixed::zero()),
        height: (size.height - padding.top - padding.bottom - border.top - border.bottom).max(
            Fixed::zero(),
        ),
    }
}

/// A content size grown by the padding and the border around it.
pub open spec fn border_box_spec(style: Style, content: Size<Fixed>, containing: Number) -> Size<Fixed> {
    let padding = edges(style.padding, containing);
    let border = edges(style.border, containing);
    Size {
        width: content.width.spec_add(padding.start).spec_add(padding.end).spec_add(border.start).spec_add(
            border.end,
        ),
        height: content.height.spec_add(padding.top).spec_add(padding.bottom).spec_add(
            border.top,
        ).spec_add(border.bottom),
    }
}

/// A content size grown by the padding and the border around it.
pub fn border_box(style: &Style, content: Size<Fixed>, containing: Number) -> (r: Size<Fixed>)
    ensures
        r == border_box_spec(*style, content, containing),
{
    let padding = edges(style.padding, containing);
    let border = edges(style.border, containing);
    Size {
        width: content.width + padding.start + padding.end + border.start + border.end,
        height: content.height + padding.top + padding.bottom + border.top + border.bottom,
    }
}

/// Whether a node takes part in the flow of its container: it is
/// displayed and not positioned by its insets.
pub open spec fn in_flow_spec(style: Style) -> bool {
    style.display == crate::style::Display::Flex && style.position_type
        == crate::style::PositionType::Relative
}

} // verus!
