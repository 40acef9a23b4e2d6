//! The style model: enumerated properties, dimensions, and the two forms of
//! the style tree.

use crate::array::Array;
use crate::fixed::{Fixed, SCALE};
use crate::geometry::{Rect, Size};
use crate::number::Number;
use vstd::prelude::*;

verus! {

/// How a container aligns its children along the cross axis.
#[derive(Copy, Clone, PartialEq, Eq, Debug, Structural)]
pub enum AlignItems {
    FlexStart,
    FlexEnd,
    Center,
    Baseline,
    Stretch,
}

impl Default for AlignItems {
    fn default() -> (r: AlignItems)
        ensures
            r == AlignItems::Stretch,
    {
        AlignItems::Stretch
    }
}

/// How one child overrides the alignment its container asks for.
#[derive(Copy, Clone, PartialEq, Eq, Debug, Structural)]
pub enum AlignSelf {
    Auto,
    FlexStart,
    FlexEnd,
    Center,
    Baseline,
    Stretch,
}

impl Default for AlignSelf {
    fn default() -> (r: AlignSelf)
        ensures
            r == AlignSelf::Auto,
    {
        AlignSelf::Auto
    }
}

/// How the lines of a wrapping container share the cross axis.
#[derive(Copy, Clone, PartialEq, Eq, Debug, Structural)]
pub enum AlignContent {
    FlexStart,
    FlexEnd,
    Center,
    Stretch,
    SpaceBetween,
    SpaceAround,
}

impl Default for AlignContent {
    fn default() -> (r: AlignContent)
        ensures
            r == AlignContent::Stretch,
    {
        AlignContent::Stretch
    }
}

/// The inline direction of text.
#[derive(Copy, Clone, PartialEq, Eq, Debug, Structural)]
pub enum Direction {
    Inherit,
    LTR,
    RTL,
}

impl Default for Direction {
    fn default() -> (r: Direction)
        ensures
            r == Direction::Inherit,
    {
        Direction::Inherit
    }
}

/// Whether a node takes part in layout.
#[derive(Copy, Clone, PartialEq, Eq, Debug, Structural)]
pub enum Display {
    Flex,
    Hidden,
}

impl Default for Display {
    fn default() -> (r: Display)
        ensures
            r == Display::Flex,
    {
        Display::Flex
    }
}

/// The main axis of a container and the way it runs.
#[derive(Copy, Clone, PartialEq, Eq, Debug, Structural)]
pub enum FlexDirection {
    Row,
    Column,
    RowReverse,
    ColumnReverse,
}

impl Default for FlexDirection {
    fn default() -> (r: FlexDirection)
        ensures
            r == FlexDirection::Row,
    {
        FlexDirection::Row
    }
}

impl FlexDirection {
    /// Whether the main axis is horizontal.
    pub open spec fn is_row_spec(self) -> bool {
        self == FlexDirection::Row || self == FlexDirection::RowReverse
    }

    /// Whether the main axis is horizontal.
    #[verifier::when_used_as_spec(is_row_spec)]
    pub fn is_row(self) -> (r: bool)
        ensures
            r == (self == FlexDirection::Row || self == FlexDirection::RowReverse),
    {
        self == FlexDirection::Row || self == FlexDirection::RowReverse
    }

    /// Whether the main axis is vertical.
    pub open spec fn is_column_spec(self) -> bool {
        self == FlexDirection::Column || self == FlexDirection::ColumnReverse
    }

    /// Whether the main axis is vertical.
    #[verifier::when_used_as_spec(is_column_spec)]
    pub fn is_column(self) -> (r: bool)
        ensures
            r == (self == FlexDirection::Column || self == FlexDirection::ColumnReverse),
    {
        self == FlexDirection::Column || self == FlexDirection::ColumnReverse
    }

    /// Whether children are placed from the far end of the main axis.
    pub open spec fn is_reverse_spec(self) -> bool {
        self == FlexDirection::RowReverse || self == FlexDirection::ColumnReverse
    }

    /// Whether children are placed from the far end of the main axis.
    #[verifier::when_used_as_spec(is_reverse_spec)]
    pub fn is_reverse(self) -> (r: bool)
        ensures
            r == (self == FlexDirection::RowReverse || self == FlexDirection::ColumnReverse),
    {
        self == FlexDirection::RowReverse || self == FlexDirection::ColumnReverse
    }
}

/// How a line spreads its children along the main axis.
#[derive(Copy, Clone, PartialEq, Eq, Debug, Structural)]
pub enum JustifyContent {
    FlexStart,
    FlexEnd,
    Center,
    SpaceBetween,
    SpaceAround,
    SpaceEvenly,
}

impl Default for JustifyContent {
    fn default() -> (r: JustifyContent)
        ensures
            r == JustifyContent::FlexStart,
    {
        JustifyContent::FlexStart
    }
}

/// What happens to content that leaves its box.
#[derive(Copy, Clone, PartialEq, Eq, Debug, Structural)]
pub enum Overflow {
    Visible,
    Hidden,
    Scroll,
}

impl Default for Overflow {
    fn default() -> (r: Overflow)
        ensures
            r == Overflow::Visible,
    {
        Overflow::Visible
    }
}

/// Whether a node is laid out in flow or by its insets.
#[derive(Copy, Clone, PartialEq, Eq, Debug, Structural)]
pub enum PositionType {
    Relative,
    Absolute,
}

impl Default for PositionType {
    fn default() -> (r: PositionType)
        ensures
            r == PositionType::Relative,
    {
        PositionType::Relative
    }
}

/// Whether a container breaks its children into several lines.
#[derive(Copy, Clone, PartialEq, Eq, Debug, Structural)]
pub enum FlexWrap {
    NoWrap,
    Wrap,
    WrapReverse,
}

impl Default for FlexWrap {
    fn default() -> (r: FlexWrap)
        ensures
            r == FlexWrap::NoWrap,
    {
        FlexWrap::NoWrap
    }
}

/// A length that may depend on the containing box.
#[derive(Copy, Clone, PartialEq, Eq, Debug, Structural)]
pub enum Dimension {
    Undefined,
    Auto,
    Points(Fixed),
    Percent(Fixed),
}

impl Default for Dimension {
    fn default() -> (r: Dimension)
        ensures
            r == Dimension::Undefined,
    {
        Dimension::Undefined
    }
}

impl Dimension {
    /// The length this dimension stands for inside a box of extent `parent`:
    /// points as they are, a percentage as that share of `parent`, and
    /// nothing otherwise.
    pub open spec fn resolve_spec(self, parent: Number) -> Number {
        match self {
            Dimension::Points(points) => Number::Defined(points),
            Dimension::Percent(percent) => parent.scale(percent),
            _ => Number::Undefined,
        }
    }

    /// The length this dimension stands for inside a box of extent `parent`.
    #[verifier::when_used_as_spec(resolve_spec)]
    pub fn resolve(self, parent: Number) -> (r: Number)
        ensures
            r == self.resolve_spec(parent),
    {
        match self {
            Dimension::Points(points) => Number::Defined(points),
            Dimension::Percent(percent) => parent * percent,
            _ => Number::Undefined,
        }
    }

    /// Points are taken as they are, whatever the parent.
    pub proof fn lemma_resolve_points(points: Fixed, parent: Number)
        ensures
            Dimension::Points(points).resolve(parent) == Number::Defined(points),
    {
    }

    /// A percentage of a defined extent is their product, and of an
    /// undefined extent undefined.
    pub proof fn lemma_resolve_percent(percent: Fixed, parent: Number)
        ensures
            parent matches Number::Defined(extent) ==> Dimension::Percent(percent).resolve(parent)
                == Number::Defined(extent.spec_mul(percent)),
            parent is Undefined ==> Dimension::Percent(percent).resolve(parent) is Undefined,
    {
    }

    /// `Auto` and `Undefined` resolve to nothing, whatever the parent.
    pub proof fn lemma_resolve_auto(parent: Number)
        ensures
            Dimension::Auto.resolve(parent) is Undefined,
            Dimension::Undefined.resolve(parent) is Undefined,
    {
    }
}

impl Default for Rect<Dimension> {
    fn default() -> (r: Rect<Dimension>)
        ensures
            r == (Rect {
                start: Dimension::Undefined,
                end: Dimension::Undefined,
                top: Dimension::Undefined,
                bottom: Dimension::Undefined,
            }),
    {
        Rect {
            start: Dimension::Undefined,
            end: Dimension::Undefined,
            top: Dimension::Undefined,
            bottom: Dimension::Undefined,
        }
    }
}

impl Default for Size<Dimension> {
    fn default() -> (r: Size<Dimension>)
        ensures
            r == (Size { width: Dimension::Auto, height: Dimension::Auto }),
    {
        Size { width: Dimension::Auto, height: Dimension::Auto }
    }
}

/// The properties of one node, without its children.
#[derive(Copy, Clone, PartialEq, Eq, Debug)]
pub struct Style {
    pub display: Display,
    pub position_type: PositionType,
    pub direction: Direction,
    pub flex_direction: FlexDirection,
    pub flex_wrap: FlexWrap,
    pub overflow: Overflow,
    pub align_items: AlignItems,
    pub align_self: AlignSelf,
    pub align_content: AlignContent,
    pub justify_content: JustifyContent,
    pub position: Rect<Dimension>,
    pub margin: Rect<Dimension>,
    pub padding: Rect<Dimension>,
    pub border: Rect<Dimension>,
    pub flex_grow: Fixed,
    pub flex_shrink: Fixed,
    pub flex_basis: Dimension,
    pub size: Size<Dimension>,
    pub min_size: Size<Dimension>,
    pub max_size: Size<Dimension>,
    pub aspect_ratio: Number,
}

/// A style tree as a mathematical value: what both forms of the tree stand
/// for.
pub struct StyleTree {
    pub style: Style,
    pub children: Seq<StyleTree>,
}

/// A node of the boundary form of the style tree: its children sit behind
/// a handle. `children` is `None` on a node that was never given a buffer,
/// which counts as having no children; the conversions always attach one.
#[derive(Debug, PartialEq, Eq)]
pub struct StyleNode {
    pub display: Display,
    pub position_type: PositionType,
    pub direction: Direction,
    pub flex_direction: FlexDirection,
    pub flex_wrap: FlexWrap,
    pub overflow: Overflow,
    pub align_items: AlignItems,
    pub align_self: AlignSelf,
    pub align_content: AlignContent,
    pub justify_content: JustifyContent,
    pub position: Rect<Dimension>,
    pub margin: Rect<Dimension>,
    pub padding: Rect<Dimension>,
    pub border: Rect<Dimension>,
    pub flex_grow: Fixed,
    pub flex_shrink: Fixed,
    pub flex_basis: Dimension,
    pub size: Size<Dimension>,
    pub min_size: Size<Dimension>,
    pub max_size: Size<Dimension>,
    pub aspect_ratio: Number,
    pub children: Option<Array<StyleNode>>,
}

/// A node of the owned form of the style tree.
#[derive(Debug, PartialEq, Eq)]
pub struct Node {
    pub display: Display,
    pub position_type: PositionType,
    pub direction: Direction,
    pub flex_direction: FlexDirection,
    pub flex_wrap: FlexWrap,
    pub overflow: Overflow,
    pub align_items: AlignItems,
    pub align_self: AlignSelf,
    pub align_content: AlignContent,
    pub justify_content: JustifyContent,
    pub position: Rect<Dimension>,
    pub margin: Rect<Dimension>,
    pub padding: Rect<Dimension>,
    pub border: Rect<Dimension>,
    pub flex_grow: Fixed,
    pub flex_shrink: Fixed,
    pub flex_basis: Dimension,
    pub size: Size<Dimension>,
    pub min_size: Size<Dimension>,
    pub max_size: Size<Dimension>,
    pub aspect_ratio: Number,
    pub children: Vec<Node>,
}

impl Style {
    /// The style of a node on which nothing was set.
    pub open spec fn default_spec() -> Style {
        Style {
            display: Display::Flex,
            position_type: PositionType::Relative,
            direction: Direction::Inherit,
            flex_direction: FlexDirection::Row,
            flex_wrap: FlexWrap::NoWrap,
            overflow: Overflow::Visible,
            align_items: AlignItems::Stretch,
            align_self: AlignSelf::Auto,
            align_content: AlignContent::Stretch,
            justify_content: JustifyContent::FlexStart,
            position: Rect {
                start: Dimension::Undefined,
                end: Dimension::Undefined,
                top: Dimension::Undefined,
                bottom: Dimension::Undefined,
            },
            margin: Rect {
                start: Dimension::Undefined,
                end: Dimension::Undefined,
                top: Dimension::Undefined,
                bottom: Dimension::Undefined,
            },
            padding: Rect {
                start: Dimension::Undefined,
                end: Dimension::Undefined,
                top: Dimension::Undefined,
                bottom: Dimension::Undefined,
            },
            border: Rect {
                start: Dimension::Undefined,
                end: Dimension::Undefined,
                top: Dimension::Undefined,
                bottom: Dimension::Undefined,
            },
            flex_grow: Fixed { raw: 0 },
            flex_shrink: Fixed { raw: SCALE },
            flex_basis: Dimension::Auto,
            size: Size { width: Dimension::Auto, height: Dimension::Auto },
            min_size: Size { width: Dimension::Auto, height: Dimension::Auto },
            max_size: Size { width: Dimension::Auto, height: Dimension::Auto },
            aspect_ratio: Number::Undefined,
        }
    }

    /// The size along the main axis.
    pub open spec fn main_size_spec(&self, direction: FlexDirection) -> Dimension {
        if direction.is_row() {
            self.size.width
        } else {
            self.size.height
        }
    }

    /// The size along the main axis.
    #[verifier::when_used_as_spec(main_size_spec)]
    pub fn main_size(&self, direction: FlexDirection) -> (r: Dimension)
        ensures
            r == self.main_size_spec(direction),
    {
        match direction {
            FlexDirection::Row | FlexDirection::RowReverse => self.size.width,
            FlexDirection::Column | FlexDirection::ColumnReverse => self.size.height,
        }
    }

    /// The least size along the main axis.
    pub open spec fn min_main_size_spec(&self, direction: FlexDirection) -> Dimension {
        if direction.is_row() {
            self.min_size.width
        } else {
            self.min_size.height
        }
    }

    /// The least size along the main axis.
    #[verifier::when_used_as_spec(min_main_size_spec)]
    pub fn min_main_size(&self, direction: FlexDirection) -> (r: Dimension)
        ensures
            r == self.min_main_size_spec(direction),
    {
        match direction {
            FlexDirection::Row | FlexDirection::RowReverse => self.min_size.width,
            FlexDirection::Column | FlexDirection::ColumnReverse => self.min_size.height,
        }
    }

    /// The greatest size along the main axis.
    pub open spec fn max_main_size_spec(&self, direction: FlexDirection) -> Dimension {
        if direction.is_row() {
            self.max_size.width
        } else {
            self.max_size.height
        }
    }

    /// The greatest size along the main axis.
    #[verifier::when_used_as_spec(max_main_size_spec)]
    pub fn max_main_size(&self, direction: FlexDirection) -> (r: Dimension)
        ensures
            r == self.max_main_size_spec(direction),
    {
        match direction {
            FlexDirection::Row | FlexDirection::RowReverse => self.max_size.width,
            FlexDirection::Column | FlexDirection::ColumnReverse => self.max_size.height,
        }
    }

    /// The margin before the node along the main axis.
    pub open spec fn main_margin_start_spec(&self, direction: FlexDirection) -> Dimension {
        if direction.is_row() {
            self.margin.start
        } else {
            self.margin.top
        }
    }

    /// The margin before the node along the main axis.
    #[verifier::when_used_as_spec(main_margin_start_spec)]
    pub fn main_margin_start(&self, direction: FlexDirection) -> (r: Dimension)
        ensures
            r == self.main_margin_start_spec(direction),
    {
        match direction {
            FlexDirection::Row | FlexDirection::RowReverse => self.margin.start,
            FlexDirection::Column | FlexDirection::ColumnReverse => self.margin.top,
        }
    }

    /// The margin after the node along the main axis.
    pub open spec fn main_margin_end_spec(&self, direction: FlexDirection) -> Dimension {
        if direction.is_row() {
            self.margin.end
        } else {
            self.margin.bottom
        }
    }

    /// The margin after the node along the main axis.
    #[verifier::when_used_as_spec(main_margin_end_spec)]
    pub fn main_margin_end(&self, direction: FlexDirection) -> (r: Dimension)
        ensures
            r == self.main_margin_end_spec(direction),
    {
        match direction {
            FlexDirection::Row | FlexDirection::RowReverse => self.margin.end,
            FlexDirection::Column | FlexDirection::ColumnReverse => self.margin.bottom,
        }
    }

    /// The size along the cross axis.
    pub open spec fn cross_size_spec(&self, direction: FlexDirection) -> Dimension {
        if direction.is_row() {
            self.size.height
        } else {
            self.size.width
        }
    }

    /// The size along the cross axis.
    #[verifier::when_used_as_spec(cross_size_spec)]
    pub fn cross_size(&self, direction: FlexDirection) -> (r: Dimension)
        ensures
            r == self.cross_size_spec(direction),
    {
        match direction {
            FlexDirection::Row | FlexDirection::RowReverse => self.size.height,
            FlexDirection::Column | FlexDirection::ColumnReverse => self.size.width,
        }
    }

    /// The least size along the cross axis.
    pub open spec fn min_cross_size_spec(&self, direction: FlexDirection) -> Dimension {
        if direction.is_row() {
            self.min_size.height
        } else {
            self.min_size.width
        }
    }

    /// The least size along the cross axis.
    #[verifier::when_used_as_spec(min_cross_size_spec)]
    pub fn min_cross_size(&self, direction: FlexDirection) -> (r: Dimension)
        ensures
            r == self.min_cross_size_spec(direction),
    {
        match direction {
            FlexDirection::Row | FlexDirection::RowReverse => self.min_size.height,
            FlexDirection::Column | FlexDirection::ColumnReverse => self.min_size.width,
        }
    }

    /// The greatest size along the cross axis.
    pub open spec fn max_cross_size_spec(&self, direction: FlexDirection) -> Dimension {
        if direction.is_row() {
            self.max_size.height
        } else {
            self.max_size.width
        }
    }

    /// The greatest size along the cross axis.
    #[verifier::when_used_as_spec(max_cross_size_spec)]
    pub fn max_cross_size(&self, direction: FlexDirection) -> (r: Dimension)
        ensures
            r == self.max_cross_size_spec(direction),
    {
        match direction {
            FlexDirection::Row | FlexDirection::RowReverse => self.max_size.height,
            FlexDirection::Column | FlexDirection::ColumnReverse => self.max_size.width,
        }
    }

    /// The margin before the node along the cross axis.
    pub open spec fn cross_margin_start_spec(&self, direction: FlexDirection) -> Dimension {
        if direction.is_row() {
            self.margin.top
        } else {
            self.margin.start
        }
    }

    /// The margin before the node along the cross axis.
    #[verifier::when_used_as_spec(cross_margin_start_spec)]
    pub fn cross_margin_start(&self, direction: FlexDirection) -> (r: Dimension)
        ensures
            r == self.cross_margin_start_spec(direction),
    {
        match direction {
            FlexDirection::Row | FlexDirection::RowReverse => self.margin.top,
            FlexDirection::Column | FlexDirection::ColumnReverse => self.margin.start,
        }
    }

    /// The margin after the node along the cross axis.
    pub open spec fn cross_margin_end_spec(&self, direction: FlexDirection) -> Dimension {
        if direction.is_row() {
            self.margin.bottom
        } else {
            self.margin.end
        }
    }

    /// The margin after the node along the cross axis.
    #[verifier::when_used_as_spec(cross_margin_end_spec)]
    pub fn cross_margin_end(&self, direction: FlexDirection) -> (r: Dimension)
        ensures
            r == self.cross_margin_end_spec(direction),
    {
        match direction {
            FlexDirection::Row | FlexDirection::RowReverse => self.margin.bottom,
            FlexDirection::Column | FlexDirection::ColumnReverse => self.margin.end,
        }
    }

    /// The alignment of a node inside a container that aligns its items by
    /// `items`: the node's own where it has one, the container's otherwise.
    pub open spec fn align_self_spec(&self, items: AlignItems) -> AlignSelf {
        if self.align_self == AlignSelf::Auto {
            match items {
                AlignItems::FlexStart => AlignSelf::FlexStart,
                AlignItems::FlexEnd => AlignSelf::FlexEnd,
                AlignItems::Center => AlignSelf::Center,
                AlignItems::Baseline => AlignSelf::Baseline,
                AlignItems::Stretch => AlignSelf::Stretch,
            }
        } else {
            self.align_self
        }
    }

    /// The alignment of a node inside a container that aligns its items by
    /// `items`.
    #[verifier::when_used_as_spec(align_self_spec)]
    pub fn resolved_align_self(&self, items: AlignItems) -> (r: AlignSelf)
        ensures
            r == self.align_self_spec(items),
            r != AlignSelf::Auto,
    {
        if self.align_self == AlignSelf::Auto {
            match items {
                AlignItems::FlexStart => AlignSelf::FlexStart,
                AlignItems::FlexEnd => AlignSelf::FlexEnd,
                AlignItems::Center => AlignSelf::Center,
                AlignItems::Baseline => AlignSelf::Baseline,
                AlignItems::Stretch => AlignSelf::Stretch,
            }
        } else {
            self.align_self
        }
    }
}

impl Default for Style {
    fn default() -> (r: Style)
        ensures
            r == Style::default_spec(),
    {
        Style {
            display: Display::Flex,
            position_type: PositionType::Relative,
            direction: Direction::Inherit,
            flex_direction: FlexDirection::Row,
            flex_wrap: FlexWrap::NoWrap,
            overflow: Overflow::Visible,
            align_items: AlignItems::Stretch,
            align_self: AlignSelf::Auto,
            align_content: AlignContent::Stretch,
            justify_content: JustifyContent::FlexStart,
            position: Rect {
                start: Dimension::Undefined,
                end: Dimension::Undefined,
                top: Dimension::Undefined,
                bottom: Dimension::Undefined,
            },
            margin: Rect {
                start: Dimension::Undefined,
                end: Dimension::Undefined,
                top: Dimension::Undefined,
                bottom: Dimension::Undefined,
            },
            padding: Rect {
                start: Dimension::Undefined,
                end: Dimension::Undefined,
                top: Dimension::Undefined,
                bottom: Dimension::Undefined,
            },
            border: Rect {
                start: Dimension::Undefined,
                end: Dimension::Undefined,
                top: Dimension::Undefined,
                bottom: Dimension::Undefined,
            },
            flex_grow: Fixed { raw: 0 },
            flex_shrink: Fixed { raw: SCALE },
            flex_basis: Dimension::Auto,
            size: Size { width: Dimension::Auto, height: Dimension::Auto },
            min_size: Size { width: Dimension::Auto, height: Dimension::Auto },
            max_size: Size { width: Dimension::Auto, height: Dimension::Auto },
            aspect_ratio: Number::Undefined,
        }
    }
}

impl View for Node {
    type V = StyleTree;

    open spec fn view(&self) -> StyleTree
        decreases self,
    {
        StyleTree {
            style: self.style(),
            children: Seq::new(
                self.children.len() as nat,
                |i: int|
                    if 0 <= i < self.children.len() {
                        self.children[i].view()
                    } else {
                        arbitrary()
                    },
            ),
        }
    }
}

impl Default for Node {
    fn default() -> (r: Node)
        ensures
            r.style() == Style::default_spec(),
            r.children@.len() == 0,
            r@ == (StyleTree { style: Style::default_spec(), children: Seq::empty() }),
    {
        let r = Node {
            display: Display::Flex,
            position_type: PositionType::Relative,
            direction: Direction::Inherit,
            flex_direction: FlexDirection::Row,
            flex_wrap: FlexWrap::NoWrap,
            overflow: Overflow::Visible,
            align_items: AlignItems::Stretch,
            align_self: AlignSelf::Auto,
            align_content: AlignContent::Stretch,
            justify_content: JustifyContent::FlexStart,
            position: Rect {
                start: Dimension::Undefined,
                end: Dimension::Undefined,
                top: Dimension::Undefined,
                bottom: Dimension::Undefined,
            },
            margin: Rect {
                start: Dimension::Undefined,
                end: Dimension::Undefined,
                top: Dimension::Undefined,
                bottom: Dimension::Undefined,
            },
            padding: Rect {
                start: Dimension::Undefined,
                end: Dimension::Undefined,
                top: Dimension::Undefined,
                bottom: Dimension::Undefined,
            },
            border: Rect {
                start: Dimension::Undefined,
                end: Dimension::Undefined,
                top: Dimension::Undefined,
                bottom: Dimension::Undefined,
            },
            flex_grow: Fixed { raw: 0 },
            flex_shrink: Fixed { raw: SCALE },
            flex_basis: Dimension::Auto,
            size: Size { width: Dimension::Auto, height: Dimension::Auto },
            min_size: Size { width: Dimension::Auto, height: Dimension::Auto },
            max_size: Size { width: Dimension::Auto, height: Dimension::Auto },
            aspect_ratio: Number::Undefined,
            children: Vec::new(),
        };
        proof {
            r.lemma_view();
            assert(r@.children =~= Seq::empty());
        }
        r
    }
}

impl Node {
    /// The node's own properties.
    pub open spec fn style_spec(&self) -> Style {
        Style {
            display: self.display,
            position_type: self.position_type,
            direction: self.direction,
            flex_direction: self.flex_direction,
            flex_wrap: self.flex_wrap,
            overflow: self.overflow,
            align_items: self.align_items,
            align_self: self.align_self,
            align_content: self.align_content,
            justify_content: self.justify_content,
            position: self.position,
            margin: self.margin,
            padding: self.padding,
            border: self.border,
            flex_grow: self.flex_grow,
            flex_shrink: self.flex_shrink,
            flex_basis: self.flex_basis,
            size: self.size,
            min_size: self.min_size,
            max_size: self.max_size,
            aspect_ratio: self.aspect_ratio,
        }
    }

    /// The node's own properties.
    #[verifier::when_used_as_spec(style_spec)]
    pub fn style(&self) -> (r: Style)
        ensures
            r == self.style_spec(),
    {
        Style {
            display: self.display,
            position_type: self.position_type,
            direction: self.direction,
            flex_direction: self.flex_direction,
            flex_wrap: self.flex_wrap,
            overflow: self.overflow,
            align_items: self.align_items,
            align_self: self.align_self,
            align_content: self.align_content,
            justify_content: self.justify_content,
            position: self.position,
            margin: self.margin,
            padding: self.padding,
            border: self.border,
            flex_grow: self.flex_grow,
            flex_shrink: self.flex_shrink,
            flex_basis: self.flex_basis,
            size: self.size,
            min_size: self.min_size,
            max_size: self.max_size,
            aspect_ratio: self.aspect_ratio,
        }
    }

    /// A node with the given properties and children.
    pub fn from_style(style: Style, children: Vec<Node>) -> (r: Node)
        ensures
            r.style() == style,
            r.children == children,
    {
        Node {
            display: style.display,
            position_type: style.position_type,
            direction: style.direction,
            flex_direction: style.flex_direction,
            flex_wrap: style.flex_wrap,
            overflow: style.overflow,
            align_items: style.align_items,
            align_self: style.align_self,
            align_content: style.align_content,
            justify_content: style.justify_content,
            position: style.position,
            margin: style.margin,
            padding: style.padding,
            border: style.border,
            flex_grow: style.flex_grow,
            flex_shrink: style.flex_shrink,
            flex_basis: style.flex_basis,
            size: style.size,
            min_size: style.min_size,
            max_size: style.max_size,
            aspect_ratio: style.aspect_ratio,
            children,
        }
    }

    /// What the view of a node is made of.
    pub proof fn lemma_view(self)
        ensures
            self@.style == self.style(),
            self@.children.len() == self.children.len(),
            forall|i: int| 0 <= i < self.children.len() ==> #[trigger] self@.children[i] == self.children[i]@,
    {
        reveal_with_fuel(<Node as View>::view, 2);
    }

    /// Turns an owned tree into its boundary form. Every child list ends
    /// up behind a handle; no property and no child is lost or reordered.
    pub fn to_style_node(node: Box<Node>) -> (style: Box<StyleNode>)
        ensures
            style@ == node@,
            style.attached(),
        decreases node,
    {
        let owned = *node;
        let record = owned.style();
        let ghost kids = owned.children@;
        proof {
            node.lemma_view();
            assert forall|j: int| 0 <= j < kids.len() implies decreases_to!(node => #[trigger] kids[j]) by {
                assert(decreases_to!(node => node.children));
                assert(decreases_to!(node.children => node.children@));
                assert(decreases_to!(node.children@ => node.children@[j]));
            }
        }
        let mut converted: Vec<StyleNode> = Vec::new();
        for child in it: owned.children.into_iter()
            invariant
                converted.len() == it.index(),
                it.seq() == kids,
                forall|j: int| 0 <= j < kids.len() ==> decreases_to!(node => #[trigger] kids[j]),
                forall|j: int| 0 <= j < converted.len() ==> #[trigger] converted[j]@ == kids[j]@,
                forall|j: int| 0 <= j < converted.len() ==> (#[trigger] converted[j]).attached(),
        {
            let c = Node::to_style_node(Box::new(child));
            converted.push(*c);
        }
        let children = Array::from_vec(converted);
        let result = StyleNode::from_style(record, children);
        proof {
            result.lemma_view();
            assert(result@.children =~= node@.children);
        }
        Box::new(result)
    }

    /// The least size along the main axis.
    pub fn min_main_size(&self, direction: FlexDirection) -> (r: Dimension)
        ensures
            r == self.style().min_main_size(direction),
    {
        match direction {
            FlexDirection::Row | FlexDirection::RowReverse => self.min_size.width,
            FlexDirection::Column | FlexDirection::ColumnReverse => self.min_size.height,
        }
    }

    /// The greatest size along the main axis.
    pub fn max_main_size(&self, direction: FlexDirection) -> (r: Dimension)
        ensures
            r == self.style().max_main_size(direction),
    {
        match direction {
            FlexDirection::Row | FlexDirection::RowReverse => self.max_size.width,
            FlexDirection::Column | FlexDirection::ColumnReverse => self.max_size.height,
        }
    }

    /// The margin before the node along the main axis.
    pub fn main_margin_start(&self, direction: FlexDirection) -> (r: Dimension)
        ensures
            r == self.style().main_margin_start(direction),
    {
        match direction {
            FlexDirection::Row | FlexDirection::RowReverse => self.margin.start,
            FlexDirection::Column | FlexDirection::ColumnReverse => self.margin.top,
        }
    }

    /// The margin after the node along the main axis.
    pub fn main_margin_end(&self, direction: FlexDirection) -> (r: Dimension)
        ensures
            r == self.style().main_margin_end(direction),
    {
        match direction {
            FlexDirection::Row | FlexDirection::RowReverse => self.margin.end,
            FlexDirection::Column | FlexDirection::ColumnReverse => self.margin.bottom,
        }
    }

    /// The size along the cross axis.
    pub fn cross_size(&self, direction: FlexDirection) -> (r: Dimension)
        ensures
            r == self.style().cross_size(direction),
    {
        match direction {
            FlexDirection::Row | FlexDirection::RowReverse => self.size.height,
            FlexDirection::Column | FlexDirection::ColumnReverse => self.size.width,
        }
    }

    /// The least size along the cross axis.
    pub fn min_cross_size(&self, direction: FlexDirection) -> (r: Dimension)
        ensures
            r == self.style().min_cross_size(direction),
    {
        match direction {
            FlexDirection::Row | FlexDirection::RowReverse => self.min_size.height,
            FlexDirection::Column | FlexDirection::ColumnReverse => self.min_size.width,
        }
    }

    /// The greatest size along the cross axis.
    pub fn max_cross_size(&self, direction: FlexDirection) -> (r: Dimension)
        ensures
            r == self.style().max_cross_size(direction),
    {
        match direction {
            FlexDirection::Row | FlexDirection::RowReverse => self.max_size.height,
            FlexDirection::Column | FlexDirection::ColumnReverse => self.max_size.width,
        }
    }

    /// The margin before the node along the cross axis.
    pub fn cross_margin_start(&self, direction: FlexDirection) -> (r: Dimension)
        ensures
            r == self.style().cross_margin_start(direction),
    {
        match direction {
            FlexDirection::Row | FlexDirection::RowReverse => self.margin.top,
            FlexDirection::Column | FlexDirection::ColumnReverse => self.margin.start,
        }
    }

    /// The margin after the node along the cross axis.
    pub fn cross_margin_end(&self, direction: FlexDirection) -> (r: Dimension)
        ensures
            r == self.style().cross_margin_end(direction),
    {
        match direction {
            FlexDirection::Row | FlexDirection::RowReverse => self.margin.bottom,
            FlexDirection::Column | FlexDirection::ColumnReverse => self.margin.end,
        }
    }

    /// The alignment of the node inside `parent`: its own where it has
    /// one, what `parent` asks of its items otherwise.
    pub fn align_self(&self, parent: &Node) -> (r: AlignSelf)
        ensures
            r == self.style().align_self_spec(parent.align_items),
            r != AlignSelf::Auto,
    {
        if self.align_self == AlignSelf::Auto {
            match parent.align_items {
                AlignItems::FlexStart => AlignSelf::FlexStart,
                AlignItems::FlexEnd => AlignSelf::FlexEnd,
                AlignItems::Center => AlignSelf::Center,
                AlignItems::Baseline => AlignSelf::Baseline,
                AlignItems::Stretch => AlignSelf::Stretch,
            }
        } else {
            self.align_self
        }
    }
}

/// A tree that went from one form to the other and back has the properties
/// and the shape it started with, node for node.
pub proof fn lemma_round_trip(start: Node, boundary: StyleNode, back: Node)
    requires
        boundary@ == start@,
        back@ == boundary@,
    ensures
        back@ == start@,
        back.style() == start.style(),
        back.children.len() == start.children.len(),
        forall|i: int| 0 <= i < start.children.len() ==> #[trigger] back.children[i]@ == start.children[i]@,
{
    start.lemma_view();
    back.lemma_view();
    assert forall|i: int| 0 <= i < start.children.len() implies #[trigger] back.children[i]@
        == start.children[i]@ by {
        assert(back@.children.len() == start@.children.len());
        assert(back@.children[i] == start@.children[i]);
        assert(back@.children[i] == back.children[i]@);
        assert(start@.children[i] == start.children[i]@);
    }
}

/// The same, starting from the boundary form.
pub proof fn lemma_round_trip_boundary(start: StyleNode, owned: Node, back: StyleNode)
    requires
        owned@ == start@,
        back@ == owned@,
    ensures
        back@ == start@,
        back.style() == start.style(),
        back.items().len() == start.items().len(),
        forall|i: int| 0 <= i < start.items().len() ==> #[trigger] back.items()[i]@ == start.items()[i]@,
{
    start.lemma_view();
    back.lemma_view();
    assert forall|i: int| 0 <= i < start.items().len() implies #[trigger] back.items()[i]@
        == start.items()[i]@ by {
        assert(back@.children.len() == start@.children.len());
        assert(back@.children[i] == start@.children[i]);
        assert(back@.children[i] == back.items()[i]@);
        assert(start@.children[i] == start.items()[i]@);
    }
}

impl View for StyleNode {
    type V = StyleTree;

    open spec fn view(&self) -> StyleTree
        decreases self,
    {
        StyleTree {
            style: self.style(),
            children: Seq::new(
                self.items().len(),
                |i: int|
                    if 0 <= i < self.items().len() {
                        proof {
                            self.lemma_items_decrease();
                        }
                        self.items()[i].view()
                    } else {
                        arbitrary()
                    },
            ),
        }
    }
}

impl StyleNode {
    /// The node's own properties.
    pub open spec fn style_spec(&self) -> Style {
        Style {
            display: self.display,
            position_type: self.position_type,
            direction: self.direction,
            flex_direction: self.flex_direction,
            flex_wrap: self.flex_wrap,
            overflow: self.overflow,
            align_items: self.align_items,
            align_self: self.align_self,
            align_content: self.align_content,
            justify_content: self.justify_content,
            position: self.position,
            margin: self.margin,
            padding: self.padding,
            border: self.border,
            flex_grow: self.flex_grow,
            flex_shrink: self.flex_shrink,
            flex_basis: self.flex_basis,
            size: self.size,
            min_size: self.min_size,
            max_size: self.max_size,
            aspect_ratio: self.aspect_ratio,
        }
    }

    /// The node's own properties.
    #[verifier::when_used_as_spec(style_spec)]
    pub fn style(&self) -> (r: Style)
        ensures
            r == self.style_spec(),
    {
        Style {
            display: self.display,
            position_type: self.position_type,
            direction: self.direction,
            flex_direction: self.flex_direction,
            flex_wrap: self.flex_wrap,
            overflow: self.overflow,
            align_items: self.align_items,
            align_self: self.align_self,
            align_content: self.align_content,
            justify_content: self.justify_content,
            position: self.position,
            margin: self.margin,
            padding: self.padding,
            border: self.border,
            flex_grow: self.flex_grow,
            flex_shrink: self.flex_shrink,
            flex_basis: self.flex_basis,
            size: self.size,
            min_size: self.min_size,
            max_size: self.max_size,
            aspect_ratio: self.aspect_ratio,
        }
    }

    /// The children behind the handle, in order.
    pub open spec fn items(&self) -> Seq<StyleNode> {
        match self.children {
            Some(array) => array@,
            None => Seq::empty(),
        }
    }

    /// Every child is structurally smaller than its parent.
    pub proof fn lemma_items_decrease(self)
        ensures
            forall|i: int| 0 <= i < self.items().len() ==> decreases_to!(self => #[trigger] self.items()[i]),
    {
        match self.children {
            Some(array) => {
                array.lemma_elements_decrease();
                assert forall|i: int| 0 <= i < self.items().len() implies decreases_to!(self => #[trigger] self.items()[i]) by {
                    assert(decreases_to!(self => self.children));
                    assert(decreases_to!(self.children => array));
                    assert(decreases_to!(array => array@[i]));
                }
            },
            None => {},
        }
    }

    /// A node with the given properties and children.
    pub fn from_style(style: Style, children: Array<StyleNode>) -> (r: StyleNode)
        ensures
            r.style() == style,
            r.children == Some(children),
    {
        StyleNode {
            display: style.display,
            position_type: style.position_type,
            direction: style.direction,
            flex_direction: style.flex_direction,
            flex_wrap: style.flex_wrap,
            overflow: style.overflow,
            align_items: style.align_items,
            align_self: style.align_self,
            align_content: style.align_content,
            justify_content: style.justify_content,
            position: style.position,
            margin: style.margin,
            padding: style.padding,
            border: style.border,
            flex_grow: style.flex_grow,
            flex_shrink: style.flex_shrink,
            flex_basis: style.flex_basis,
            size: style.size,
            min_size: style.min_size,
            max_size: style.max_size,
            aspect_ratio: style.aspect_ratio,
            children: Some(children),
        }
    }

    /// Whether every node of the tree has a buffer attached, be it empty.
    pub open spec fn attached(&self) -> bool
        decreases self,
    {
        &&& self.children is Some
        &&& forall|i: int|
            0 <= i < self.items().len() ==> {
                proof {
                    self.lemma_items_decrease();
                }
                (#[trigger] self.items()[i]).attached()
            }
    }

    /// What the view of a node is made of.
    pub proof fn lemma_view(self)
        ensures
            self@.style == self.style(),
            self@.children.len() == self.items().len(),
            forall|i: int| 0 <= i < self.items().len() ==> #[trigger] self@.children[i] == self.items()[i]@,
    {
        reveal_with_fuel(<StyleNode as View>::view, 2);
    }

    /// Turns a boundary tree into its owned form. Every handle gives up
    /// its buffer; no property and no child is lost or reordered.
    pub fn to_node(style: Box<StyleNode>) -> (node: Box<Node>)
        ensures
            node@ == style@,
        decreases style,
    {
        let flat = *style;
        let record = flat.style();
        let ghost kids = flat.items();
        proof {
            style.lemma_view();
            style.lemma_items_decrease();
        }
        let items = match flat.children {
            Some(array) => array.into_vec(),
            None => Vec::new(),
        };
        let mut converted: Vec<Node> = Vec::new();
        for child in it: items.into_iter()
            invariant
                converted.len() == it.index(),
                it.seq() == kids,
                forall|j: int| 0 <= j < kids.len() ==> decreases_to!(style => #[trigger] kids[j]),
                forall|j: int| 0 <= j < converted.len() ==> #[trigger] converted[j]@ == kids[j]@,
        {
            let c = StyleNode::to_node(Box::new(child));
            converted.push(*c);
        }
        let result = Node::from_style(record, converted);
        proof {
            result.lemma_view();
            assert(result@.children =~= style@.children);
        }
        Box::new(result)
    }
}

} // verus!
