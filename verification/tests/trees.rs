use flexbox::array::Array;
use std::cell::Cell;
use std::rc::Rc;
use flexbox::fixed::Fixed;
use flexbox::geometry::{Point, Rect, Size};
use flexbox::layout;
use flexbox::number::Number;
use flexbox::style::{
    AlignContent, AlignItems, AlignSelf, Dimension, Direction, Display, FlexDirection, FlexWrap, JustifyContent,
    Node, Overflow, PositionType, Style, StyleNode,
};

fn fx(n: i32) -> Fixed {
    Fixed::from_int(n)
}

fn sample() -> Node {
    Node {
        flex_direction: FlexDirection::Column,
        size: Size { width: Dimension::Points(fx(10)), height: Dimension::Percent(Fixed { raw: 250 }) },
        aspect_ratio: Number::Defined(fx(2)),
        children: vec![
            Node {
                flex_grow: fx(3),
                children: vec![Node { align_self: AlignSelf::Center, ..Node::default() }, Node::default()],
                ..Node::default()
            },
            Node { display: Display::Hidden, ..Node::default() },
            Node { position_type: PositionType::Absolute, children: vec![], ..Node::default() },
        ],
        ..Node::default()
    }
}

#[test]
fn defaults_of_the_enumerated_properties() {
    assert_eq!(AlignItems::default(), AlignItems::Stretch);
    assert_eq!(AlignSelf::default(), AlignSelf::Auto);
    assert_eq!(AlignContent::default(), AlignContent::Stretch);
    assert_eq!(Direction::default(), Direction::Inherit);
    assert_eq!(Display::default(), Display::Flex);
    assert_eq!(FlexDirection::default(), FlexDirection::Row);
    assert_eq!(JustifyContent::default(), JustifyContent::FlexStart);
    assert_eq!(Overflow::default(), Overflow::Visible);
    assert_eq!(PositionType::default(), PositionType::Relative);
    assert_eq!(FlexWrap::default(), FlexWrap::NoWrap);
    assert_eq!(Dimension::default(), Dimension::Undefined);
    assert_eq!(Number::default(), Number::Undefined);
}

#[test]
fn defaults_of_a_node() {
    let node = Node::default();
    let undefined = Rect {
        start: Dimension::Undefined,
        end: Dimension::Undefined,
        top: Dimension::Undefined,
        bottom: Dimension::Undefined,
    };
    let auto = Size { width: Dimension::Auto, height: Dimension::Auto };
    assert_eq!(node.display, Display::Flex);
    assert_eq!(node.position_type, PositionType::Relative);
    assert_eq!(node.direction, Direction::Inherit);
    assert_eq!(node.flex_direction, FlexDirection::Row);
    assert_eq!(node.flex_wrap, FlexWrap::NoWrap);
    assert_eq!(node.overflow, Overflow::Visible);
    assert_eq!(node.align_items, AlignItems::Stretch);
    assert_eq!(node.align_self, AlignSelf::Auto);
    assert_eq!(node.align_content, AlignContent::Stretch);
    assert_eq!(node.justify_content, JustifyContent::FlexStart);
    assert_eq!(node.position, undefined);
    assert_eq!(node.margin, undefined);
    assert_eq!(node.padding, undefined);
    assert_eq!(node.border, undefined);
    assert_eq!(node.flex_grow, fx(0));
    assert_eq!(node.flex_shrink, fx(1));
    assert_eq!(node.flex_basis, Dimension::Auto);
    assert_eq!(node.size, auto);
    assert_eq!(node.min_size, auto);
    assert_eq!(node.max_size, auto);
    assert_eq!(node.aspect_ratio, Number::Undefined);
    assert!(node.children.is_empty());
    assert_eq!(node.style(), Style::default());
    assert_eq!(Rect::<Dimension>::default(), undefined);
    assert_eq!(Size::<Dimension>::default(), auto);
}

#[test]
fn axis_predicates() {
    assert!(FlexDirection::Row.is_row());
    assert!(FlexDirection::RowReverse.is_row());
    assert!(!FlexDirection::Column.is_row());
    assert!(!FlexDirection::ColumnReverse.is_row());
    assert!(FlexDirection::Column.is_column());
    assert!(FlexDirection::ColumnReverse.is_column());
    assert!(!FlexDirection::Row.is_column());
    assert!(!FlexDirection::RowReverse.is_column());
    assert!(FlexDirection::RowReverse.is_reverse());
    assert!(FlexDirection::ColumnReverse.is_reverse());
    assert!(!FlexDirection::Row.is_reverse());
    assert!(!FlexDirection::Column.is_reverse());
}

#[test]
fn axis_accessors_pick_the_fields_of_their_axis() {
    let p = |n: i32| Dimension::Points(fx(n));
    let node = Node {
        size: Size { width: p(1), height: p(2) },
        min_size: Size { width: p(3), height: p(4) },
        max_size: Size { width: p(5), height: p(6) },
        margin: Rect { start: p(7), end: p(8), top: p(9), bottom: p(10) },
        ..Node::default()
    };
    for row in [FlexDirection::Row, FlexDirection::RowReverse] {
        assert_eq!(node.style().main_size(row), p(1));
        assert_eq!(node.cross_size(row), p(2));
        assert_eq!(node.min_main_size(row), p(3));
        assert_eq!(node.min_cross_size(row), p(4));
        assert_eq!(node.max_main_size(row), p(5));
        assert_eq!(node.max_cross_size(row), p(6));
        assert_eq!(node.main_margin_start(row), p(7));
        assert_eq!(node.main_margin_end(row), p(8));
        assert_eq!(node.cross_margin_start(row), p(9));
        assert_eq!(node.cross_margin_end(row), p(10));
    }
    for column in [FlexDirection::Column, FlexDirection::ColumnReverse] {
        assert_eq!(node.style().main_size(column), p(2));
        assert_eq!(node.cross_size(column), p(1));
        assert_eq!(node.min_main_size(column), p(4));
        assert_eq!(node.min_cross_size(column), p(3));
        assert_eq!(node.max_main_size(column), p(6));
        assert_eq!(node.max_cross_size(column), p(5));
        assert_eq!(node.main_margin_start(column), p(9));
        assert_eq!(node.main_margin_end(column), p(10));
        assert_eq!(node.cross_margin_start(column), p(7));
        assert_eq!(node.cross_margin_end(column), p(8));
    }
}

#[test]
fn own_alignment_falls_back_to_the_parent() {
    let items = [
        (AlignItems::FlexStart, AlignSelf::FlexStart),
        (AlignItems::FlexEnd, AlignSelf::FlexEnd),
        (AlignItems::Center, AlignSelf::Center),
        (AlignItems::Baseline, AlignSelf::Baseline),
        (AlignItems::Stretch, AlignSelf::Stretch),
    ];
    for (of_parent, expected) in items {
        let parent = Node { align_items: of_parent, ..Node::default() };
        let auto = Node::default();
        assert_eq!(auto.align_self(&parent), expected);
        let own = Node { align_self: AlignSelf::FlexEnd, ..Node::default() };
        assert_eq!(own.align_self(&parent), AlignSelf::FlexEnd);
    }
}

#[test]
fn array_hands_its_buffer_over_and_back() {
    let array = Array::from_vec(vec![1u8, 2, 3]);
    assert_eq!(array.length(), 3);
    assert_eq!(array.into_vec(), vec![1u8, 2, 3]);
    let empty: Array<u8> = Array::from_vec(Vec::new());
    assert_eq!(empty.length(), 0);
    assert_eq!(empty.into_vec(), Vec::<u8>::new());
}

#[test]
fn array_keeps_the_buffer_it_took_over() {
    let mut items: Vec<u32> = Vec::with_capacity(16);
    items.extend([7, 8, 9]);
    let room = items.capacity();
    let array = Array::from_vec(items);
    assert_eq!(array.length(), 3);
    let back = array.into_vec();
    assert_eq!(back.capacity(), room);
    assert_eq!(back, vec![7, 8, 9]);
}

struct Counted(Rc<Cell<usize>>);

impl Drop for Counted {
    fn drop(&mut self) {
        self.0.set(self.0.get() + 1);
    }
}

#[test]
fn array_drops_every_element_once() {
    let drops = Rc::new(Cell::new(0));
    let items: Vec<Counted> = (0..5).map(|_| Counted(drops.clone())).collect();
    let array = Array::from_vec(items);
    assert_eq!(drops.get(), 0);
    let back = array.into_vec();
    assert_eq!(drops.get(), 0);
    assert_eq!(back.len(), 5);
    let again = Array::from_vec(back);
    assert_eq!(drops.get(), 0);
    drop(again);
    assert_eq!(drops.get(), 5);
}

#[test]
fn style_tree_survives_the_round_trip() {
    let boundary = Node::to_style_node(Box::new(sample()));
    assert_eq!(boundary.style(), sample().style());
    let kids = boundary.children.as_ref().map(|a| a.length());
    assert_eq!(kids, Some(3));
    let back = StyleNode::to_node(boundary);
    assert_eq!(*back, sample());
}

#[test]
fn boundary_style_tree_survives_the_round_trip() {
    let start = Node::to_style_node(Box::new(sample()));
    let again = Node::to_style_node(StyleNode::to_node(Node::to_style_node(Box::new(sample()))));
    assert_eq!(again, start);
}

#[test]
fn boundary_node_without_a_buffer_has_no_children() {
    let mut boundary = Node::to_style_node(Box::new(Node::default()));
    boundary.children = None;
    let node = StyleNode::to_node(boundary);
    assert_eq!(*node, Node::default());
}

#[test]
fn childless_node_still_gets_a_handle() {
    let boundary = Node::to_style_node(Box::new(Node::default()));
    assert_eq!(boundary.children.as_ref().map(|a| a.length()), Some(0));
    let layout = layout::Node::to_layout_node(Box::new(layout::Node {
        size: Size { width: fx(1), height: fx(2) },
        location: Point { x: fx(3), y: fx(4) },
        children: vec![],
    }));
    assert_eq!(layout.children.as_ref().map(|a| a.length()), Some(0));
}

#[test]
fn geometry_tree_survives_the_round_trip() {
    let build = || layout::Node {
        size: Size { width: fx(100), height: fx(50) },
        location: Point { x: fx(0), y: fx(0) },
        children: vec![
            layout::Node {
                size: Size { width: fx(10), height: fx(20) },
                location: Point { x: fx(1), y: fx(2) },
                children: vec![layout::Node {
                    size: Size { width: fx(3), height: fx(4) },
                    location: Point { x: fx(5), y: fx(6) },
                    children: vec![],
                }],
            },
            layout::Node {
                size: Size { width: fx(30), height: fx(40) },
                location: Point { x: fx(7), y: fx(8) },
                children: vec![],
            },
        ],
    };
    let boundary = layout::Node::to_layout_node(Box::new(build()));
    assert_eq!(boundary.size, build().size);
    assert_eq!(boundary.location, build().location);
    assert_eq!(boundary.children.as_ref().map(|a| a.length()), Some(2));
    let back = layout::LayoutNode::to_node(boundary);
    assert_eq!(*back, build());
}

#[test]
fn deep_tree_converts_node_by_node() {
    let mut node = Node { flex_grow: fx(0), ..Node::default() };
    for depth in 1..200 {
        node = Node { flex_grow: fx(depth), children: vec![node], ..Node::default() };
    }
    let back = StyleNode::to_node(Node::to_style_node(Box::new(node)));
    let mut cursor = &*back;
    let mut depth = 199;
    loop {
        assert_eq!(cursor.flex_grow, fx(depth));
        if cursor.children.is_empty() {
            break;
        }
        assert_eq!(cursor.children.len(), 1);
        cursor = &cursor.children[0];
        depth -= 1;
    }
    assert_eq!(depth, 0);
}
