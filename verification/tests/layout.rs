use flexbox::algorithm::compute::{compute, compute_layout};
use flexbox::fixed::Fixed;
use flexbox::geometry::{Point, Rect, Size};
use flexbox::layout;
use flexbox::number::Number;
use flexbox::style::{
    AlignContent, AlignItems, AlignSelf, Dimension, Display, FlexDirection, FlexWrap, JustifyContent, Node,
    PositionType,
};

fn fx(n: i32) -> Fixed {
    Fixed::from_int(n)
}

fn points(n: i32) -> Dimension {
    Dimension::Points(fx(n))
}

fn size(width: i32, height: i32) -> Size<Dimension> {
    Size { width: points(width), height: points(height) }
}

fn any_space() -> Size<Number> {
    Size { width: Number::Undefined, height: Number::Undefined }
}

fn all_edges(n: i32) -> Rect<Dimension> {
    Rect { start: points(n), end: points(n), top: points(n), bottom: points(n) }
}

fn assert_box(node: &layout::Node, x: i32, y: i32, width: i32, height: i32) {
    assert_eq!(node.location, Point { x: fx(x), y: fx(y) });
    assert_eq!(node.size, Size { width: fx(width), height: fx(height) });
}

fn same_shape(layout: &layout::Node, style: &Node) -> bool {
    layout.children.len() == style.children.len()
        && layout.children.iter().zip(style.children.iter()).all(|(l, s)| same_shape(l, s))
}

#[test]
fn row_of_three_growing_children() {
    let child = || Node { flex_grow: fx(1), ..Node::default() };
    let root = Node {
        size: Size { width: points(300), height: Dimension::Auto },
        children: vec![child(), child(), child()],
        ..Node::default()
    };
    let layout = compute(&root, any_space());
    assert_box(&layout, 0, 0, 300, 0);
    assert_eq!(layout.children.len(), 3);
    assert_box(&layout.children[0], 0, 0, 100, 0);
    assert_box(&layout.children[1], 100, 0, 100, 0);
    assert_box(&layout.children[2], 200, 0, 100, 0);
}

#[test]
fn column_with_space_between() {
    let child = || Node { size: Size { width: Dimension::Auto, height: points(50) }, ..Node::default() };
    let root = Node {
        flex_direction: FlexDirection::Column,
        justify_content: JustifyContent::SpaceBetween,
        size: Size { width: Dimension::Auto, height: points(200) },
        children: vec![child(), child()],
        ..Node::default()
    };
    let layout = compute(&root, any_space());
    assert_box(&layout.children[0], 0, 0, 0, 50);
    assert_box(&layout.children[1], 0, 150, 0, 50);
}

#[test]
fn growth_is_proportional_and_fills_the_container() {
    let child = |grow: i32| Node { flex_grow: fx(grow), flex_basis: points(0), ..Node::default() };
    let root = Node { size: size(600, 10), children: vec![child(1), child(2), child(3)], ..Node::default() };
    let layout = compute(&root, any_space());
    assert_box(&layout.children[0], 0, 0, 100, 10);
    assert_box(&layout.children[1], 100, 0, 200, 10);
    assert_box(&layout.children[2], 300, 0, 300, 10);
    let sum = layout.children.iter().fold(fx(0), |acc, c| acc + c.size.width);
    assert_eq!(sum, fx(600));
}

#[test]
fn growth_rounds_each_share_down() {
    let child = || Node { flex_grow: fx(1), flex_basis: points(0), ..Node::default() };
    let root = Node { size: size(100, 10), children: vec![child(), child(), child()], ..Node::default() };
    let layout = compute(&root, any_space());
    for c in layout.children.iter() {
        assert_eq!(c.size.width, Fixed { raw: 33_333 });
    }
    assert_eq!(layout.children[1].location.x, Fixed { raw: 33_333 });
    assert_eq!(layout.children[2].location.x, Fixed { raw: 66_666 });
}

#[test]
fn children_without_growth_keep_their_basis() {
    let root = Node {
        size: size(300, 10),
        children: vec![
            Node { size: size(50, 10), ..Node::default() },
            Node { flex_grow: fx(1), ..Node::default() },
        ],
        ..Node::default()
    };
    let layout = compute(&root, any_space());
    assert_box(&layout.children[0], 0, 0, 50, 10);
    assert_box(&layout.children[1], 50, 0, 250, 10);
}

#[test]
fn shrinking_stops_at_the_minimum_and_the_rest_shrinks_further() {
    let root = Node {
        size: size(100, 10),
        children: vec![
            Node {
                size: size(100, 10),
                min_size: Size { width: points(80), height: Dimension::Auto },
                ..Node::default()
            },
            Node { size: size(100, 10), ..Node::default() },
        ],
        ..Node::default()
    };
    let layout = compute(&root, any_space());
    assert_box(&layout.children[0], 0, 0, 80, 10);
    assert_box(&layout.children[1], 80, 0, 20, 10);
}

#[test]
fn shrinking_is_weighted_by_basis() {
    let root = Node {
        size: size(150, 10),
        children: vec![
            Node { size: size(100, 10), ..Node::default() },
            Node { size: size(200, 10), ..Node::default() },
        ],
        ..Node::default()
    };
    let layout = compute(&root, any_space());
    assert_box(&layout.children[0], 0, 0, 50, 10);
    assert_box(&layout.children[1], 50, 0, 100, 10);
}

#[test]
fn children_that_do_not_shrink_overflow() {
    let fixed = || Node { size: size(100, 10), flex_shrink: fx(0), ..Node::default() };
    let root = Node { size: size(150, 10), children: vec![fixed(), fixed()], ..Node::default() };
    let layout = compute(&root, any_space());
    assert_box(&layout.children[0], 0, 0, 100, 10);
    assert_box(&layout.children[1], 100, 0, 100, 10);
}

#[test]
fn growth_stops_at_the_maximum_and_the_rest_grows_further() {
    let root = Node {
        size: size(300, 10),
        children: vec![
            Node {
                flex_grow: fx(1),
                max_size: Size { width: points(50), height: Dimension::Auto },
                ..Node::default()
            },
            Node { flex_grow: fx(1), ..Node::default() },
        ],
        ..Node::default()
    };
    let layout = compute(&root, any_space());
    assert_box(&layout.children[0], 0, 0, 50, 10);
    assert_box(&layout.children[1], 50, 0, 250, 10);
}

#[test]
fn minimum_wins_over_maximum() {
    let root = Node {
        size: size(300, 10),
        children: vec![Node {
            size: size(100, 10),
            min_size: Size { width: points(120), height: Dimension::Auto },
            max_size: Size { width: points(60), height: Dimension::Auto },
            ..Node::default()
        }],
        ..Node::default()
    };
    let layout = compute(&root, any_space());
    assert_box(&layout.children[0], 0, 0, 120, 10);
}

#[test]
fn stretched_child_fills_the_cross_axis_inside_its_margins() {
    let root = Node {
        size: size(300, 100),
        children: vec![Node {
            size: Size { width: points(40), height: Dimension::Auto },
            margin: Rect { start: points(0), end: points(0), top: points(10), bottom: points(20) },
            ..Node::default()
        }],
        ..Node::default()
    };
    let layout = compute(&root, any_space());
    assert_box(&layout.children[0], 0, 10, 40, 70);
}

#[test]
fn stretched_child_of_a_column_fills_the_width() {
    let root = Node {
        flex_direction: FlexDirection::Column,
        size: size(300, 100),
        padding: all_edges(10),
        children: vec![Node {
            size: Size { width: Dimension::Auto, height: points(40) },
            margin: Rect { start: points(5), end: points(15), top: points(0), bottom: points(0) },
            ..Node::default()
        }],
        ..Node::default()
    };
    let layout = compute(&root, any_space());
    assert_box(&layout.children[0], 5, 0, 260, 40);
}

#[test]
fn alignment_across_the_line() {
    let child = |align: AlignSelf| Node { size: size(10, 20), align_self: align, ..Node::default() };
    let root = Node {
        size: size(300, 100),
        align_items: AlignItems::Center,
        children: vec![
            child(AlignSelf::Auto),
            child(AlignSelf::FlexStart),
            child(AlignSelf::FlexEnd),
            child(AlignSelf::Center),
            child(AlignSelf::Baseline),
            child(AlignSelf::Stretch),
        ],
        ..Node::default()
    };
    let layout = compute(&root, any_space());
    assert_box(&layout.children[0], 0, 40, 10, 20);
    assert_box(&layout.children[1], 10, 0, 10, 20);
    assert_box(&layout.children[2], 20, 80, 10, 20);
    assert_box(&layout.children[3], 30, 40, 10, 20);
    assert_box(&layout.children[4], 40, 0, 10, 20);
    assert_box(&layout.children[5], 50, 0, 10, 20);
}

#[test]
fn justification_along_the_line() {
    let lay = |justify: JustifyContent| {
        let child = || Node { size: size(20, 10), ..Node::default() };
        let root = Node {
            size: size(100, 10),
            justify_content: justify,
            children: vec![child(), child()],
            ..Node::default()
        };
        let layout = compute(&root, any_space());
        (layout.children[0].location.x, layout.children[1].location.x)
    };
    assert_eq!(lay(JustifyContent::FlexStart), (fx(0), fx(20)));
    assert_eq!(lay(JustifyContent::FlexEnd), (fx(60), fx(80)));
    assert_eq!(lay(JustifyContent::Center), (fx(30), fx(50)));
    assert_eq!(lay(JustifyContent::SpaceBetween), (fx(0), fx(80)));
    assert_eq!(lay(JustifyContent::SpaceAround), (fx(15), fx(65)));
    assert_eq!(lay(JustifyContent::SpaceEvenly), (fx(20), fx(60)));
}

#[test]
fn reversed_row_places_children_from_the_far_end() {
    let child = || Node { size: size(20, 10), ..Node::default() };
    let root = Node {
        size: size(100, 10),
        flex_direction: FlexDirection::RowReverse,
        children: vec![child(), child()],
        ..Node::default()
    };
    let layout = compute(&root, any_space());
    assert_box(&layout.children[0], 80, 0, 20, 10);
    assert_box(&layout.children[1], 60, 0, 20, 10);
}

#[test]
fn reversed_column_places_children_from_the_far_end() {
    let child = || Node { size: size(10, 20), ..Node::default() };
    let root = Node {
        size: size(10, 100),
        flex_direction: FlexDirection::ColumnReverse,
        children: vec![child(), child()],
        ..Node::default()
    };
    let layout = compute(&root, any_space());
    assert_box(&layout.children[0], 0, 80, 10, 20);
    assert_box(&layout.children[1], 0, 60, 10, 20);
}

#[test]
fn margins_separate_children() {
    let root = Node {
        size: size(100, 50),
        children: vec![
            Node {
                size: size(20, 10),
                margin: Rect { start: points(5), end: points(7), top: points(3), bottom: points(0) },
                ..Node::default()
            },
            Node { size: size(20, 10), ..Node::default() },
        ],
        ..Node::default()
    };
    let layout = compute(&root, any_space());
    assert_box(&layout.children[0], 5, 3, 20, 10);
    assert_box(&layout.children[1], 32, 0, 20, 10);
}

#[test]
fn padding_and_border_shrink_the_content_box() {
    let root = Node {
        size: size(100, 50),
        padding: all_edges(10),
        border: all_edges(5),
        children: vec![Node { flex_grow: fx(1), ..Node::default() }],
        ..Node::default()
    };
    let layout = compute(&root, any_space());
    assert_box(&layout, 0, 0, 100, 50);
    assert_box(&layout.children[0], 0, 0, 70, 20);
}

#[test]
fn percentages_resolve_against_the_content_box() {
    let half = Dimension::Percent(Fixed { raw: 500 });
    let root = Node {
        size: size(200, 100),
        children: vec![Node {
            size: Size { width: half, height: half },
            margin: Rect { start: Dimension::Percent(Fixed { raw: 100 }), end: points(0), top: points(0), bottom: points(0) },
            flex_shrink: fx(0),
            ..Node::default()
        }],
        ..Node::default()
    };
    let layout = compute(&root, any_space());
    assert_box(&layout.children[0], 20, 0, 100, 50);
}

#[test]
fn container_without_size_is_as_large_as_its_children() {
    let root = Node {
        padding: all_edges(5),
        children: vec![
            Node { size: size(30, 10), ..Node::default() },
            Node { size: size(40, 25), margin: all_edges(1), ..Node::default() },
        ],
        ..Node::default()
    };
    let layout = compute(&root, any_space());
    assert_box(&layout, 0, 0, 82, 37);
    assert_box(&layout.children[0], 0, 0, 30, 10);
    assert_box(&layout.children[1], 31, 1, 40, 25);
}

#[test]
fn root_without_size_fills_the_available_space() {
    let root = Node { children: vec![Node { flex_grow: fx(1), ..Node::default() }], ..Node::default() };
    let space = Size { width: Number::Defined(fx(400)), height: Number::Defined(fx(300)) };
    let layout = compute(&root, space);
    assert_box(&layout, 0, 0, 400, 300);
    assert_box(&layout.children[0], 0, 0, 400, 300);
}

#[test]
fn root_percentages_resolve_against_the_available_space() {
    let half = Dimension::Percent(Fixed { raw: 500 });
    let root = Node { size: Size { width: half, height: half }, ..Node::default() };
    let space = Size { width: Number::Defined(fx(400)), height: Number::Defined(fx(300)) };
    let layout = compute(&root, space);
    assert_box(&layout, 0, 0, 200, 150);
}

#[test]
fn nested_containers() {
    let root = Node {
        size: size(200, 100),
        children: vec![
            Node {
                flex_direction: FlexDirection::Column,
                flex_grow: fx(1),
                children: vec![
                    Node { size: Size { width: Dimension::Auto, height: points(30) }, ..Node::default() },
                    Node { flex_grow: fx(1), ..Node::default() },
                ],
                ..Node::default()
            },
            Node { size: size(50, 50), ..Node::default() },
        ],
        ..Node::default()
    };
    let layout = compute(&root, any_space());
    assert_box(&layout.children[0], 0, 0, 150, 100);
    assert_box(&layout.children[0].children[0], 0, 0, 150, 30);
    assert_box(&layout.children[0].children[1], 0, 30, 150, 70);
    assert_box(&layout.children[1], 150, 0, 50, 50);
}

#[test]
fn wrapping_breaks_lines_and_stretches_them() {
    let child = || Node { size: size(60, 20), ..Node::default() };
    let root = Node {
        size: size(100, 100),
        flex_wrap: FlexWrap::Wrap,
        children: vec![child(), child(), child()],
        ..Node::default()
    };
    let layout = compute(&root, any_space());
    assert_box(&layout.children[0], 0, 0, 60, 20);
    assert_eq!(layout.children[1].location, Point { x: fx(0), y: Fixed { raw: 33_333 } });
    assert_eq!(layout.children[2].location, Point { x: fx(0), y: Fixed { raw: 66_666 } });
    assert_eq!(layout.children[1].size, Size { width: fx(60), height: fx(20) });
    assert_eq!(layout.children[2].size, Size { width: fx(60), height: fx(20) });
}

#[test]
fn wrapping_keeps_children_that_fit_on_one_line() {
    let child = || Node { size: size(40, 20), ..Node::default() };
    let root = Node {
        size: size(100, 100),
        flex_wrap: FlexWrap::Wrap,
        align_content: AlignContent::FlexStart,
        children: vec![child(), child(), child()],
        ..Node::default()
    };
    let layout = compute(&root, any_space());
    assert_box(&layout.children[0], 0, 0, 40, 20);
    assert_box(&layout.children[1], 40, 0, 40, 20);
    assert_box(&layout.children[2], 0, 20, 40, 20);
}

#[test]
fn a_child_wider_than_the_container_gets_a_line_of_its_own() {
    let root = Node {
        size: size(100, 100),
        flex_wrap: FlexWrap::Wrap,
        align_content: AlignContent::FlexStart,
        children: vec![
            Node { size: size(150, 20), flex_shrink: fx(0), ..Node::default() },
            Node { size: size(30, 20), ..Node::default() },
        ],
        ..Node::default()
    };
    let layout = compute(&root, any_space());
    assert_box(&layout.children[0], 0, 0, 150, 20);
    assert_box(&layout.children[1], 0, 20, 30, 20);
}

#[test]
fn lines_are_spread_by_align_content() {
    let lay = |align: AlignContent| {
        let child = || Node { size: size(60, 20), ..Node::default() };
        let root = Node {
            size: size(100, 100),
            flex_wrap: FlexWrap::Wrap,
            align_content: align,
            children: vec![child(), child()],
            ..Node::default()
        };
        let layout = compute(&root, any_space());
        (layout.children[0].location.y, layout.children[1].location.y)
    };
    assert_eq!(lay(AlignContent::FlexStart), (fx(0), fx(20)));
    assert_eq!(lay(AlignContent::FlexEnd), (fx(60), fx(80)));
    assert_eq!(lay(AlignContent::Center), (fx(30), fx(50)));
    assert_eq!(lay(AlignContent::SpaceBetween), (fx(0), fx(80)));
    assert_eq!(lay(AlignContent::SpaceAround), (fx(15), fx(65)));
    assert_eq!(lay(AlignContent::Stretch), (fx(0), fx(50)));
}

#[test]
fn wrapping_in_reverse_stacks_lines_from_the_far_end() {
    let child = || Node { size: size(60, 20), ..Node::default() };
    let root = Node {
        size: size(100, 100),
        flex_wrap: FlexWrap::WrapReverse,
        align_content: AlignContent::FlexStart,
        children: vec![child(), child()],
        ..Node::default()
    };
    let layout = compute(&root, any_space());
    assert_box(&layout.children[0], 0, 80, 60, 20);
    assert_box(&layout.children[1], 0, 60, 60, 20);
}

#[test]
fn absolute_child_is_placed_by_its_insets_and_leaves_the_flow_alone() {
    let flowing = || Node { flex_grow: fx(1), ..Node::default() };
    let absolute = Node {
        position_type: PositionType::Absolute,
        position: Rect { start: points(10), end: Dimension::Undefined, top: points(5), bottom: Dimension::Undefined },
        size: size(20, 30),
        flex_grow: fx(5),
        ..Node::default()
    };
    let with = Node { size: size(200, 100), children: vec![flowing(), absolute, flowing()], ..Node::default() };
    let without = Node { size: size(200, 100), children: vec![flowing(), flowing()], ..Node::default() };
    let a = compute(&with, any_space());
    let b = compute(&without, any_space());
    assert_box(&a.children[1], 10, 5, 20, 30);
    assert_eq!(a.children[0], b.children[0]);
    assert_eq!(a.children[2], b.children[1]);
    assert_box(&a.children[0], 0, 0, 100, 100);
    assert_box(&a.children[2], 100, 0, 100, 100);
}

#[test]
fn absolute_child_between_far_insets() {
    let absolute = Node {
        position_type: PositionType::Absolute,
        position: Rect { start: Dimension::Undefined, end: points(10), top: Dimension::Undefined, bottom: points(5) },
        size: size(20, 30),
        ..Node::default()
    };
    let root = Node { size: size(200, 100), children: vec![absolute], ..Node::default() };
    let layout = compute(&root, any_space());
    assert_box(&layout.children[0], 170, 65, 20, 30);
}

#[test]
fn absolute_child_spans_between_its_insets() {
    let absolute = Node {
        position_type: PositionType::Absolute,
        position: Rect { start: points(10), end: points(30), top: points(5), bottom: points(15) },
        ..Node::default()
    };
    let root = Node { size: size(200, 100), children: vec![absolute], ..Node::default() };
    let layout = compute(&root, any_space());
    assert_box(&layout.children[0], 10, 5, 160, 80);
}

#[test]
fn absolute_child_without_insets_sits_where_it_would_in_flow() {
    let absolute = Node { position_type: PositionType::Absolute, size: size(20, 30), ..Node::default() };
    let root = Node {
        size: size(200, 100),
        justify_content: JustifyContent::Center,
        align_items: AlignItems::FlexEnd,
        children: vec![absolute],
        ..Node::default()
    };
    let layout = compute(&root, any_space());
    assert_box(&layout.children[0], 90, 70, 20, 30);
}

#[test]
fn hidden_child_takes_no_space_and_keeps_its_shape() {
    let hidden = Node {
        display: Display::Hidden,
        size: size(50, 50),
        children: vec![Node { size: size(10, 10), children: vec![Node::default()], ..Node::default() }],
        ..Node::default()
    };
    let root = Node {
        size: size(200, 100),
        children: vec![hidden, Node { flex_grow: fx(1), ..Node::default() }],
        ..Node::default()
    };
    let layout = compute(&root, any_space());
    assert!(same_shape(&layout, &root));
    assert_box(&layout.children[0], 0, 0, 0, 0);
    assert_box(&layout.children[0].children[0], 0, 0, 0, 0);
    assert_box(&layout.children[0].children[0].children[0], 0, 0, 0, 0);
    assert_box(&layout.children[1], 0, 0, 200, 100);
}

#[test]
fn hidden_root_has_no_extent() {
    let root = Node {
        display: Display::Hidden,
        size: size(50, 50),
        children: vec![Node { size: size(10, 10), ..Node::default() }],
        ..Node::default()
    };
    let layout = compute(&root, any_space());
    assert!(same_shape(&layout, &root));
    assert_box(&layout, 0, 0, 0, 0);
    assert_box(&layout.children[0], 0, 0, 0, 0);
}

#[test]
fn tree_without_any_size_collapses_to_nothing() {
    let root = Node { children: vec![Node::default(), Node::default()], ..Node::default() };
    let layout = compute(&root, any_space());
    assert_box(&layout, 0, 0, 0, 0);
    assert_box(&layout.children[0], 0, 0, 0, 0);
    assert_box(&layout.children[1], 0, 0, 0, 0);
}

#[test]
fn layout_keeps_the_shape_of_the_tree() {
    let leaf = || Node::default();
    let root = Node {
        size: size(100, 100),
        children: vec![
            Node { children: vec![leaf(), leaf(), leaf()], ..Node::default() },
            leaf(),
            Node {
                position_type: PositionType::Absolute,
                children: vec![Node { children: vec![leaf()], ..Node::default() }],
                ..Node::default()
            },
        ],
        ..Node::default()
    };
    let layout = compute(&root, any_space());
    assert!(same_shape(&layout, &root));
}

#[test]
fn limits_hold_on_every_line_of_a_wrapping_container() {
    let child = || Node {
        size: size(150, 20),
        max_size: Size { width: points(90), height: Dimension::Auto },
        min_size: Size { width: points(70), height: Dimension::Auto },
        ..Node::default()
    };
    let root = Node {
        size: size(60, 100),
        flex_wrap: FlexWrap::Wrap,
        align_content: AlignContent::FlexStart,
        children: vec![child(), child()],
        ..Node::default()
    };
    let layout = compute(&root, any_space());
    assert_box(&layout.children[0], 0, 0, 70, 20);
    assert_box(&layout.children[1], 0, 20, 70, 20);
}

#[test]
fn extreme_lengths_saturate() {
    let huge = Dimension::Points(Fixed { raw: i64::MAX });
    let child = || Node { size: Size { width: huge, height: huge }, flex_shrink: fx(0), ..Node::default() };
    let root = Node { children: vec![child(), child()], padding: all_edges(1), ..Node::default() };
    let layout = compute(&root, any_space());
    let top = Fixed { raw: i64::MAX };
    assert_eq!(layout.size, Size { width: top, height: top });
    assert_eq!(layout.children[0].size, Size { width: top, height: top });
    assert_eq!(layout.children[1].location, Point { x: top, y: fx(0) });
}

#[test]
fn negative_sizes_count_as_nothing() {
    let root = Node {
        size: size(100, 50),
        children: vec![Node { size: size(-20, -5), flex_shrink: fx(0), ..Node::default() }],
        ..Node::default()
    };
    let layout = compute(&root, any_space());
    assert_box(&layout.children[0], 0, 0, 0, 0);
}

#[test]
fn content_is_the_basis_of_a_child_without_size() {
    let root = Node {
        size: size(300, 50),
        children: vec![
            Node { flex_grow: fx(1), children: vec![Node { size: size(6, 5), ..Node::default() }], ..Node::default() },
            Node { flex_grow: fx(2), ..Node::default() },
        ],
        ..Node::default()
    };
    let layout = compute(&root, any_space());
    assert_box(&layout.children[0], 0, 0, 104, 50);
    assert_box(&layout.children[1], 104, 0, 196, 50);
}

#[test]
fn boundary_layout_agrees_with_owned_layout() {
    let build = || Node {
        size: size(300, 50),
        children: vec![
            Node {
                flex_grow: fx(1),
                flex_basis: points(0),
                children: vec![Node { size: size(5, 5), ..Node::default() }],
                ..Node::default()
            },
            Node { flex_grow: fx(2), ..Node::default() },
        ],
        ..Node::default()
    };
    let owned = compute(&build(), any_space());
    let boundary = compute_layout(Node::to_style_node(Box::new(build())), any_space());
    let back = layout::LayoutNode::to_node(boundary);
    assert_eq!(*back, owned);
    assert_box(&back.children[0], 0, 0, 100, 50);
    assert_box(&back.children[1], 100, 0, 200, 50);
    assert_box(&back.children[0].children[0], 0, 0, 5, 5);
}
