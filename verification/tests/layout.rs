use exgui_render_nanovg::bounds::BoundingBox;
use exgui_render_nanovg::fixed::UNIT;
use exgui_render_nanovg::frame::Frame;
use exgui_render_nanovg::renderer::Renderer;
use exgui_render_nanovg::shape::{
    Align, AlignHor, AlignVer, Circle, Node, Path, PathCommand, Rect, Shape, Text,
};
use exgui_render_nanovg::value::{Kind, Value};

fn px(n: i64) -> i64 {
    n * UNIT
}

fn area(min_x: i64, min_y: i64, max_x: i64, max_y: i64) -> BoundingBox {
    BoundingBox { min_x: px(min_x), min_y: px(min_y), max_x: px(max_x), max_y: px(max_y) }
}

fn surface() -> BoundingBox {
    area(0, 0, 480, 480)
}

fn rect(x: Value, y: Value, width: Value, height: Value) -> Shape {
    Shape::Rect(Rect { x, y, width, height, fill: None, stroke: None, transform: None })
}

fn circle(cx: Value, cy: Value, r: Value) -> Shape {
    Shape::Circle(Circle { cx, cy, r, fill: None, stroke: None, transform: None })
}

fn text(x: Value, y: Value, hor: AlignHor) -> Shape {
    Shape::Text(Text {
        x,
        y,
        font_name: String::from("Roboto"),
        font_size: Value::literal(px(24)),
        align: Align { hor, ver: AlignVer::Baseline },
        fill: None,
        transform: None,
    })
}

fn word(content: &str) -> Node {
    Node::leaf(Shape::Word(String::from(content)))
}

fn lit(n: i64) -> Value {
    Value::literal(px(n))
}

fn pct(n: i64) -> Value {
    Value::percent(px(n))
}

fn as_rect(node: &Node) -> Rect {
    match &node.shape {
        Shape::Rect(r) => *r,
        other => panic!("not a rectangle: {:?}", other),
    }
}

fn as_circle(node: &Node) -> Circle {
    match &node.shape {
        Shape::Circle(c) => *c,
        other => panic!("not a circle: {:?}", other),
    }
}

fn as_text(node: &Node) -> Text {
    match &node.shape {
        Shape::Text(t) => t.clone(),
        other => panic!("not a text container: {:?}", other),
    }
}

fn layout(node: &mut Node, parent: BoundingBox, boxes: Vec<BoundingBox>) -> (BoundingBox, Frame) {
    let mut frame = Frame::new(boxes);
    let bound = Renderer::render_recalc(&mut frame, node, parent, None);
    (bound, frame)
}

#[test]
fn rect_percent_of_surface() {
    let mut node = Node::leaf(rect(pct(5), lit(0), pct(90), lit(0)));
    let (bound, _) = layout(&mut node, surface(), vec![]);
    let r = as_rect(&node);
    assert_eq!(r.x.val(), 24 * UNIT);
    assert_eq!(r.width.val(), 432 * UNIT);
    assert_eq!(r.x.kind, Kind::Percent(5 * UNIT));
    assert_eq!(r.width.kind, Kind::Percent(90 * UNIT));
    assert_eq!(bound, area(24, 0, 456, 0));
}

#[test]
fn rect_percent_is_taken_from_the_low_corner_of_the_parent() {
    let mut node = Node::leaf(rect(pct(50), pct(25), pct(50), pct(25)));
    let (bound, _) = layout(&mut node, area(100, 200, 300, 600), vec![]);
    // x = 100 + 50 % of 200, y = 200 + 25 % of 400; the size has no origin.
    assert_eq!(bound, area(200, 300, 300, 400));
    let r = as_rect(&node);
    assert_eq!(r.width.val(), px(100));
    assert_eq!(r.height.val(), px(100));
}

#[test]
fn circle_percent_radius_follows_the_lesser_dimension() {
    let mut node = Node::leaf(circle(pct(50), pct(50), pct(10)));
    let (bound, _) = layout(&mut node, area(0, 0, 400, 200), vec![]);
    let c = as_circle(&node);
    assert_eq!(c.cx.val(), px(200));
    assert_eq!(c.cy.val(), px(100));
    assert_eq!(c.r.val(), px(20));
    assert_eq!(bound, area(180, 80, 220, 120));
}

#[test]
fn literal_fields_pass_through() {
    let mut node = Node::leaf(rect(lit(10), lit(20), lit(100), lit(40)));
    let (bound, _) = layout(&mut node, surface(), vec![]);
    assert_eq!(as_rect(&node), as_rect(&Node::leaf(rect(lit(10), lit(20), lit(100), lit(40)))));
    assert_eq!(bound, area(10, 20, 110, 60));
}

#[test]
fn percent_base_is_the_immediate_parent() {
    let inner = Node::leaf(circle(pct(50), pct(50), pct(10)));
    let mut node = Node::new(rect(pct(5), pct(5), pct(90), pct(90)), vec![inner]);
    let (bound, _) = layout(&mut node, surface(), vec![]);
    assert_eq!(bound, area(24, 24, 456, 456));
    let c = as_circle(&node.childs[0]);
    assert_eq!(c.cx.val(), px(240));
    assert_eq!(c.cy.val(), px(240));
    // 10 % of 432, not of 480.
    assert_eq!(c.r.val(), 43_200_000);
}

#[test]
fn auto_rect_around_two_circles_is_their_union() {
    let one = Node::leaf(circle(lit(100), lit(100), lit(20)));
    let other = Node::leaf(circle(lit(300), lit(200), lit(50)));
    let mut node =
        Node::new(rect(Value::auto(), Value::auto(), Value::auto(), Value::auto()), vec![one, other]);
    let (bound, _) = layout(&mut node, surface(), vec![]);
    // The circles cover [80, 120] x [80, 120] and [250, 350] x [150, 250].
    assert_eq!(bound, area(80, 80, 350, 250));
    assert_eq!(bound.min_x, px(80).min(px(250)));
    assert_eq!(bound.min_y, px(80).min(px(150)));
    assert_eq!(bound.max_x, px(120).max(px(350)));
    assert_eq!(bound.max_y, px(120).max(px(250)));
    let r = as_rect(&node);
    assert_eq!(r.x.val(), px(80));
    assert_eq!(r.y.val(), px(80));
    assert_eq!(r.width.val(), px(270));
    assert_eq!(r.height.val(), px(170));
    assert_eq!(r.x.kind, Kind::Auto);
}

#[test]
fn union_does_not_depend_on_the_order_of_the_children() {
    let build = |swap: bool| {
        let one = Node::leaf(circle(lit(100), lit(100), lit(20)));
        let other = Node::leaf(circle(lit(300), lit(200), lit(50)));
        let childs = if swap { vec![other, one] } else { vec![one, other] };
        Node::new(rect(Value::auto(), Value::auto(), Value::auto(), Value::auto()), childs)
    };
    let mut forward = build(false);
    let mut backward = build(true);
    assert_eq!(
        layout(&mut forward, surface(), vec![]).0,
        layout(&mut backward, surface(), vec![]).0
    );
}

#[test]
fn auto_rect_without_children_is_degenerate_at_zero() {
    let mut node = Node::leaf(rect(Value::auto(), Value::auto(), Value::auto(), Value::auto()));
    let (bound, _) = layout(&mut node, surface(), vec![]);
    assert_eq!(bound, area(0, 0, 0, 0));
    assert_eq!(bound.width(), 0);
    assert_eq!(bound.height(), 0);
    assert_ne!(bound, surface());
}

#[test]
fn auto_size_without_children_is_degenerate_at_its_own_corner() {
    let mut node = Node::leaf(rect(lit(10), pct(50), Value::auto(), Value::auto()));
    let (bound, _) = layout(&mut node, surface(), vec![]);
    assert_eq!(bound, area(10, 240, 10, 240));
    assert_eq!(bound.width(), 0);
    assert_eq!(bound.height(), 0);
    let r = as_rect(&node);
    assert_eq!(r.width.val(), 0);
    assert_eq!(r.height.val(), 0);
}

#[test]
fn auto_circle_without_children_is_degenerate_at_its_own_centre() {
    let mut node = Node::leaf(circle(lit(30), lit(40), Value::auto()));
    let (bound, _) = layout(&mut node, surface(), vec![]);
    assert_eq!(bound, area(30, 40, 30, 40));
    assert_eq!(as_circle(&node).r.val(), 0);
}

#[test]
fn auto_circle_is_centred_on_its_children() {
    let inner = Node::leaf(rect(lit(10), lit(20), lit(100), lit(40)));
    let mut node = Node::new(circle(Value::auto(), Value::auto(), Value::auto()), vec![inner]);
    let (bound, _) = layout(&mut node, surface(), vec![]);
    let c = as_circle(&node);
    assert_eq!(c.cx.val(), px(60));
    assert_eq!(c.cy.val(), px(40));
    // Half of the greater dimension.
    assert_eq!(c.r.val(), px(50));
    assert_eq!(bound, area(10, -10, 110, 90));
}

#[test]
fn only_auto_fields_follow_the_children() {
    let inner = Node::leaf(rect(lit(10), lit(20), lit(100), lit(40)));
    let mut node = Node::new(rect(lit(0), Value::auto(), lit(300), Value::auto()), vec![inner]);
    let (bound, _) = layout(&mut node, surface(), vec![]);
    assert_eq!(bound, area(0, 20, 300, 60));
}

#[test]
fn group_and_path_report_the_bound_they_were_given() {
    let inner = Node::leaf(rect(lit(10), lit(20), lit(100), lit(40)));
    let mut group = Node::new(Shape::Group, vec![inner]);
    let (bound, _) = layout(&mut group, area(1, 2, 3, 4), vec![]);
    assert_eq!(bound, area(1, 2, 3, 4));

    let mut path = Node::leaf(Shape::Path(Path {
        cmd: vec![PathCommand::Move(0, 0), PathCommand::Line(px(500), px(500))],
        fill: None,
        stroke: None,
        transform: None,
    }));
    let (bound, _) = layout(&mut path, area(1, 2, 3, 4), vec![]);
    assert_eq!(bound, area(1, 2, 3, 4));
}

#[test]
fn group_hands_the_bound_down_unchanged() {
    let inner = Node::leaf(rect(pct(50), pct(50), pct(50), pct(50)));
    let mut group = Node::new(Shape::Group, vec![inner]);
    layout(&mut group, area(100, 100, 300, 300), vec![]);
    let r = as_rect(&group.childs[0]);
    assert_eq!(r.x.val(), px(200));
    assert_eq!(r.width.val(), px(100));
}

#[test]
fn literal_tree_is_a_fixed_point() {
    let build = || {
        Node::new(
            rect(lit(10), lit(20), lit(300), lit(200)),
            vec![
                Node::leaf(circle(lit(50), lit(60), lit(5))),
                Node::new(text(lit(30), lit(40), AlignHor::Center), vec![word("tick")]),
                Node::new(Shape::Group, vec![Node::leaf(rect(lit(1), lit(2), lit(3), lit(4)))]),
            ],
        )
    };
    let boxes = vec![area(30, 20, 70, 44)];
    let mut node = build();
    let (first, _) = layout(&mut node, surface(), boxes.clone());
    assert_eq!(node, build());
    let (second, _) = layout(&mut node, surface(), boxes);
    assert_eq!(node, build());
    assert_eq!(first, second);
    assert_eq!(first, area(10, 20, 310, 220));
}

#[test]
fn tree_without_auto_fields_is_laid_out_the_same_twice() {
    let build = || {
        Node::new(
            rect(pct(5), pct(5), pct(90), pct(90)),
            vec![Node::new(
                circle(pct(50), pct(50), pct(25)),
                vec![Node::leaf(rect(pct(10), lit(7), pct(20), lit(9)))],
            )],
        )
    };
    let mut once = build();
    let (first, _) = layout(&mut once, surface(), vec![]);
    let mut twice = build();
    layout(&mut twice, surface(), vec![]);
    let (second, _) = layout(&mut twice, surface(), vec![]);
    assert_eq!(once, twice);
    assert_eq!(first, second);
}

#[test]
fn word_takes_the_measured_extent() {
    let mut node = Node::new(text(lit(50), lit(100), AlignHor::Left), vec![word("Some text")]);
    let (bound, frame) = layout(&mut node, surface(), vec![area(50, 80, 250, 104)]);
    assert_eq!(bound, area(50, 80, 250, 104));
    assert_eq!(frame.cursor, 1);
    assert_eq!(frame.remaining(), 0);
}

#[test]
fn centred_word_is_moved_left_by_half_its_width() {
    let mut node = Node::new(text(lit(100), lit(30), AlignHor::Center), vec![word("mid")]);
    let (bound, _) = layout(&mut node, surface(), vec![area(100, 10, 160, 30)]);
    assert_eq!(bound, area(70, 10, 130, 30));
}

#[test]
fn right_aligned_word_is_taken_as_measured() {
    let mut node = Node::new(text(lit(100), lit(30), AlignHor::Right), vec![word("end")]);
    let (bound, _) = layout(&mut node, surface(), vec![area(40, 10, 100, 30)]);
    assert_eq!(bound, area(40, 10, 100, 30));
}

#[test]
fn text_container_covers_its_words() {
    let mut node = Node::new(
        text(lit(0), lit(0), AlignHor::Left),
        vec![word("one"), word("two")],
    );
    let boxes = vec![area(0, 0, 30, 10), area(5, 12, 50, 22)];
    let (bound, frame) = layout(&mut node, surface(), boxes);
    assert_eq!(bound, area(0, 0, 50, 22));
    assert_eq!(frame.cursor, 2);
}

#[test]
fn text_container_without_words_has_the_zero_box() {
    let mut node = Node::leaf(text(lit(70), lit(80), AlignHor::Left));
    let (bound, frame) = layout(&mut node, surface(), vec![]);
    assert_eq!(bound, area(0, 0, 0, 0));
    assert_eq!(frame.cursor, 0);
}

#[test]
fn text_anchor_resolves_against_the_parent() {
    let mut node = Node::new(text(pct(50), pct(25), AlignHor::Left), vec![]);
    layout(&mut node, area(100, 200, 300, 600), vec![]);
    let t = as_text(&node);
    assert_eq!(t.x.val(), px(200));
    assert_eq!(t.y.val(), px(300));
    assert_eq!(t.font_size, Value::literal(px(24)));
}

#[test]
fn word_outside_a_text_container_uses_no_measurement() {
    let mut node = Node::new(Shape::Group, vec![word("stray")]);
    let (bound, frame) = layout(&mut node, area(1, 2, 3, 4), vec![area(9, 9, 9, 9)]);
    assert_eq!(bound, area(1, 2, 3, 4));
    assert_eq!(frame.cursor, 0);
    assert_eq!(frame.remaining(), 1);
}

#[test]
fn measurements_are_taken_in_tree_order() {
    let mut node = Node::new(
        Shape::Group,
        vec![
            Node::new(
                rect(Value::auto(), Value::auto(), Value::auto(), Value::auto()),
                vec![Node::new(text(lit(0), lit(0), AlignHor::Left), vec![word("first")])],
            ),
            Node::new(
                rect(Value::auto(), Value::auto(), Value::auto(), Value::auto()),
                vec![Node::new(text(lit(0), lit(0), AlignHor::Left), vec![word("second")])],
            ),
        ],
    );
    let boxes = vec![area(0, 0, 10, 10), area(20, 20, 40, 40)];
    let (_, frame) = layout(&mut node, surface(), boxes);
    assert_eq!(frame.cursor, 2);
    let first = as_rect(&node.childs[0]);
    let second = as_rect(&node.childs[1]);
    assert_eq!((first.x.val(), first.width.val()), (0, px(10)));
    assert_eq!((second.x.val(), second.width.val()), (px(20), px(20)));
}

#[test]
fn auto_shapes_wrap_measured_text() {
    // A rectangle around a circle around a line of text.
    let line = Node::new(text(lit(50), lit(100), AlignHor::Left), vec![word("Some text in circle")]);
    let ring = Node::new(circle(Value::auto(), Value::auto(), Value::auto()), vec![line]);
    let mut node =
        Node::new(rect(Value::auto(), Value::auto(), Value::auto(), Value::auto()), vec![ring]);
    let (bound, _) = layout(&mut node, surface(), vec![area(50, 80, 250, 104)]);
    let c = as_circle(&node.childs[0]);
    assert_eq!(c.cx.val(), px(150));
    assert_eq!(c.cy.val(), px(92));
    assert_eq!(c.r.val(), px(100));
    assert_eq!(bound, area(50, -8, 250, 192));
    let r = as_rect(&node);
    assert_eq!(r.x.val(), px(50));
    assert_eq!(r.y.val(), px(-8));
    assert_eq!(r.width.val(), px(200));
    assert_eq!(r.height.val(), px(200));
}

#[test]
fn auto_field_keeps_its_number_for_the_way_down() {
    // On the way down an automatic field counts with the number it has:
    // zero at first, the number of the last pass after that.
    let build = || {
        Node::new(
            rect(lit(0), lit(0), Value::auto(), lit(100)),
            vec![Node::leaf(rect(lit(0), lit(0), pct(50), lit(10)))],
        )
    };
    let mut node = build();
    layout(&mut node, surface(), vec![]);
    assert_eq!(as_rect(&node.childs[0]).width.val(), 0);
    assert_eq!(as_rect(&node).width.val(), 0);

    let mut wide = build();
    match &mut wide.shape {
        Shape::Rect(r) => r.width.val = px(80),
        _ => unreachable!(),
    }
    layout(&mut wide, surface(), vec![]);
    assert_eq!(as_rect(&wide.childs[0]).width.val(), px(40));
    assert_eq!(as_rect(&wide).width.val(), px(40));
}

#[test]
fn layout_keeps_names_and_modifiers() {
    let mut node = Node::leaf(rect(pct(5), lit(0), pct(90), lit(0)))
        .with_id(String::from("frame"))
        .with_modifier(3);
    layout(&mut node, surface(), vec![]);
    assert_eq!(node.id, Some(String::from("frame")));
    assert_eq!(node.modifier, Some(3));
}

#[test]
fn layout_issues_no_drawing() {
    let mut node = Node::leaf(rect(pct(5), lit(0), pct(90), lit(0)));
    let (_, frame) = layout(&mut node, surface(), vec![area(0, 0, 1, 1)]);
    assert!(frame.ops.is_empty());
    assert_eq!(frame.boxes, vec![area(0, 0, 1, 1)]);
}

#[test]
fn inner_bound_takes_the_outer_edges_of_the_children() {
    let mut node = Node::new(
        Shape::Group,
        vec![
            Node::leaf(rect(lit(40), lit(90), lit(10), lit(10))),
            Node::leaf(circle(lit(100), lit(100), lit(20))),
            Node::leaf(rect(lit(60), lit(30), lit(300), lit(5))),
            Node::leaf(circle(lit(10), lit(200), lit(3))),
        ],
    );
    // The children cover [40, 50] x [90, 100], [80, 120] x [80, 120],
    // [60, 360] x [30, 35] and [7, 13] x [197, 203].
    let each = [area(40, 90, 50, 100), area(80, 80, 120, 120), area(60, 30, 360, 35), area(7, 197, 13, 203)];
    let mut frame = Frame::new(vec![]);
    let inner = Renderer::calc_inner_bound(&mut frame, &mut node, surface(), None);
    assert_eq!(inner, area(7, 30, 360, 203));
    assert_eq!(inner.min_x, each.iter().map(|b| b.min_x).min().unwrap());
    assert_eq!(inner.min_y, each.iter().map(|b| b.min_y).min().unwrap());
    assert_eq!(inner.max_x, each.iter().map(|b| b.max_x).max().unwrap());
    assert_eq!(inner.max_y, each.iter().map(|b| b.max_y).max().unwrap());
    for b in each {
        assert!(inner.min_x <= b.min_x && inner.min_y <= b.min_y);
        assert!(inner.max_x >= b.max_x && inner.max_y >= b.max_y);
    }
}

#[test]
fn inner_bound_of_one_child_is_that_child() {
    let mut node = Node::new(Shape::Group, vec![Node::leaf(circle(lit(100), lit(100), lit(20)))]);
    let mut frame = Frame::new(vec![]);
    let inner = Renderer::calc_inner_bound(&mut frame, &mut node, surface(), None);
    assert_eq!(inner, area(80, 80, 120, 120));
}

#[test]
fn inner_bound_lays_the_children_out_in_the_bound_given() {
    let mut node = Node::new(
        Shape::Group,
        vec![
            Node::leaf(rect(pct(0), pct(0), pct(50), pct(50))),
            Node::leaf(rect(pct(50), pct(50), pct(50), pct(50))),
        ],
    );
    let mut frame = Frame::new(vec![]);
    let inner = Renderer::calc_inner_bound(&mut frame, &mut node, area(100, 100, 300, 500), None);
    assert_eq!(inner, area(100, 100, 300, 500));
    assert_eq!(as_rect(&node.childs[1]).x.val(), px(200));
    assert_eq!(as_rect(&node.childs[1]).height.val(), px(200));
    assert_eq!(node.shape, Shape::Group);
}

#[test]
fn inner_bound_without_children_is_the_zero_box() {
    let build = || Node::leaf(rect(pct(5), pct(5), pct(90), pct(90))).with_id(String::from("box"));
    let mut node = build();
    let mut frame = Frame::new(vec![area(1, 1, 2, 2)]);
    let inner = Renderer::calc_inner_bound(&mut frame, &mut node, surface(), None);
    assert_eq!(inner, area(0, 0, 0, 0));
    assert_eq!(inner.width(), 0);
    assert_eq!(inner.height(), 0);
    assert_ne!(inner, surface());
    // The node itself is not laid out, and no measurement is used.
    assert_eq!(node, build());
    assert_eq!(frame.cursor, 0);
}

#[test]
fn inner_bound_uses_the_measurements_of_the_children() {
    let mut node = Node::new(
        text(lit(0), lit(0), AlignHor::Left),
        vec![word("one"), word("two")],
    );
    let container = as_text(&node);
    let mut frame = Frame::new(vec![area(0, 0, 30, 10), area(5, 12, 50, 22)]);
    let inner = Renderer::calc_inner_bound(&mut frame, &mut node, surface(), Some(&container));
    assert_eq!(inner, area(0, 0, 50, 22));
    assert_eq!(frame.cursor, 2);
}
