use exgui_render_nanovg::bounds::BoundingBox;
use exgui_render_nanovg::fixed::UNIT;
use exgui_render_nanovg::frame::{DrawOp, Frame, TextOptions, TextRun};
use exgui_render_nanovg::paint::{Color, Fill, Paint};
use exgui_render_nanovg::renderer::Renderer;
use exgui_render_nanovg::shape::{Align, AlignHor, AlignVer, Circle, Node, Rect, Shape, Text};
use exgui_render_nanovg::value::Value;

const RED: Color = Color { r: UNIT, g: 0, b: 0, a: UNIT };

fn screen() -> BoundingBox {
    BoundingBox { min_x: 0, min_y: 0, max_x: 480 * UNIT, max_y: 480 * UNIT }
}

fn container(x: Value, y: Value, hor: AlignHor, ver: AlignVer) -> Text {
    Text {
        x,
        y,
        font_name: String::from("Roboto"),
        font_size: Value::literal(24 * UNIT),
        align: Align { hor, ver },
        fill: Some(Fill { paint: Paint::Color(RED) }),
        transform: None,
    }
}

fn run(content: &str) -> Node {
    Node::leaf(Shape::Word(String::from(content)))
}

fn framed(childs: Vec<Node>) -> Node {
    Node::new(
        Shape::Rect(Rect {
            x: Value::percent(5 * UNIT),
            y: Value::percent(5 * UNIT),
            width: Value::percent(90 * UNIT),
            height: Value::percent(90 * UNIT),
            fill: None,
            stroke: None,
            transform: None,
        }),
        childs,
    )
}

#[test]
fn runs_are_anchored_where_layout_puts_the_container() {
    let line = Node::new(
        Shape::Text(container(
            Value::percent(50 * UNIT),
            Value::percent(25 * UNIT),
            AlignHor::Left,
            AlignVer::Top,
        )),
        vec![run("Some text")],
    );
    let node = framed(vec![line]);
    let runs = Renderer::text_runs(&node, screen(), None);
    assert_eq!(
        runs,
        vec![TextRun {
            font_name: String::from("Roboto"),
            // 24 + 50 % of 432 and 24 + 25 % of 432.
            x: 240 * UNIT,
            y: 132 * UNIT,
            content: String::from("Some text"),
            options: TextOptions {
                color: RED,
                size: 24 * UNIT,
                align: Align { hor: AlignHor::Left, ver: AlignVer::Top },
                transform: None,
            },
        }]
    );
}

#[test]
fn centred_runs_are_measured_from_the_left() {
    let line = Node::new(
        Shape::Text(container(
            Value::literal(10),
            Value::literal(20),
            AlignHor::Center,
            AlignVer::Middle,
        )),
        vec![run("mid")],
    );
    let runs = Renderer::text_runs(&line, screen(), None);
    assert_eq!(runs.len(), 1);
    assert_eq!(runs[0].options.align, Align { hor: AlignHor::Left, ver: AlignVer::Middle });
    assert_eq!((runs[0].x, runs[0].y), (10, 20));
}

#[test]
fn right_aligned_runs_are_measured_as_they_are() {
    let line = Node::new(
        Shape::Text(container(
            Value::literal(10),
            Value::literal(20),
            AlignHor::Right,
            AlignVer::Bottom,
        )),
        vec![run("end")],
    );
    let runs = Renderer::text_runs(&line, screen(), None);
    assert_eq!(runs[0].options.align, Align { hor: AlignHor::Right, ver: AlignVer::Bottom });
}

#[test]
fn runs_come_in_tree_order() {
    let first = Node::new(
        Shape::Text(container(Value::literal(1), Value::literal(1), AlignHor::Left, AlignVer::Top)),
        vec![run("a"), Node::new(Shape::Group, vec![run("b")])],
    );
    let second = Node::new(
        Shape::Text(container(Value::literal(2), Value::literal(2), AlignHor::Left, AlignVer::Top)),
        vec![run("c")],
    );
    let node = Node::new(Shape::Group, vec![first, run("stray"), second]);
    let runs = Renderer::text_runs(&node, screen(), None);
    let seen: Vec<(&str, i64)> = runs.iter().map(|r| (r.content.as_str(), r.x)).collect();
    assert_eq!(seen, vec![("a", 1), ("b", 1), ("c", 2)]);
}

#[test]
fn run_outside_a_container_is_not_measured() {
    let node = Node::new(Shape::Group, vec![run("stray")]);
    assert!(Renderer::text_runs(&node, screen(), None).is_empty());
}

#[test]
fn runs_under_a_container_handed_in() {
    let outer = container(Value::literal(7), Value::literal(8), AlignHor::Left, AlignVer::Top);
    let runs = Renderer::text_runs(&run("w"), screen(), Some(&outer));
    assert_eq!(runs.len(), 1);
    assert_eq!((runs[0].x, runs[0].y), (7, 8));
}

#[test]
fn measuring_leaves_the_tree_alone() {
    let build = || {
        framed(vec![Node::new(
            Shape::Text(container(
                Value::percent(50 * UNIT),
                Value::percent(50 * UNIT),
                AlignHor::Center,
                AlignVer::Middle,
            )),
            vec![run("x")],
        )])
    };
    let node = build();
    Renderer::text_runs(&node, screen(), None);
    assert_eq!(node, build());
}

#[test]
fn what_is_measured_is_what_is_drawn() {
    // A text centred in a circle of automatic radius, in a rectangle.
    let line = Node::new(
        Shape::Text(container(
            Value::percent(50 * UNIT),
            Value::percent(50 * UNIT),
            AlignHor::Center,
            AlignVer::Middle,
        )),
        vec![run("Some text in circle")],
    );
    let ring = Node::new(
        Shape::Circle(Circle {
            cx: Value::percent(50 * UNIT),
            cy: Value::percent(50 * UNIT),
            r: Value::auto(),
            fill: None,
            stroke: None,
            transform: None,
        }),
        vec![line],
    );
    let mut node = framed(vec![ring]);
    assert!(node.has_leaf_words(false));

    let runs = Renderer::text_runs(&node, screen(), None);
    assert_eq!(runs.len(), 1);
    assert_eq!((runs[0].x, runs[0].y), (240 * UNIT, 240 * UNIT));

    // The backend reports a run of 200 by 24 that begins at the anchor.
    let measured = BoundingBox {
        min_x: 240 * UNIT,
        min_y: 228 * UNIT,
        max_x: 440 * UNIT,
        max_y: 252 * UNIT,
    };
    let mut frame = Frame::new(vec![measured]);
    Renderer::render_recalc(&mut frame, &mut node, screen(), None);
    Renderer::render_draw(&mut frame, &node, None);

    let texts: Vec<&TextRun> = frame
        .ops
        .iter()
        .filter_map(|op| match op {
            DrawOp::Text(run) => Some(run),
            _ => None,
        })
        .collect();
    assert_eq!(texts.len(), 1);
    assert_eq!(texts[0].font_name, runs[0].font_name);
    assert_eq!(texts[0].content, runs[0].content);
    assert_eq!((texts[0].x, texts[0].y), (runs[0].x, runs[0].y));
    assert_eq!(texts[0].options.align.hor, AlignHor::Center);
    assert_eq!(texts[0].options.color, runs[0].options.color);

    // The circle wraps the run, centred on the anchor.
    match &node.childs[0].shape {
        Shape::Circle(c) => {
            assert_eq!(c.cx.val(), 240 * UNIT);
            assert_eq!(c.cy.val(), 240 * UNIT);
            assert_eq!(c.r.val(), 100 * UNIT);
        }
        other => panic!("not a circle: {:?}", other),
    }
}

#[test]
fn leaf_words_are_told_apart() {
    let outer = container(Value::literal(0), Value::literal(0), AlignHor::Left, AlignVer::Top);
    let nested = Node::new(Shape::Word(String::from("w")), vec![run("below")]);
    // Outside a container a run is no text run at all.
    assert!(nested.has_leaf_words(false));
    assert!(!nested.has_leaf_words(true));
    let tree = Node::new(Shape::Text(outer), vec![nested]);
    assert!(!tree.has_leaf_words(false));
    let fine = Node::new(
        Shape::Text(container(Value::literal(0), Value::literal(0), AlignHor::Left, AlignVer::Top)),
        vec![run("a"), run("b")],
    );
    assert!(fine.has_leaf_words(false));
}
