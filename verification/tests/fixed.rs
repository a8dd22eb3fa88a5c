use exgui_render_nanovg::bounds::BoundingBox;
use exgui_render_nanovg::fixed::{greater, half, lesser, minus, percent, plus, UNIT};
use exgui_render_nanovg::value::{Kind, Value};

#[test]
fn unit_is_a_million() {
    assert_eq!(UNIT, 1_000_000);
}

#[test]
fn plus_adds() {
    assert_eq!(plus(2, 3), 5);
    assert_eq!(plus(-7, 3), -4);
}

#[test]
fn plus_saturates_at_both_ends() {
    assert_eq!(plus(i64::MAX, 1), i64::MAX);
    assert_eq!(plus(i64::MAX, i64::MAX), i64::MAX);
    assert_eq!(plus(i64::MIN, -1), i64::MIN);
    assert_eq!(plus(i64::MIN, i64::MAX), -1);
}

#[test]
fn minus_subtracts() {
    assert_eq!(minus(2, 3), -1);
    assert_eq!(minus(-7, -3), -4);
}

#[test]
fn minus_saturates_at_both_ends() {
    assert_eq!(minus(i64::MIN, 1), i64::MIN);
    assert_eq!(minus(0, i64::MIN), i64::MAX);
    assert_eq!(minus(i64::MAX, -1), i64::MAX);
}

#[test]
fn percent_of_a_length() {
    assert_eq!(percent(50 * UNIT, 480 * UNIT), 240 * UNIT);
    assert_eq!(percent(5 * UNIT, 480 * UNIT), 24 * UNIT);
    assert_eq!(percent(90 * UNIT, 480 * UNIT), 432 * UNIT);
    assert_eq!(percent(100 * UNIT, 7), 7);
    assert_eq!(percent(0, 480 * UNIT), 0);
    assert_eq!(percent(150 * UNIT, 2 * UNIT), 3 * UNIT);
}

#[test]
fn percent_of_a_fractional_percentage() {
    // 12.5 % of 80 is 10.
    assert_eq!(percent(12_500_000, 80 * UNIT), 10 * UNIT);
}

#[test]
fn percent_rounds_down() {
    assert_eq!(percent(50 * UNIT, 3), 1);
    assert_eq!(percent(50 * UNIT, -3), -2);
    assert_eq!(percent(-50 * UNIT, 3), -2);
    assert_eq!(percent(-50 * UNIT, -3), 1);
    assert_eq!(percent(UNIT, 1), 0);
    assert_eq!(percent(-UNIT, 1), -1);
}

#[test]
fn percent_saturates() {
    assert_eq!(percent(i64::MAX, i64::MAX), i64::MAX);
    assert_eq!(percent(i64::MAX, i64::MIN), i64::MIN);
    assert_eq!(percent(i64::MIN, i64::MIN), i64::MAX);
}

#[test]
fn half_rounds_down() {
    assert_eq!(half(4), 2);
    assert_eq!(half(3), 1);
    assert_eq!(half(-3), -2);
    assert_eq!(half(-4), -2);
    assert_eq!(half(0), 0);
    assert_eq!(half(i64::MIN), i64::MIN / 2);
    assert_eq!(half(i64::MAX), i64::MAX / 2);
}

#[test]
fn lesser_and_greater_pick_one_of_two() {
    assert_eq!(lesser(3, -5), -5);
    assert_eq!(lesser(-5, 3), -5);
    assert_eq!(greater(3, -5), 3);
    assert_eq!(greater(-5, 3), 3);
    assert_eq!(lesser(4, 4), 4);
    assert_eq!(greater(4, 4), 4);
}

#[test]
fn value_constructors() {
    assert_eq!(Value::literal(7), Value { val: 7, kind: Kind::Literal });
    assert_eq!(Value::percent(5 * UNIT), Value { val: 0, kind: Kind::Percent(5 * UNIT) });
    assert_eq!(Value::auto(), Value { val: 0, kind: Kind::Auto });
    assert_eq!(Value::default(), Value { val: 0, kind: Kind::Auto });
    assert_eq!(Value::literal(7).val(), 7);
}

#[test]
fn percent_field_resolves_to_origin_plus_share() {
    // For each percentage and each dimension, the share of the dimension.
    let table: [(i64, i64, i64); 9] = [
        (0, 0, 0),
        (0, 1, 0),
        (0, 480, 0),
        (50, 0, 0),
        (50, 1, 500_000),
        (50, 480, 240_000_000),
        (100, 0, 0),
        (100, 1, 1_000_000),
        (100, 480, 480_000_000),
    ];
    for (pct, dimension, share) in table {
        for origin in [0, 24 * UNIT, -3 * UNIT] {
            let mut value = Value::percent(pct * UNIT);
            value.place_by_pct(dimension * UNIT, origin);
            assert_eq!(value.val(), origin + share);
            assert_eq!(value.kind, Kind::Percent(pct * UNIT));
        }
    }
}

#[test]
fn set_by_pct_touches_percent_fields_only() {
    let mut literal = Value::literal(7 * UNIT);
    assert!(!literal.set_by_pct(480 * UNIT));
    assert_eq!(literal, Value::literal(7 * UNIT));

    let mut auto = Value::auto();
    assert!(!auto.set_by_pct(480 * UNIT));
    assert_eq!(auto, Value::auto());

    let mut pct = Value::percent(25 * UNIT);
    assert!(pct.set_by_pct(480 * UNIT));
    assert_eq!(pct, Value { val: 120 * UNIT, kind: Kind::Percent(25 * UNIT) });
}

#[test]
fn place_by_pct_leaves_other_kinds() {
    let mut literal = Value::literal(7 * UNIT);
    literal.place_by_pct(480 * UNIT, 24 * UNIT);
    assert_eq!(literal, Value::literal(7 * UNIT));

    let mut auto = Value { val: 9, kind: Kind::Auto };
    auto.place_by_pct(480 * UNIT, 24 * UNIT);
    assert_eq!(auto, Value { val: 9, kind: Kind::Auto });
}

#[test]
fn percent_field_is_resolved_anew_each_time() {
    let mut value = Value::percent(50 * UNIT);
    value.place_by_pct(480 * UNIT, 0);
    assert_eq!(value.val(), 240 * UNIT);
    value.place_by_pct(100 * UNIT, 10 * UNIT);
    assert_eq!(value.val(), 60 * UNIT);
}

#[test]
fn set_by_auto_touches_auto_fields_only() {
    let mut literal = Value::literal(7 * UNIT);
    assert!(!literal.set_by_auto(UNIT));
    assert_eq!(literal, Value::literal(7 * UNIT));

    let mut pct = Value::percent(25 * UNIT);
    assert!(!pct.set_by_auto(UNIT));
    assert_eq!(pct, Value::percent(25 * UNIT));

    let mut auto = Value::auto();
    assert!(auto.set_by_auto(3 * UNIT));
    assert_eq!(auto, Value { val: 3 * UNIT, kind: Kind::Auto });
}

#[test]
fn bounding_box_extent() {
    let b = BoundingBox { min_x: 10, min_y: -20, max_x: 110, max_y: 20 };
    assert_eq!(b.width(), 100);
    assert_eq!(b.height(), 40);
}

#[test]
fn bounding_box_extent_saturates() {
    let b = BoundingBox { min_x: i64::MIN, min_y: 0, max_x: i64::MAX, max_y: 0 };
    assert_eq!(b.width(), i64::MAX);
    assert_eq!(b.height(), 0);
}

#[test]
fn bounding_box_default_is_zero() {
    assert_eq!(BoundingBox::default(), BoundingBox { min_x: 0, min_y: 0, max_x: 0, max_y: 0 });
}

#[test]
fn bounding_box_union_takes_outer_edges() {
    let a = BoundingBox { min_x: 80, min_y: 80, max_x: 120, max_y: 120 };
    let b = BoundingBox { min_x: 250, min_y: 150, max_x: 350, max_y: 250 };
    let u = BoundingBox { min_x: 80, min_y: 80, max_x: 350, max_y: 250 };
    assert_eq!(a.union(b), u);
    assert_eq!(b.union(a), u);
    assert_eq!(a.union(a), a);
}

#[test]
fn bounding_box_around_shapes() {
    assert_eq!(
        BoundingBox::around_rect(10, 20, 100, 40),
        BoundingBox { min_x: 10, min_y: 20, max_x: 110, max_y: 60 }
    );
    assert_eq!(
        BoundingBox::around_circle(100, 50, 20),
        BoundingBox { min_x: 80, min_y: 30, max_x: 120, max_y: 70 }
    );
}
