//! Exact arithmetic and geometry checks: rational reduction, overflow
//! behavior, transform round trips, and the stop-operation laws on
//! concrete values.

use gradient_tool::geom::{apply, compose, inverse, lerp_point, project_param, Affine, Point};
use gradient_tool::gradient::{Color, Gradient, GradientType, Stop};
use gradient_tool::rat::{
    rat_add, rat_div, rat_eq, rat_int, rat_le, rat_lt, rat_mul, rat_new, rat_sub, rat_zero, Rat,
};

fn approx(r: &Rat) -> f64 {
    r.num as f64 / r.den as f64
}

fn pt(x: i64, y: i64) -> Point {
    Point::new(rat_int(x), rat_int(y))
}

#[test]
fn reduction_keeps_value() {
    let half = rat_new(2, 4);
    assert!(rat_eq(&half, &rat_new(1, 2)));
    assert_eq!(half.num, 1);
    assert_eq!(half.den, 2);
}

#[test]
fn arithmetic_exact_values() {
    let a = rat_new(1, 3);
    let b = rat_new(1, 6);
    let sum = rat_add(&a, &b).unwrap();
    assert!(rat_eq(&sum, &rat_new(1, 2)));
    let d = rat_sub(&a, &b).unwrap();
    assert!(rat_eq(&d, &rat_new(1, 6)));
    let p = rat_mul(&a, &b).unwrap();
    assert!(rat_eq(&p, &rat_new(1, 18)));
    let q = rat_div(&a, &b).unwrap();
    assert!(rat_eq(&q, &rat_int(2)));
    assert!(rat_lt(&b, &a));
    assert!(rat_le(&b, &a));
}

#[test]
fn overflow_is_reported_not_wrapped() {
    let big = rat_new(i64::MAX - 1, 1);
    // the doubled numerator cannot be reduced and does not fit
    assert!(rat_add(&big, &big).is_none());
}

#[test]
fn division_by_negative_keeps_denominator_positive() {
    let a = rat_int(1);
    let b = rat_int(-2);
    let q = rat_div(&a, &b).unwrap();
    assert!(q.den >= 1);
    assert!(rat_eq(&q, &rat_new(-1, 2)));
}

#[test]
fn transform_round_trip_is_identity() {
    // a shear-and-scale map with nonzero determinant
    let t = Affine {
        a: rat_int(3),
        b: rat_new(1, 2),
        c: rat_int(-1),
        d: rat_int(2),
        tx: rat_int(7),
        ty: rat_int(-4),
    };
    let inv = inverse(&t).unwrap();
    let p = Point::new(rat_new(5, 3), rat_new(-2, 7));
    let fwd = apply(&t, &p).unwrap();
    let back = apply(&inv, &fwd).unwrap();
    // exact round trip, not merely within tolerance
    assert!(rat_eq(&back.x, &p.x));
    assert!(rat_eq(&back.y, &p.y));
}

#[test]
fn inverse_composed_with_map_is_identity() {
    let t = Affine {
        a: rat_new(9239, 10000),
        b: rat_new(-3827, 10000),
        c: rat_new(3827, 10000),
        d: rat_new(9239, 10000),
        tx: rat_int(11),
        ty: rat_int(-2),
    };
    let inv = inverse(&t).unwrap();
    let id = compose(&inv, &t).unwrap();
    assert!(rat_eq(&id.a, &rat_int(1)));
    assert!(rat_eq(&id.b, &rat_zero()));
    assert!(rat_eq(&id.c, &rat_zero()));
    assert!(rat_eq(&id.d, &rat_int(1)));
    assert!(rat_eq(&id.tx, &rat_zero()));
    assert!(rat_eq(&id.ty, &rat_zero()));
}

#[test]
fn singular_transform_has_no_inverse() {
    let t = Affine {
        a: rat_int(2),
        b: rat_int(4),
        c: rat_int(1),
        d: rat_int(2),
        tx: rat_zero(),
        ty: rat_zero(),
    };
    assert!(inverse(&t).is_none());
}

#[test]
fn projection_parameter_is_exact() {
    let s = pt(0, 0);
    let e = pt(100, 0);
    let m = pt(50, 0);
    let t = project_param(&s, &e, &m).unwrap();
    assert!(rat_eq(&t, &rat_new(1, 2)));
    let off_line = pt(25, 40);
    let t2 = project_param(&s, &e, &off_line).unwrap();
    assert!(rat_eq(&t2, &rat_new(1, 4)));
}

#[test]
fn lerp_point_hits_exact_interpolant() {
    let s = pt(2, 3);
    let e = pt(24, 4);
    let mid = lerp_point(&s, &e, &rat_new(1, 2)).unwrap();
    assert!(rat_eq(&mid.x, &rat_int(13)));
    assert!(rat_eq(&mid.y, &rat_new(7, 2)));
    assert!((approx(&mid.x) - 13.0).abs() < 1e-12);
}

const BLUE: Color = Color { red: 0, green: 0, blue: 255, alpha: 255 };
const GREEN: Color = Color { red: 0, green: 255, blue: 0, alpha: 255 };

fn unit_gradient() -> Gradient {
    Gradient::new(
        pt(0, 0),
        BLUE,
        pt(1, 1),
        GREEN,
        Affine::identity(),
        GradientType::Linear,
    )
}

fn sorted_in_unit(stops: &[Stop]) -> bool {
    for w in stops.windows(2) {
        if rat_lt(&w[1].position, &w[0].position) {
            return false;
        }
    }
    stops.iter().all(|s| {
        !rat_lt(&s.position, &rat_zero()) && !rat_lt(&rat_int(1), &s.position)
    })
}

#[test]
fn insert_keeps_stops_sorted_in_unit_interval() {
    let mut g = unit_gradient();
    g.start = pt(0, 0);
    g.end = pt(100, 0);
    let t = Affine::identity();
    let i1 = g.insert_stop(&pt(70, 0), &t).unwrap();
    let i2 = g.insert_stop(&pt(30, 0), &t).unwrap();
    let i3 = g.insert_stop(&pt(30, 0), &t).unwrap();
    assert_eq!((i1, i2, i3), (1, 1, 2));
    assert_eq!(g.stops.len(), 5);
    assert!(sorted_in_unit(&g.stops));
    assert!(rat_eq(&g.stops[1].position, &rat_new(3, 10)));
    assert!(rat_eq(&g.stops[3].position, &rat_new(7, 10)));
}

#[test]
fn insert_clamps_outside_clicks_to_unit_interval() {
    let mut g = unit_gradient();
    g.start = pt(0, 0);
    g.end = pt(100, 0);
    let t = Affine::identity();
    g.insert_stop(&pt(150, 0), &t).unwrap();
    assert!(sorted_in_unit(&g.stops));
}

#[test]
fn insert_far_from_line_is_rejected() {
    let mut g = unit_gradient();
    g.start = pt(0, 0);
    g.end = pt(100, 0);
    let t = Affine::identity();
    let before: Vec<(i64, i64)> = g.stops.iter().map(|s| (s.position.num, s.position.den)).collect();
    // the signed distance check admits one side; a click at positive cross
    // product, far from the line, is on the rejected side
    assert!(g.insert_stop(&pt(50, 50), &t).is_none());
    let after: Vec<(i64, i64)> = g.stops.iter().map(|s| (s.position.num, s.position.den)).collect();
    assert_eq!(before, after);
}

#[test]
fn insert_interpolates_color_between_neighbors() {
    let mut g = unit_gradient();
    g.start = pt(0, 0);
    g.end = pt(100, 0);
    let t = Affine::identity();
    let i = g.insert_stop(&pt(50, 0), &t).unwrap();
    assert_eq!(i, 1);
    let c = g.stops[1].color;
    assert_eq!(c.blue, 127);
    assert_eq!(c.green, 127);
    assert_eq!(c.alpha, 255);
}

#[test]
fn delete_remaps_span_preserving_ratios() {
    let mut g = unit_gradient();
    g.start = pt(0, 0);
    g.end = pt(100, 0);
    let t = Affine::identity();
    // stops at 0, 1/4, 3/4, 1
    g.insert_stop(&pt(25, 0), &t).unwrap();
    g.insert_stop(&pt(75, 0), &t).unwrap();
    assert_eq!(g.stops.len(), 4);
    // delete the first stop: span becomes [1/4, 1], remapped to [0, 1]
    let outcome = g.delete_stop(0);
    assert!(matches!(
        outcome,
        gradient_tool::gradient::DeleteOutcome::Rescaled
    ));
    assert_eq!(g.stops.len(), 3);
    assert!(rat_eq(&g.stops[0].position, &rat_zero()));
    assert!(rat_eq(&g.stops[1].position, &rat_new(2, 3)));
    assert!(rat_eq(&g.stops[2].position, &rat_int(1)));
    // the endpoints moved so the visible span is unchanged:
    // new start = lerp(start, end, 1/4) = (25, 0)
    assert!(rat_eq(&g.start.x, &rat_int(25)));
    assert!(rat_eq(&g.end.x, &rat_int(100)));
    assert!(sorted_in_unit(&g.stops));
}

#[test]
fn delete_with_coinciding_stops_leaves_positions_alone() {
    let mut g = unit_gradient();
    g.start = pt(0, 0);
    g.end = pt(100, 0);
    let t = Affine::identity();
    g.insert_stop(&pt(0, 0), &t).unwrap();
    // stops now 0, 0, 1; delete the last one: the rest coincide at 0
    let outcome = g.delete_stop(2);
    assert!(matches!(
        outcome,
        gradient_tool::gradient::DeleteOutcome::Degenerate
    ));
    assert_eq!(g.stops.len(), 2);
    assert!(rat_eq(&g.stops[0].position, &rat_zero()));
    assert!(rat_eq(&g.stops[1].position, &rat_zero()));
}

#[test]
fn reposition_moves_stop_and_resorts() {
    let mut g = unit_gradient();
    g.start = pt(0, 0);
    g.end = pt(100, 0);
    let t = Affine::identity();
    g.insert_stop(&pt(25, 0), &t).unwrap();
    // drag the stop at 1/4 past the end: clamped to 1, sorted to the back
    let ni = g.reposition_stop(1, &pt(130, 0), &t).unwrap();
    assert_eq!(ni, 2);
    assert!(rat_eq(&g.stops[2].position, &rat_int(1)));
    assert!(sorted_in_unit(&g.stops));
}
