//! The gradient model: a stop list between two endpoints, and the stop
//! operations the tool performs — insertion by projecting a click onto the
//! gradient line, deletion with span-preserving remapping, and repositioning
//! under a drag.
//!
//! The stop list invariant ([`stops_ok`]) is kept by every operation: stops
//! stay sorted by position and every position stays inside the unit
//! interval.

use crate::geom::{
    af_scales, af_wf_v, apply, apply_fits, apply_v, cross_fits, cross_of, cross_v, lemma_apply_scales,
    lemma_apply_wf, lemma_line_scales, lemma_line_wf, len2_fits, len2_of, len2_v, lerp_point,
    pt_lerp_fits, pt_lerp_v, pt_scales, pt_wf_v, project_fits, project_param, project_v, Affine,
    AffineV, Point, PointV,
};
use crate::rat::{
    lemma_div_congr, lemma_div_le, lemma_div_one_eqv, lemma_div_sub, lemma_div_unit,
    lemma_div_zero_eqv, lemma_eqv_trans, lemma_le_trans, lemma_scales_clamp01, lemma_scales_div,
    lemma_scales_fits, lemma_scales_le, lemma_scales_ops, lemma_scales_refl, lemma_scales_trans,
    lemma_scales_zero, lemma_sub_le, lemma_sub_sub_cancel, lemma_wf_div, lemma_wf_ops, rat_clamp01,
    rat_clamp01_v, rat_div, rat_div_v, rat_eq, rat_eqv, rat_fits, rat_int_v, rat_le, rat_le_v,
    rat_lt, rat_lt_v, rat_mul, rat_mul_v, rat_new, rat_one, rat_one_v, rat_scales, rat_sub,
    rat_sub_v, rat_wf_v, rat_zero, rat_zero_v, Rat, RatV,
};
use vstd::arithmetic::div_mod::{
    lemma_div_by_multiple, lemma_div_is_ordered, lemma_div_multiples_vanish_quotient,
};
use vstd::prelude::*;

verus! {

/// Whether a gradient shades along a line or radially from a center.
#[derive(Clone, Copy, Debug, PartialEq, Eq, Structural)]
pub enum GradientType {
    Linear,
    Radial,
}

/// An sRGB color with alpha, eight bits per channel.
#[derive(Clone, Copy, Debug, PartialEq, Eq, Structural)]
pub struct Color {
    pub red: u8,
    pub green: u8,
    pub blue: u8,
    pub alpha: u8,
}

/// One color stop: a parametric position in the unit interval and a color.
#[derive(Clone, Copy, Debug)]
pub struct Stop {
    pub position: Rat,
    pub color: Color,
}

/// A fill is either a single color or a gradient.
#[derive(Clone, Debug)]
pub enum Fill {
    Solid(Color),
    Gradient(Gradient),
}

/// Every stop position can be stored in the carrier.
pub open spec fn stops_wf(s: Seq<Stop>) -> bool {
    forall|i: int| 0 <= i < s.len() ==> (#[trigger] s[i]).position.wf()
}

/// Stops are sorted by position, ascending.
pub open spec fn stops_sorted(s: Seq<Stop>) -> bool {
    forall|i: int, j: int|
        0 <= i <= j < s.len() ==> rat_le_v((#[trigger] s[i]).position@, (#[trigger] s[j]).position@)
}

/// Every stop position lies in the unit interval.
pub open spec fn stops_unit(s: Seq<Stop>) -> bool {
    forall|i: int|
        0 <= i < s.len() ==> rat_le_v(rat_zero_v(), (#[trigger] s[i]).position@) && rat_le_v(
            s[i].position@,
            rat_one_v(),
        )
}

/// The stop list invariant kept by every operation.
pub open spec fn stops_ok(s: Seq<Stop>) -> bool {
    stops_wf(s) && stops_sorted(s) && stops_unit(s)
}

/// A gradient: its kind, endpoints in gradient space, sorted stops, and the
/// cached gradient-space-to-viewport transform used for rendering.
#[derive(Clone, Debug)]
pub struct Gradient {
    pub gradient_type: GradientType,
    pub start: Point,
    pub end: Point,
    pub stops: Vec<Stop>,
    pub transform: Affine,
}

/// The interpolated channel `a + (b - a) * t`, rounded toward zero, written
/// over the position's stored numerator and denominator.
pub open spec fn lerp_channel_v(a: u8, b: u8, t: RatV) -> int {
    (a * (t.den - t.num) + b * t.num) / t.den
}

/// Channel-wise interpolation between two colors.
pub open spec fn lerp_color_v(c1: Color, c2: Color, t: RatV) -> Color {
    Color {
        red: lerp_channel_v(c1.red, c2.red, t) as u8,
        green: lerp_channel_v(c1.green, c2.green, t) as u8,
        blue: lerp_channel_v(c1.blue, c2.blue, t) as u8,
        alpha: lerp_channel_v(c1.alpha, c2.alpha, t) as u8,
    }
}

/// The interpolated channel does not depend on which pair stands for the
/// interpolation parameter.
pub proof fn lemma_lerp_scales(a: u8, b: u8, u: RatV, w: RatV)
    requires
        rat_scales(u, w),
        rat_wf_v(u),
        rat_le_v(rat_zero_v(), u),
        rat_le_v(u, rat_one_v()),
    ensures
        lerp_channel_v(a, b, u) == lerp_channel_v(a, b, w),
{
    let g = choose|g: int| crate::rat::rat_scales_by(u, w, g);
    let xu = a * (u.den - u.num) + b * u.num;
    let xw = a * (w.den - w.num) + b * w.num;
    assert(u.num >= 0 && u.num <= u.den);
    assert(xw == xu * g) by (nonlinear_arith)
        requires
            w.num == u.num * g,
            w.den == u.den * g,
            xw == a * (w.den - w.num) + b * w.num,
            xu == a * (u.den - u.num) + b * u.num,
    ;
    assert(0 <= xu) by (nonlinear_arith)
        requires
            0 <= u.num,
            u.num <= u.den,
            xu == a * (u.den - u.num) + b * u.num,
    ;
    lemma_div_multiples_vanish_quotient(g, xu, u.den);
    assert(g * xu == xw) by (nonlinear_arith)
        requires
            xw == xu * g,
    ;
    assert(g * u.den == w.den) by (nonlinear_arith)
        requires
            w.den == u.den * g,
    ;
}

/// The interpolated channel, executable.
fn lerp_channel(a: u8, b: u8, t: &Rat) -> (r: u8)
    requires
        t.wf(),
        rat_le_v(rat_zero_v(), t@),
        rat_le_v(t@, rat_one_v()),
    ensures
        r as int == lerp_channel_v(a, b, t@),
{
    proof {
        assert(t.num >= 0 && t.num <= t.den);
    }
    let n: u128 = t.num as u128;
    let d: u128 = t.den as u128;
    proof {
        assert(a as int * (d as int - n as int) + b as int * n as int <= 255 * d as int)
            by (nonlinear_arith)
            requires
                a <= 255,
                b <= 255,
                0 <= n <= d,
        ;
        assert(0 <= a as int * (d as int - n as int) + b as int * n as int) by (nonlinear_arith)
            requires
                0 <= n <= d,
        ;
    }
    let x: u128 = (a as u128) * (d - n) + (b as u128) * n;
    let q: u128 = x / d;
    proof {
        lemma_div_is_ordered(x as int, 255 * d as int, d as int);
        lemma_div_by_multiple(255, d as int);
        assert(255 * d as int == 255 * d) by (nonlinear_arith);
        assert(q <= 255);
    }
    q as u8
}

/// Channel-wise interpolation between two colors, executable.
fn lerp_color(c1: &Color, c2: &Color, t: &Rat) -> (r: Color)
    requires
        t.wf(),
        rat_le_v(rat_zero_v(), t@),
        rat_le_v(t@, rat_one_v()),
    ensures
        r == lerp_color_v(*c1, *c2, t@),
{
    Color {
        red: lerp_channel(c1.red, c2.red, t),
        green: lerp_channel(c1.green, c2.green, t),
        blue: lerp_channel(c1.blue, c2.blue, t),
        alpha: lerp_channel(c1.alpha, c2.alpha, t),
    }
}

/// The number of stops whose position does not exceed `t`: the index at
/// which a stop at `t` is inserted.
fn find_index(stops: &Vec<Stop>, t: &Rat) -> (i: usize)
    requires
        stops_ok(stops@),
        t.wf(),
    ensures
        i <= stops@.len(),
        forall|j: int| 0 <= j < i ==> rat_le_v((#[trigger] stops@[j]).position@, t@),
        i < stops@.len() ==> rat_lt_v(t@, stops@[i as int].position@),
{
    let mut i: usize = 0;
    while i < stops.len()
        invariant
            i <= stops@.len(),
            stops_ok(stops@),
            t.wf(),
            forall|j: int| 0 <= j < i ==> rat_le_v((#[trigger] stops@[j]).position@, t@),
        decreases stops@.len() - i,
    {
        let sp = stops[i];
        if !rat_le(&sp.position, t) {
            return i;
        }
        i = i + 1;
    }
    i
}

/// Insert `st` at index `i`, which the caller has found to be the sorted
/// position; the stop list invariant is kept.
fn insert_at(stops: &mut Vec<Stop>, i: usize, st: Stop)
    requires
        stops_ok(old(stops)@),
        i <= old(stops)@.len(),
        st.position.wf(),
        rat_le_v(rat_zero_v(), st.position@),
        rat_le_v(st.position@, rat_one_v()),
        forall|j: int| 0 <= j < i ==> rat_le_v((#[trigger] old(stops)@[j]).position@, st.position@),
        i < old(stops)@.len() ==> rat_lt_v(st.position@, old(stops)@[i as int].position@),
    ensures
        stops_ok(final(stops)@),
        final(stops)@ == old(stops)@.insert(i as int, st),
        final(stops)@.len() == old(stops)@.len() + 1,
        final(stops)@[i as int] == st,
{
    let ghost s0 = stops@;
    stops.insert(i, st);
    proof {
        s0.insert_ensures(i as int, st);
        let s1 = stops@;
        assert forall|x: int, y: int| 0 <= x <= y < s1.len() implies rat_le_v(
            (#[trigger] s1[x]).position@,
            (#[trigger] s1[y]).position@,
        ) by {
            if x > i {
                assert(s1[(x - 1) + 1] == s0[x - 1]);
            }
            if y > i {
                assert(s1[(y - 1) + 1] == s0[y - 1]);
            }
            if x < i && y == i {
                assert(rat_le_v(s0[x].position@, st.position@));
            } else if x == i && y == i {
                assert(rat_le_v(st.position@, st.position@));
            } else if x == i && y > i {
                if i < s0.len() {
                    lemma_le_trans(st.position@, s0[i as int].position@, s0[y - 1].position@);
                }
            } else if x < i && y > i {
                assert(rat_le_v(s0[x].position@, s0[y - 1].position@));
            }
        }
        assert forall|k: int| 0 <= k < s1.len() implies (#[trigger] s1[k]).position.wf() && rat_le_v(
            rat_zero_v(),
            s1[k].position@,
        ) && rat_le_v(s1[k].position@, rat_one_v()) by {
            if k > i {
                assert(s1[(k - 1) + 1] == s0[k - 1]);
            }
        }
    }
}

/// Whether a click at `m` is close enough to the viewport-space gradient
/// line from `s` to `e` to insert a stop: the segment is not degenerate and
/// the signed perpendicular distance is below twice the selection
/// threshold. A click on the negative side always passes, as the signed
/// comparison admits it.
pub open spec fn insert_allowed_v(s: PointV, e: PointV, m: PointV) -> bool {
    let cr = cross_v(s, e, m);
    &&& len2_v(s, e).num != 0
    &&& (rat_lt_v(cr, rat_zero_v()) || rat_lt_v(
        rat_mul_v(cr, cr),
        rat_mul_v(rat_int_v(100), len2_v(s, e)),
    ))
}

/// Every intermediate of the insertion decision and projection fits the
/// carrier unreduced.
pub open spec fn insert_fits(t: AffineV, start: PointV, end: PointV, m: PointV) -> bool {
    let sv = apply_v(t, start);
    let ev = apply_v(t, end);
    let cr = cross_v(sv, ev, m);
    &&& apply_fits(t, start)
    &&& apply_fits(t, end)
    &&& len2_fits(sv, ev)
    &&& cross_fits(sv, ev, m)
    &&& rat_fits(rat_mul_v(cr, cr))
    &&& rat_fits(rat_mul_v(rat_int_v(100), len2_v(sv, ev)))
    &&& project_fits(sv, ev, m)
}

/// The color the inserted stop carries: a copy of the nearest stop at
/// either extreme, and between two stops the channel-wise interpolation at
/// the stop's relative position (or, only if that interpolation parameter
/// overflows the carrier, a copy of the left neighbor's color).
pub open spec fn insert_color_ok(s0: Seq<Stop>, i: int, st: Stop) -> bool {
    if i == 0 {
        st.color == s0[0].color
    } else if i == s0.len() {
        st.color == s0[s0.len() - 1].color
    } else {
        let u = rat_div_v(
            rat_sub_v(st.position@, s0[i - 1].position@),
            rat_sub_v(s0[i].position@, s0[i - 1].position@),
        );
        ||| st.color == lerp_color_v(s0[i - 1].color, s0[i].color, u)
        ||| (st.color == s0[i - 1].color && !(rat_fits(
            rat_sub_v(st.position@, s0[i - 1].position@),
        ) && rat_fits(rat_sub_v(s0[i].position@, s0[i - 1].position@)) && rat_fits(u)))
    }
}

/// The insertion decision and the clamped projection are stable under
/// reduction of the transform: the decision over a reduced map equals the
/// decision over the original, fitting arithmetic over the original implies
/// fitting arithmetic over the reduced map, and the clamped projection over
/// the reduced map stands (reduced) for the one over the original.
pub proof fn lemma_insert_scales(t: AffineV, tw: AffineV, start: PointV, end: PointV, m: PointV)
    requires
        af_scales(t, tw),
        af_wf_v(t),
        pt_wf_v(start),
        pt_wf_v(end),
        pt_wf_v(m),
    ensures
        insert_allowed_v(apply_v(t, start), apply_v(t, end), m) == insert_allowed_v(
            apply_v(tw, start),
            apply_v(tw, end),
            m,
        ),
        insert_fits(tw, start, end, m) ==> insert_fits(t, start, end, m),
        len2_v(apply_v(t, start), apply_v(t, end)).num != 0 ==> rat_scales(
            rat_clamp01_v(project_v(apply_v(t, start), apply_v(t, end), m)),
            rat_clamp01_v(project_v(apply_v(tw, start), apply_v(tw, end), m)),
        ),
{
    let s = apply_v(t, start);
    let e = apply_v(t, end);
    let sw = apply_v(tw, start);
    let ew = apply_v(tw, end);
    lemma_scales_refl(start.x);
    lemma_scales_refl(start.y);
    lemma_scales_refl(end.x);
    lemma_scales_refl(end.y);
    lemma_apply_scales(t, tw, start, start);
    lemma_apply_scales(t, tw, end, end);
    lemma_apply_wf(t, start);
    lemma_apply_wf(t, end);
    lemma_line_scales(s, sw, e, ew, m);
    lemma_line_wf(s, e, m);
    let cr = cross_v(s, e, m);
    let crw = cross_v(sw, ew, m);
    lemma_scales_refl(rat_zero_v());
    lemma_scales_le(cr, crw, rat_zero_v(), rat_zero_v());
    lemma_scales_ops(cr, crw, cr, crw);
    lemma_scales_refl(rat_int_v(100));
    lemma_scales_ops(rat_int_v(100), rat_int_v(100), len2_v(s, e), len2_v(sw, ew));
    lemma_scales_le(
        rat_mul_v(cr, cr),
        rat_mul_v(crw, crw),
        rat_mul_v(rat_int_v(100), len2_v(s, e)),
        rat_mul_v(rat_int_v(100), len2_v(sw, ew)),
    );
    lemma_wf_ops(cr, cr);
    lemma_wf_ops(rat_int_v(100), len2_v(s, e));
    if insert_fits(tw, start, end, m) {
        lemma_scales_fits(rat_mul_v(cr, cr), rat_mul_v(crw, crw));
        lemma_scales_fits(
            rat_mul_v(rat_int_v(100), len2_v(s, e)),
            rat_mul_v(rat_int_v(100), len2_v(sw, ew)),
        );
    }
    if len2_v(s, e).num != 0 {
        lemma_scales_clamp01(project_v(s, e, m), project_v(sw, ew, m));
    }
}

/// The remapped position of a stop after a delete: its offset from the
/// smallest remaining position, divided by the remaining span.
pub open spec fn remap_v(x: RatV, mn: RatV, mx: RatV) -> RatV {
    rat_div_v(rat_sub_v(x, mn), rat_sub_v(mx, mn))
}

/// Every intermediate of the delete remapping fits the carrier unreduced.
pub open spec fn delete_fits(start: PointV, end: PointV, rem: Seq<Stop>) -> bool {
    let mn = rem[0].position@;
    let mx = rem[rem.len() - 1].position@;
    &&& rat_fits(rat_sub_v(mx, mn))
    &&& pt_lerp_fits(start, end, mn)
    &&& pt_lerp_fits(start, end, mx)
    &&& forall|j: int|
        0 <= j < rem.len() ==> rat_fits(rat_sub_v((#[trigger] rem[j]).position@, mn)) && rat_fits(
            remap_v(rem[j].position@, mn, mx),
        )
}

/// What a delete did: collapsed the gradient to a single color, remapped
/// the remaining stops over the preserved span, left the positions alone
/// because every remaining stop coincides, or changed nothing because an
/// unreduced intermediate overflowed the carrier.
#[derive(Clone, Copy, Debug)]
pub enum DeleteOutcome {
    Solid(Color),
    Rescaled,
    Degenerate,
    Overflow,
}

/// Span preservation under the delete remapping: differences of remapped
/// positions are the original differences divided by the remaining span
/// (one uniform scale, so all spacing ratios are preserved), and the
/// smallest and largest remaining positions map exactly to zero and one.
pub proof fn lemma_remap_preserves_ratios(p: RatV, q: RatV, mn: RatV, mx: RatV)
    requires
        rat_wf_v(p),
        rat_wf_v(q),
        rat_wf_v(mn),
        rat_wf_v(mx),
        !rat_eqv(mn, mx),
    ensures
        rat_eqv(
            rat_sub_v(remap_v(q, mn, mx), remap_v(p, mn, mx)),
            rat_div_v(rat_sub_v(q, p), rat_sub_v(mx, mn)),
        ),
        rat_eqv(remap_v(mn, mn, mx), rat_zero_v()),
        rat_eqv(remap_v(mx, mn, mx), rat_one_v()),
{
    let span = rat_sub_v(mx, mn);
    lemma_wf_ops(q, mn);
    lemma_wf_ops(p, mn);
    lemma_wf_ops(mx, mn);
    lemma_wf_ops(mn, mn);
    lemma_wf_ops(q, p);
    lemma_div_sub(rat_sub_v(q, mn), rat_sub_v(p, mn), span);
    lemma_sub_sub_cancel(p, q, mn);
    lemma_wf_ops(rat_sub_v(q, mn), rat_sub_v(p, mn));
    lemma_div_congr(
        rat_sub_v(rat_sub_v(q, mn), rat_sub_v(p, mn)),
        rat_sub_v(q, p),
        span,
        span,
    );
    lemma_wf_div(rat_sub_v(rat_sub_v(q, mn), rat_sub_v(p, mn)), span);
    lemma_eqv_trans(
        rat_sub_v(remap_v(q, mn, mx), remap_v(p, mn, mx)),
        rat_div_v(rat_sub_v(rat_sub_v(q, mn), rat_sub_v(p, mn)), span),
        rat_div_v(rat_sub_v(q, p), span),
    );
    lemma_div_zero_eqv(rat_sub_v(mn, mn), span);
    lemma_div_one_eqv(rat_sub_v(mx, mn), span);
}

impl Gradient {
    /// The model invariant: well-formed geometry and a nonempty stop list
    /// that is sorted with every position in the unit interval.
    pub open spec fn wf(&self) -> bool {
        &&& self.start.wf()
        &&& self.end.wf()
        &&& self.transform.wf()
        &&& self.stops@.len() >= 1
        &&& stops_ok(self.stops@)
    }

    /// A fresh two-stop gradient from `secondary` at the start to `primary`
    /// at the end.
    pub fn new(
        start: Point,
        secondary: Color,
        end: Point,
        primary: Color,
        transform: Affine,
        gradient_type: GradientType,
    ) -> (g: Gradient)
        requires
            start.wf(),
            end.wf(),
            transform.wf(),
        ensures
            g.wf(),
            g.start == start,
            g.end == end,
            g.transform == transform,
            g.gradient_type == gradient_type,
            g.stops@.len() == 2,
            g.stops@[0].position@ == rat_zero_v() && g.stops@[0].color == secondary,
            g.stops@[1].position@ == rat_one_v() && g.stops@[1].color == primary,
    {
        let mut stops: Vec<Stop> = Vec::new();
        stops.push(Stop { position: rat_zero(), color: secondary });
        stops.push(Stop { position: rat_one(), color: primary });
        proof {
            let sv = stops@;
            assert forall|i: int, j: int| 0 <= i <= j < sv.len() implies rat_le_v(
                (#[trigger] sv[i]).position@,
                (#[trigger] sv[j]).position@,
            ) by {}
            assert forall|i: int| 0 <= i < sv.len() implies (#[trigger] sv[i]).position.wf()
                && rat_le_v(rat_zero_v(), sv[i].position@) && rat_le_v(
                sv[i].position@,
                rat_one_v(),
            ) by {}
        }
        Gradient { gradient_type, start, end, stops, transform }
    }

    /// Project a viewport-space click onto the gradient line and insert a
    /// stop there, per the insertion rule ([`insert_allowed_v`]): the new
    /// stop's position is the clamped projection parameter, its color is
    /// interpolated from its neighbors, and the list stays sorted. Returns
    /// the new stop's index, or `None` (leaving the gradient unchanged)
    /// when the click is too far from the line, the line is degenerate, or
    /// an unreduced intermediate overflows the carrier.
    pub fn insert_stop(&mut self, mouse: &Point, transform: &Affine) -> (r: Option<usize>)
        requires
            old(self).wf(),
            mouse.wf(),
            transform.wf(),
        ensures
            final(self).wf(),
            final(self).gradient_type == old(self).gradient_type,
            final(self).start == old(self).start,
            final(self).end == old(self).end,
            final(self).transform == old(self).transform,
            ({
                let sv = apply_v(transform@, old(self).start@);
                let ev = apply_v(transform@, old(self).end@);
                match r {
                    Some(i) => {
                        let st = final(self).stops@[i as int];
                        &&& insert_allowed_v(sv, ev, mouse@)
                        &&& i <= old(self).stops@.len()
                        &&& final(self).stops@ == old(self).stops@.insert(i as int, st)
                        &&& rat_scales(st.position@, rat_clamp01_v(project_v(sv, ev, mouse@)))
                        &&& forall|j: int|
                            0 <= j < i ==> rat_le_v(
                                (#[trigger] old(self).stops@[j]).position@,
                                st.position@,
                            )
                        &&& i < old(self).stops@.len() ==> rat_lt_v(
                            st.position@,
                            old(self).stops@[i as int].position@,
                        )
                        &&& insert_color_ok(old(self).stops@, i as int, st)
                    },
                    None => {
                        &&& *final(self) == *old(self)
                        &&& (!insert_allowed_v(sv, ev, mouse@) || !insert_fits(
                            transform@,
                            old(self).start@,
                            old(self).end@,
                            mouse@,
                        ))
                    },
                }
            }),
    {
        let ghost svw = apply_v(transform@, self.start@);
        let ghost evw = apply_v(transform@, self.end@);
        let sv = match apply(transform, &self.start) {
            Some(v) => v,
            None => { return None },
        };
        let ev = match apply(transform, &self.end) {
            Some(v) => v,
            None => { return None },
        };
        proof {
            lemma_line_scales(sv@, svw, ev@, evw, mouse@);
        }
        let l = match len2_of(&sv, &ev) {
            Some(v) => v,
            None => { return None },
        };
        proof {
            lemma_scales_trans(l@, len2_v(sv@, ev@), len2_v(svw, evw));
            lemma_scales_zero(l@, len2_v(svw, evw));
        }
        if l.num == 0 {
            return None;
        }
        let cr = match cross_of(&sv, &ev, mouse) {
            Some(v) => v,
            None => { return None },
        };
        let ghost crw = cross_v(svw, evw, mouse@);
        proof {
            lemma_scales_trans(cr@, cross_v(sv@, ev@, mouse@), crw);
            lemma_scales_refl(rat_zero_v());
            lemma_scales_le(cr@, crw, rat_zero_v(), rat_zero_v());
        }
        let zero = rat_zero();
        let mut allowed = false;
        if rat_lt(&cr, &zero) {
            allowed = true;
        } else {
            let c2 = match rat_mul(&cr, &cr) {
                Some(v) => v,
                None => {
                    proof {
                        lemma_scales_ops(cr@, crw, cr@, crw);
                        lemma_wf_ops(cr@, cr@);
                        if rat_fits(rat_mul_v(crw, crw)) {
                            lemma_scales_fits(rat_mul_v(cr@, cr@), rat_mul_v(crw, crw));
                        }
                    }
                    return None;
                },
            };
            let hundred = rat_new(100, 1);
            let rhs = match rat_mul(&hundred, &l) {
                Some(v) => v,
                None => {
                    proof {
                        lemma_scales_ops(hundred@, rat_int_v(100), l@, len2_v(svw, evw));
                        lemma_wf_ops(hundred@, l@);
                        if rat_fits(rat_mul_v(rat_int_v(100), len2_v(svw, evw))) {
                            lemma_scales_fits(
                                rat_mul_v(hundred@, l@),
                                rat_mul_v(rat_int_v(100), len2_v(svw, evw)),
                            );
                        }
                    }
                    return None;
                },
            };
            proof {
                lemma_scales_ops(cr@, crw, cr@, crw);
                lemma_scales_ops(hundred@, rat_int_v(100), l@, len2_v(svw, evw));
                lemma_scales_trans(c2@, rat_mul_v(cr@, cr@), rat_mul_v(crw, crw));
                lemma_scales_trans(
                    rhs@,
                    rat_mul_v(hundred@, l@),
                    rat_mul_v(rat_int_v(100), len2_v(svw, evw)),
                );
                lemma_scales_le(
                    c2@,
                    rat_mul_v(crw, crw),
                    rhs@,
                    rat_mul_v(rat_int_v(100), len2_v(svw, evw)),
                );
            }
            allowed = rat_lt(&c2, &rhs);
        }
        if !allowed {
            return None;
        }
        let t = match project_param(&sv, &ev, mouse) {
            Some(v) => v,
            None => { return None },
        };
        proof {
            lemma_scales_trans(t@, project_v(sv@, ev@, mouse@), project_v(svw, evw, mouse@));
        }
        let tc = rat_clamp01(&t);
        proof {
            lemma_scales_clamp01(t@, project_v(svw, evw, mouse@));
        }
        let n = self.stops.len();
        let i = find_index(&self.stops, &tc);
        let color: Color;
        if i == 0 {
            color = self.stops[0].color;
        } else if i == n {
            color = self.stops[n - 1].color;
        } else {
            let st1 = self.stops[i - 1];
            let st2 = self.stops[i];
            let ghost sub1w = rat_sub_v(tc@, st1.position@);
            let ghost spanw = rat_sub_v(st2.position@, st1.position@);
            let ghost uw = rat_div_v(sub1w, spanw);
            proof {
                lemma_le_trans(st1.position@, tc@, st2.position@);
            }
            let mut fallback = true;
            let mut chosen = st1.color;
            let d1o = rat_sub(&tc, &st1.position);
            let spo = rat_sub(&st2.position, &st1.position);
            match (d1o, spo) {
                (Some(d1), Some(sp)) => {
                    proof {
                        lemma_scales_refl(rat_zero_v());
                        lemma_scales_refl(rat_one_v());
                        lemma_scales_le(rat_zero_v(), rat_zero_v(), sp@, spanw);
                    }
                    match rat_div(&d1, &sp) {
                        Some(u) => {
                            proof {
                                lemma_scales_div(d1@, sub1w, sp@, spanw);
                                lemma_scales_trans(u@, rat_div_v(d1@, sp@), uw);
                                lemma_wf_ops(tc@, st1.position@);
                                lemma_wf_ops(st2.position@, st1.position@);
                                lemma_sub_le(tc@, st2.position@, st1.position@);
                                lemma_div_unit(sub1w, spanw);
                                lemma_wf_div(sub1w, spanw);
                                lemma_scales_le(rat_zero_v(), rat_zero_v(), u@, uw);
                                lemma_scales_le(u@, uw, rat_one_v(), rat_one_v());
                                lemma_lerp_scales(st1.color.red, st2.color.red, u@, uw);
                                lemma_lerp_scales(st1.color.green, st2.color.green, u@, uw);
                                lemma_lerp_scales(st1.color.blue, st2.color.blue, u@, uw);
                                lemma_lerp_scales(st1.color.alpha, st2.color.alpha, u@, uw);
                            }
                            chosen = lerp_color(&st1.color, &st2.color, &u);
                            fallback = false;
                        },
                        None => {
                            proof {
                                lemma_scales_div(d1@, sub1w, sp@, spanw);
                                lemma_wf_div(d1@, sp@);
                                if rat_fits(rat_div_v(sub1w, spanw)) {
                                    lemma_scales_fits(rat_div_v(d1@, sp@), rat_div_v(sub1w, spanw));
                                }
                            }
                        },
                    }
                },
                _ => {},
            }
            proof {
                if !fallback {
                    assert(chosen == lerp_color_v(st1.color, st2.color, uw));
                }
            }
            color = chosen;
        }
        let st = Stop { position: tc, color };
        insert_at(&mut self.stops, i, st);
        Some(i)
    }

    /// Remove the stop at `index`. With two stops the gradient collapses
    /// to the other stop's color; otherwise the endpoints are pulled in to
    /// the remaining stops' span and every remaining position is remapped
    /// linearly onto the unit interval, so the visible gradient is
    /// unchanged. Fails closed: when every remaining stop coincides the
    /// positions are left alone, and on carrier overflow nothing changes.
    #[verifier::loop_isolation(false)]
    pub fn delete_stop(&mut self, index: usize) -> (r: DeleteOutcome)
        requires
            old(self).wf(),
            old(self).stops@.len() >= 2,
            index < old(self).stops@.len(),
        ensures
            final(self).wf(),
            final(self).gradient_type == old(self).gradient_type,
            final(self).transform == old(self).transform,
            ({
                let s0 = old(self).stops@;
                let rem = s0.remove(index as int);
                let n = s0.len() as int;
                match r {
                    DeleteOutcome::Solid(c) => {
                        &&& n == 2
                        &&& c == rem[0].color
                        &&& final(self).stops@ == rem
                        &&& final(self).start == old(self).start
                        &&& final(self).end == old(self).end
                    },
                    DeleteOutcome::Degenerate => {
                        &&& n >= 3
                        &&& rat_eqv(rem[0].position@, rem[n - 2].position@)
                        &&& final(self).stops@ == rem
                        &&& final(self).start == old(self).start
                        &&& final(self).end == old(self).end
                    },
                    DeleteOutcome::Rescaled => {
                        let mn = rem[0].position@;
                        let mx = rem[n - 2].position@;
                        &&& n >= 3
                        &&& !rat_eqv(mn, mx)
                        &&& pt_scales(
                            final(self).start@,
                            pt_lerp_v(old(self).start@, old(self).end@, mn),
                        )
                        &&& pt_scales(
                            final(self).end@,
                            pt_lerp_v(old(self).start@, old(self).end@, mx),
                        )
                        &&& final(self).stops@.len() == n - 1
                        &&& forall|j: int|
                            0 <= j < n - 1 ==> (#[trigger] final(self).stops@[j]).color
                                == rem[j].color
                        &&& forall|j: int|
                            0 <= j < n - 1 ==> rat_scales(
                                (#[trigger] final(self).stops@[j]).position@,
                                remap_v(rem[j].position@, mn, mx),
                            )
                    },
                    DeleteOutcome::Overflow => {
                        &&& n >= 3
                        &&& *final(self) == *old(self)
                        &&& !delete_fits(old(self).start@, old(self).end@, rem)
                    },
                }
            }),
    {
        let ghost s0 = self.stops@;
        let n = self.stops.len();
        proof {
            s0.remove_ensures(index as int);
        }
        let ghost rem = s0.remove(index as int);
        if n == 2 {
            let _removed = self.stops.remove(index);
            let c = self.stops[0].color;
            return DeleteOutcome::Solid(c);
        }
        let mn_stop = if index == 0 {
            self.stops[1]
        } else {
            self.stops[0]
        };
        let mx_stop = if index == n - 1 {
            self.stops[n - 2]
        } else {
            self.stops[n - 1]
        };
        proof {
            assert(rem[0] == mn_stop);
            assert(rem[(n - 2) as int] == mx_stop);
        }
        let mn = mn_stop.position;
        let mx = mx_stop.position;
        let ghost mnv = mn@;
        let ghost mxv = mx@;
        if rat_eq(&mn, &mx) {
            let _removed = self.stops.remove(index);
            proof {
                assert forall|x: int, y: int| 0 <= x <= y < rem.len() implies rat_le_v(
                    (#[trigger] rem[x]).position@,
                    (#[trigger] rem[y]).position@,
                ) by {}
            }
            return DeleteOutcome::Degenerate;
        }
        let sp = match rat_sub(&mx, &mn) {
            Some(v) => v,
            None => { return DeleteOutcome::Overflow },
        };
        let ghost spanw = rat_sub_v(mxv, mnv);
        proof {
            lemma_scales_refl(rat_zero_v());
            lemma_scales_le(rat_zero_v(), rat_zero_v(), sp@, spanw);
            assert(rat_le_v(mnv, mxv));
            assert(spanw.num > 0);
            assert(rat_lt_v(rat_zero_v(), spanw));
            assert(rat_lt_v(rat_zero_v(), sp@));
            assert(sp@.num > 0);
            assert(rat_scales(sp@, spanw));
        }
        let ns = match lerp_point(&self.start, &self.end, &mn) {
            Some(v) => v,
            None => { return DeleteOutcome::Overflow },
        };
        let ne = match lerp_point(&self.start, &self.end, &mx) {
            Some(v) => v,
            None => { return DeleteOutcome::Overflow },
        };
        let mut ordered: Vec<Stop> = Vec::new();
        let mut j: usize = 0;
        while j < n
            invariant
                j <= n,
                n == s0.len(),
                n >= 3,
                index < n,
                self.stops@ == s0,
                stops_ok(s0),
                rem == s0.remove(index as int),
                mn.wf(),
                mx.wf(),
                mnv == mn@,
                mxv == mx@,
                spanw == rat_sub_v(mxv, mnv),
                spanw.num > 0,
                rat_le_v(rat_zero_v(), mnv),
                forall|k: int|
                    0 <= k < rem.len() ==> rat_le_v(mnv, (#[trigger] rem[k]).position@)
                        && rat_le_v(rem[k].position@, mxv),
                ordered@.len() == if j <= index {
                    j as int
                } else {
                    j - 1
                },
                forall|k: int|
                    0 <= k < ordered@.len() ==> (#[trigger] ordered@[k]).color == rem[k].color,
                forall|k: int|
                    0 <= k < ordered@.len() ==> rat_scales(
                        (#[trigger] ordered@[k]).position@,
                        remap_v(rem[k].position@, mnv, mxv),
                    ),
                forall|k: int|
                    0 <= k < ordered@.len() ==> (#[trigger] ordered@[k]).position.wf() && rat_le_v(
                        rat_zero_v(),
                        ordered@[k].position@,
                    ) && rat_le_v(ordered@[k].position@, rat_one_v()),
            decreases n - j,
        {
            if j != index {
                let stj = self.stops[j];
                let ghost k = if j < index {
                    j as int
                } else {
                    j - 1
                };
                proof {
                    assert(rem[k] == stj);
                }
                let d = match rat_sub(&stj.position, &mn) {
                    Some(v) => v,
                    None => { return DeleteOutcome::Overflow },
                };
                let p = match rat_div(&d, &sp) {
                    Some(v) => v,
                    None => {
                        proof {
                            lemma_scales_div(d@, rat_sub_v(stj.position@, mnv), sp@, spanw);
                            lemma_wf_div(d@, sp@);
                            if rat_fits(remap_v(rem[k].position@, mnv, mxv)) {
                                lemma_scales_fits(
                                    rat_div_v(d@, sp@),
                                    remap_v(rem[k].position@, mnv, mxv),
                                );
                            }
                        }
                        return DeleteOutcome::Overflow;
                    },
                };
                proof {
                    lemma_scales_div(d@, rat_sub_v(stj.position@, mnv), sp@, spanw);
                    lemma_scales_trans(p@, rat_div_v(d@, sp@), remap_v(rem[k].position@, mnv, mxv));
                    lemma_wf_ops(stj.position@, mnv);
                    lemma_wf_ops(mxv, mnv);
                    lemma_sub_le(stj.position@, mxv, mnv);
                    lemma_div_unit(rat_sub_v(stj.position@, mnv), spanw);
                    lemma_scales_refl(rat_zero_v());
                    lemma_scales_refl(rat_one_v());
                    lemma_scales_le(
                        rat_zero_v(),
                        rat_zero_v(),
                        p@,
                        remap_v(rem[k].position@, mnv, mxv),
                    );
                    lemma_scales_le(
                        p@,
                        remap_v(rem[k].position@, mnv, mxv),
                        rat_one_v(),
                        rat_one_v(),
                    );
                }
                ordered.push(Stop { position: p, color: stj.color });
            }
            j = j + 1;
        }
        self.stops = ordered;
        self.start = ns;
        self.end = ne;
        proof {
            let s1 = self.stops@;
            assert forall|x: int, y: int| 0 <= x <= y < s1.len() implies rat_le_v(
                (#[trigger] s1[x]).position@,
                (#[trigger] s1[y]).position@,
            ) by {
                lemma_wf_ops(rem[x].position@, mnv);
                lemma_wf_ops(rem[y].position@, mnv);
                lemma_wf_ops(mxv, mnv);
                lemma_sub_le(rem[x].position@, rem[y].position@, mnv);
                lemma_div_le(
                    rat_sub_v(rem[x].position@, mnv),
                    rat_sub_v(rem[y].position@, mnv),
                    rat_sub_v(mxv, mnv),
                );
                lemma_scales_le(
                    s1[x].position@,
                    remap_v(rem[x].position@, mnv, mxv),
                    s1[y].position@,
                    remap_v(rem[y].position@, mnv, mxv),
                );
            }
        }
        DeleteOutcome::Rescaled
    }

    /// Move the stop at `index` to the clamped projection of the pointer
    /// onto the viewport-space gradient line, keeping the list sorted, and
    /// return the stop's index after re-sorting. `None` (leaving the
    /// gradient unchanged) on a degenerate line or carrier overflow.
    pub fn reposition_stop(&mut self, index: usize, mouse: &Point, transform: &Affine) -> (r:
        Option<usize>)
        requires
            old(self).wf(),
            index < old(self).stops@.len(),
            mouse.wf(),
            transform.wf(),
        ensures
            final(self).wf(),
            final(self).gradient_type == old(self).gradient_type,
            final(self).start == old(self).start,
            final(self).end == old(self).end,
            final(self).transform == old(self).transform,
            ({
                let sv = apply_v(transform@, old(self).start@);
                let ev = apply_v(transform@, old(self).end@);
                let rem = old(self).stops@.remove(index as int);
                match r {
                    Some(ni) => {
                        let st = final(self).stops@[ni as int];
                        &&& ni <= rem.len()
                        &&& final(self).stops@ == rem.insert(ni as int, st)
                        &&& final(self).stops@.len() == old(self).stops@.len()
                        &&& st.color == old(self).stops@[index as int].color
                        &&& rat_scales(st.position@, rat_clamp01_v(project_v(sv, ev, mouse@)))
                        &&& forall|j: int|
                            0 <= j < ni ==> rat_le_v((#[trigger] rem[j]).position@, st.position@)
                        &&& ni < rem.len() ==> rat_lt_v(st.position@, rem[ni as int].position@)
                    },
                    None => {
                        &&& *final(self) == *old(self)
                        &&& (len2_v(sv, ev).num == 0 || !reposition_fits(
                            transform@,
                            old(self).start@,
                            old(self).end@,
                            mouse@,
                        ))
                    },
                }
            }),
    {
        let ghost svw = apply_v(transform@, self.start@);
        let ghost evw = apply_v(transform@, self.end@);
        let sv = match apply(transform, &self.start) {
            Some(v) => v,
            None => { return None },
        };
        let ev = match apply(transform, &self.end) {
            Some(v) => v,
            None => { return None },
        };
        proof {
            lemma_line_scales(sv@, svw, ev@, evw, mouse@);
        }
        let t = match project_param(&sv, &ev, mouse) {
            Some(v) => v,
            None => { return None },
        };
        proof {
            lemma_scales_trans(t@, project_v(sv@, ev@, mouse@), project_v(svw, evw, mouse@));
        }
        let tc = rat_clamp01(&t);
        proof {
            lemma_scales_clamp01(t@, project_v(svw, evw, mouse@));
        }
        let ghost s0 = self.stops@;
        let moved = self.stops.remove(index);
        proof {
            s0.remove_ensures(index as int);
        }
        let st = Stop { position: tc, color: moved.color };
        let ni = find_index(&self.stops, &tc);
        insert_at(&mut self.stops, ni, st);
        Some(ni)
    }
}

/// Every intermediate of the reposition projection fits the carrier
/// unreduced.
pub open spec fn reposition_fits(t: AffineV, start: PointV, end: PointV, m: PointV) -> bool {
    &&& apply_fits(t, start)
    &&& apply_fits(t, end)
    &&& project_fits(apply_v(t, start), apply_v(t, end), m)
}

} // verus!
