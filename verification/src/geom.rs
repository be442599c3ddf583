//! Points and affine maps over exact rationals.
//!
//! An affine map is a 2x2 row matrix `[[a, b], [c, d]]` and a translation
//! `(tx, ty)`; it sends `(x, y)` to `(a*x + b*y + tx, c*y ... )` — see
//! [`apply_v`] for the exact definition. The module provides application,
//! composition, inversion, linear interpolation and the projection and
//! distance forms the gradient tool hit-tests with, each with an exact
//! contract, together with the round-trip law: composing a map with its
//! inverse is the identity.

use crate::rat::{
    lemma_add_congr, lemma_add_neg_zero, lemma_div_add, lemma_div_one_eqv, lemma_div_zero_eqv,
    lemma_eqv_trans, lemma_mul_div_left, lemma_scales_div, lemma_scales_fits, lemma_scales_ops,
    lemma_scales_refl, lemma_scales_trans, lemma_scales_zero, lemma_wf_div, lemma_wf_ops, rat_add,
    rat_add_v, rat_div, rat_div_v, rat_eqv, rat_fits, rat_le_v, rat_lt_v, rat_mul, rat_mul_v,
    rat_neg, rat_neg_v, rat_one, rat_one_v, rat_scales, rat_sub, rat_sub_v, rat_wf_v, rat_zero,
    rat_zero_v, Rat, RatV,
};
use vstd::prelude::*;

verus! {

/// Mathematical value of a point.
pub struct PointV {
    pub x: RatV,
    pub y: RatV,
}

/// Mathematical value of an affine map.
pub struct AffineV {
    pub a: RatV,
    pub b: RatV,
    pub c: RatV,
    pub d: RatV,
    pub tx: RatV,
    pub ty: RatV,
}

pub open spec fn pt_wf_v(p: PointV) -> bool {
    rat_wf_v(p.x) && rat_wf_v(p.y)
}

pub open spec fn pt_eqv(p: PointV, q: PointV) -> bool {
    rat_eqv(p.x, q.x) && rat_eqv(p.y, q.y)
}

pub open spec fn pt_scales(p: PointV, q: PointV) -> bool {
    rat_scales(p.x, q.x) && rat_scales(p.y, q.y)
}

pub open spec fn af_wf_v(t: AffineV) -> bool {
    rat_wf_v(t.a) && rat_wf_v(t.b) && rat_wf_v(t.c) && rat_wf_v(t.d) && rat_wf_v(t.tx)
        && rat_wf_v(t.ty)
}

pub open spec fn af_eqv(t: AffineV, u: AffineV) -> bool {
    rat_eqv(t.a, u.a) && rat_eqv(t.b, u.b) && rat_eqv(t.c, u.c) && rat_eqv(t.d, u.d) && rat_eqv(
        t.tx,
        u.tx,
    ) && rat_eqv(t.ty, u.ty)
}

pub open spec fn af_scales(t: AffineV, u: AffineV) -> bool {
    rat_scales(t.a, u.a) && rat_scales(t.b, u.b) && rat_scales(t.c, u.c) && rat_scales(t.d, u.d)
        && rat_scales(t.tx, u.tx) && rat_scales(t.ty, u.ty)
}

/// Where an affine map sends a point.
pub open spec fn apply_v(t: AffineV, p: PointV) -> PointV {
    PointV {
        x: rat_add_v(rat_add_v(rat_mul_v(t.a, p.x), rat_mul_v(t.b, p.y)), t.tx),
        y: rat_add_v(rat_add_v(rat_mul_v(t.c, p.x), rat_mul_v(t.d, p.y)), t.ty),
    }
}

/// Every intermediate of [`apply_v`] fits the 64-bit carrier unreduced.
pub open spec fn apply_fits(t: AffineV, p: PointV) -> bool {
    &&& rat_fits(rat_mul_v(t.a, p.x))
    &&& rat_fits(rat_mul_v(t.b, p.y))
    &&& rat_fits(rat_add_v(rat_mul_v(t.a, p.x), rat_mul_v(t.b, p.y)))
    &&& rat_fits(apply_v(t, p).x)
    &&& rat_fits(rat_mul_v(t.c, p.x))
    &&& rat_fits(rat_mul_v(t.d, p.y))
    &&& rat_fits(rat_add_v(rat_mul_v(t.c, p.x), rat_mul_v(t.d, p.y)))
    &&& rat_fits(apply_v(t, p).y)
}

/// The composite map `f` after `g`.
pub open spec fn compose_v(f: AffineV, g: AffineV) -> AffineV {
    AffineV {
        a: rat_add_v(rat_mul_v(f.a, g.a), rat_mul_v(f.b, g.c)),
        b: rat_add_v(rat_mul_v(f.a, g.b), rat_mul_v(f.b, g.d)),
        c: rat_add_v(rat_mul_v(f.c, g.a), rat_mul_v(f.d, g.c)),
        d: rat_add_v(rat_mul_v(f.c, g.b), rat_mul_v(f.d, g.d)),
        tx: rat_add_v(rat_add_v(rat_mul_v(f.a, g.tx), rat_mul_v(f.b, g.ty)), f.tx),
        ty: rat_add_v(rat_add_v(rat_mul_v(f.c, g.tx), rat_mul_v(f.d, g.ty)), f.ty),
    }
}

/// Every intermediate of [`compose_v`] fits the carrier unreduced.
pub open spec fn compose_fits(f: AffineV, g: AffineV) -> bool {
    &&& rat_fits(rat_mul_v(f.a, g.a))
    &&& rat_fits(rat_mul_v(f.b, g.c))
    &&& rat_fits(compose_v(f, g).a)
    &&& rat_fits(rat_mul_v(f.a, g.b))
    &&& rat_fits(rat_mul_v(f.b, g.d))
    &&& rat_fits(compose_v(f, g).b)
    &&& rat_fits(rat_mul_v(f.c, g.a))
    &&& rat_fits(rat_mul_v(f.d, g.c))
    &&& rat_fits(compose_v(f, g).c)
    &&& rat_fits(rat_mul_v(f.c, g.b))
    &&& rat_fits(rat_mul_v(f.d, g.d))
    &&& rat_fits(compose_v(f, g).d)
    &&& rat_fits(rat_mul_v(f.a, g.tx))
    &&& rat_fits(rat_mul_v(f.b, g.ty))
    &&& rat_fits(rat_add_v(rat_mul_v(f.a, g.tx), rat_mul_v(f.b, g.ty)))
    &&& rat_fits(compose_v(f, g).tx)
    &&& rat_fits(rat_mul_v(f.c, g.tx))
    &&& rat_fits(rat_mul_v(f.d, g.ty))
    &&& rat_fits(rat_add_v(rat_mul_v(f.c, g.tx), rat_mul_v(f.d, g.ty)))
    &&& rat_fits(compose_v(f, g).ty)
}

/// Determinant of the linear part.
pub open spec fn det_v(t: AffineV) -> RatV {
    rat_sub_v(rat_mul_v(t.a, t.d), rat_mul_v(t.b, t.c))
}

/// The inverse map: the adjugate over the determinant, and the translation
/// that sends the image of the origin back.
pub open spec fn inverse_v(t: AffineV) -> AffineV {
    let dt = det_v(t);
    let ia = rat_div_v(t.d, dt);
    let ib = rat_div_v(rat_neg_v(t.b), dt);
    let ic = rat_div_v(rat_neg_v(t.c), dt);
    let id = rat_div_v(t.a, dt);
    AffineV {
        a: ia,
        b: ib,
        c: ic,
        d: id,
        tx: rat_neg_v(rat_add_v(rat_mul_v(ia, t.tx), rat_mul_v(ib, t.ty))),
        ty: rat_neg_v(rat_add_v(rat_mul_v(ic, t.tx), rat_mul_v(id, t.ty))),
    }
}

/// Every intermediate of [`inverse_v`] fits the carrier unreduced.
pub open spec fn inverse_fits(t: AffineV) -> bool {
    let dt = det_v(t);
    let iv = inverse_v(t);
    &&& rat_fits(rat_mul_v(t.a, t.d))
    &&& rat_fits(rat_mul_v(t.b, t.c))
    &&& rat_fits(dt)
    &&& rat_fits(iv.a)
    &&& rat_fits(iv.b)
    &&& rat_fits(iv.c)
    &&& rat_fits(iv.d)
    &&& rat_fits(rat_mul_v(iv.a, t.tx))
    &&& rat_fits(rat_mul_v(iv.b, t.ty))
    &&& rat_fits(rat_add_v(rat_mul_v(iv.a, t.tx), rat_mul_v(iv.b, t.ty)))
    &&& rat_fits(rat_mul_v(iv.c, t.tx))
    &&& rat_fits(rat_mul_v(iv.d, t.ty))
    &&& rat_fits(rat_add_v(rat_mul_v(iv.c, t.tx), rat_mul_v(iv.d, t.ty)))
}

/// The identity map.
pub open spec fn identity_v() -> AffineV {
    AffineV {
        a: rat_one_v(),
        b: rat_zero_v(),
        c: rat_zero_v(),
        d: rat_one_v(),
        tx: rat_zero_v(),
        ty: rat_zero_v(),
    }
}

/// Linear interpolation of one coordinate: `a + (b - a) * t`.
pub open spec fn lerp_v(a: RatV, b: RatV, t: RatV) -> RatV {
    rat_add_v(a, rat_mul_v(rat_sub_v(b, a), t))
}

pub open spec fn lerp_fits_v(a: RatV, b: RatV, t: RatV) -> bool {
    &&& rat_fits(rat_sub_v(b, a))
    &&& rat_fits(rat_mul_v(rat_sub_v(b, a), t))
    &&& rat_fits(lerp_v(a, b, t))
}

/// Linear interpolation of a point along a segment.
pub open spec fn pt_lerp_v(s: PointV, e: PointV, t: RatV) -> PointV {
    PointV { x: lerp_v(s.x, e.x, t), y: lerp_v(s.y, e.y, t) }
}

pub open spec fn pt_lerp_fits(s: PointV, e: PointV, t: RatV) -> bool {
    lerp_fits_v(s.x, e.x, t) && lerp_fits_v(s.y, e.y, t)
}

/// Squared length of the segment from `s` to `e`.
pub open spec fn len2_v(s: PointV, e: PointV) -> RatV {
    rat_add_v(
        rat_mul_v(rat_sub_v(e.x, s.x), rat_sub_v(e.x, s.x)),
        rat_mul_v(rat_sub_v(e.y, s.y), rat_sub_v(e.y, s.y)),
    )
}

/// Scalar product of `m - s` with `e - s`.
pub open spec fn dot_v(s: PointV, e: PointV, m: PointV) -> RatV {
    rat_add_v(
        rat_mul_v(rat_sub_v(m.x, s.x), rat_sub_v(e.x, s.x)),
        rat_mul_v(rat_sub_v(m.y, s.y), rat_sub_v(e.y, s.y)),
    )
}

/// The parameter of the orthogonal projection of `m` onto the line through
/// `s` and `e`: `dot(m - s, e - s) / |e - s|^2`.
pub open spec fn project_v(s: PointV, e: PointV, m: PointV) -> RatV {
    rat_div_v(dot_v(s, e, m), len2_v(s, e))
}

pub open spec fn project_fits(s: PointV, e: PointV, m: PointV) -> bool {
    &&& rat_fits(rat_sub_v(e.x, s.x))
    &&& rat_fits(rat_sub_v(e.y, s.y))
    &&& rat_fits(rat_mul_v(rat_sub_v(e.x, s.x), rat_sub_v(e.x, s.x)))
    &&& rat_fits(rat_mul_v(rat_sub_v(e.y, s.y), rat_sub_v(e.y, s.y)))
    &&& rat_fits(len2_v(s, e))
    &&& rat_fits(rat_sub_v(m.x, s.x))
    &&& rat_fits(rat_sub_v(m.y, s.y))
    &&& rat_fits(rat_mul_v(rat_sub_v(m.x, s.x), rat_sub_v(e.x, s.x)))
    &&& rat_fits(rat_mul_v(rat_sub_v(m.y, s.y), rat_sub_v(e.y, s.y)))
    &&& rat_fits(dot_v(s, e, m))
    &&& rat_fits(project_v(s, e, m))
}

/// The cross product of `e - s` with `m - s`: positive when `m` lies on one
/// side of the directed line, negative on the other.
pub open spec fn cross_v(s: PointV, e: PointV, m: PointV) -> RatV {
    rat_sub_v(
        rat_mul_v(rat_sub_v(e.x, s.x), rat_sub_v(m.y, s.y)),
        rat_mul_v(rat_sub_v(e.y, s.y), rat_sub_v(m.x, s.x)),
    )
}

pub open spec fn cross_fits(s: PointV, e: PointV, m: PointV) -> bool {
    &&& rat_fits(rat_sub_v(e.x, s.x))
    &&& rat_fits(rat_sub_v(m.y, s.y))
    &&& rat_fits(rat_sub_v(e.y, s.y))
    &&& rat_fits(rat_sub_v(m.x, s.x))
    &&& rat_fits(rat_mul_v(rat_sub_v(e.x, s.x), rat_sub_v(m.y, s.y)))
    &&& rat_fits(rat_mul_v(rat_sub_v(e.y, s.y), rat_sub_v(m.x, s.x)))
    &&& rat_fits(cross_v(s, e, m))
}

pub open spec fn len2_fits(s: PointV, e: PointV) -> bool {
    &&& rat_fits(rat_sub_v(e.x, s.x))
    &&& rat_fits(rat_sub_v(e.y, s.y))
    &&& rat_fits(rat_mul_v(rat_sub_v(e.x, s.x), rat_sub_v(e.x, s.x)))
    &&& rat_fits(rat_mul_v(rat_sub_v(e.y, s.y), rat_sub_v(e.y, s.y)))
    &&& rat_fits(len2_v(s, e))
}

/// Squared distance between two points.
pub open spec fn dist2_v(p: PointV, q: PointV) -> RatV {
    rat_add_v(
        rat_mul_v(rat_sub_v(p.x, q.x), rat_sub_v(p.x, q.x)),
        rat_mul_v(rat_sub_v(p.y, q.y), rat_sub_v(p.y, q.y)),
    )
}

pub open spec fn dist2_fits(p: PointV, q: PointV) -> bool {
    &&& rat_fits(rat_sub_v(p.x, q.x))
    &&& rat_fits(rat_sub_v(p.y, q.y))
    &&& rat_fits(rat_mul_v(rat_sub_v(p.x, q.x), rat_sub_v(p.x, q.x)))
    &&& rat_fits(rat_mul_v(rat_sub_v(p.y, q.y), rat_sub_v(p.y, q.y)))
    &&& rat_fits(dist2_v(p, q))
}

/// Round-trip law: composing the inverse of a nonsingular map with the map
/// itself gives the identity map, entry by entry, exactly.
pub proof fn lemma_inverse_round_trip(t: AffineV)
    requires
        af_wf_v(t),
        det_v(t).num != 0,
    ensures
        af_eqv(compose_v(inverse_v(t), t), identity_v()),
{
    let dt = det_v(t);
    let iv = inverse_v(t);
    let cv = compose_v(iv, t);
    let nb = rat_neg_v(t.b);
    let nc = rat_neg_v(t.c);
    lemma_wf_ops(t.a, t.d);
    lemma_wf_ops(t.b, t.c);
    lemma_wf_ops(rat_mul_v(t.a, t.d), rat_mul_v(t.b, t.c));
    lemma_wf_ops(t.b, t.b);
    lemma_wf_ops(t.c, t.c);
    lemma_wf_div(t.d, dt);
    lemma_wf_div(nb, dt);
    lemma_wf_div(nc, dt);
    lemma_wf_div(t.a, dt);
    // the linear entries of the product, written as single quotients
    lemma_mul_div_left(t.d, t.a, dt);
    lemma_mul_div_left(nb, t.c, dt);
    lemma_mul_div_left(t.d, t.b, dt);
    lemma_mul_div_left(nb, t.d, dt);
    lemma_mul_div_left(nc, t.a, dt);
    lemma_mul_div_left(t.a, t.c, dt);
    lemma_mul_div_left(nc, t.b, dt);
    lemma_mul_div_left(t.a, t.d, dt);
    lemma_wf_ops(t.d, t.a);
    lemma_wf_ops(nb, t.c);
    lemma_wf_ops(t.d, t.b);
    lemma_wf_ops(nb, t.d);
    lemma_wf_ops(nc, t.a);
    lemma_wf_ops(t.a, t.c);
    lemma_wf_ops(nc, t.b);
    lemma_wf_ops(iv.a, t.a);
    lemma_wf_ops(iv.b, t.c);
    lemma_wf_ops(iv.a, t.b);
    lemma_wf_ops(iv.b, t.d);
    lemma_wf_ops(iv.c, t.a);
    lemma_wf_ops(iv.d, t.c);
    lemma_wf_ops(iv.c, t.b);
    lemma_wf_ops(iv.d, t.d);
    lemma_wf_div(rat_mul_v(t.d, t.a), dt);
    lemma_wf_div(rat_mul_v(nb, t.c), dt);
    lemma_wf_div(rat_mul_v(t.d, t.b), dt);
    lemma_wf_div(rat_mul_v(nb, t.d), dt);
    lemma_wf_div(rat_mul_v(nc, t.a), dt);
    lemma_wf_div(rat_mul_v(t.a, t.c), dt);
    lemma_wf_div(rat_mul_v(nc, t.b), dt);
    lemma_wf_div(rat_mul_v(t.a, t.d), dt);
    lemma_add_congr(
        rat_mul_v(iv.a, t.a),
        rat_div_v(rat_mul_v(t.d, t.a), dt),
        rat_mul_v(iv.b, t.c),
        rat_div_v(rat_mul_v(nb, t.c), dt),
    );
    lemma_add_congr(
        rat_mul_v(iv.a, t.b),
        rat_div_v(rat_mul_v(t.d, t.b), dt),
        rat_mul_v(iv.b, t.d),
        rat_div_v(rat_mul_v(nb, t.d), dt),
    );
    lemma_add_congr(
        rat_mul_v(iv.c, t.a),
        rat_div_v(rat_mul_v(nc, t.a), dt),
        rat_mul_v(iv.d, t.c),
        rat_div_v(rat_mul_v(t.a, t.c), dt),
    );
    lemma_add_congr(
        rat_mul_v(iv.c, t.b),
        rat_div_v(rat_mul_v(nc, t.b), dt),
        rat_mul_v(iv.d, t.d),
        rat_div_v(rat_mul_v(t.a, t.d), dt),
    );
    lemma_div_add(rat_mul_v(t.d, t.a), rat_mul_v(nb, t.c), dt);
    lemma_div_add(rat_mul_v(t.d, t.b), rat_mul_v(nb, t.d), dt);
    lemma_div_add(rat_mul_v(nc, t.a), rat_mul_v(t.a, t.c), dt);
    lemma_div_add(rat_mul_v(nc, t.b), rat_mul_v(t.a, t.d), dt);
    let s1 = rat_add_v(rat_mul_v(t.d, t.a), rat_mul_v(nb, t.c));
    let s2 = rat_add_v(rat_mul_v(t.d, t.b), rat_mul_v(nb, t.d));
    let s3 = rat_add_v(rat_mul_v(nc, t.a), rat_mul_v(t.a, t.c));
    let s4 = rat_add_v(rat_mul_v(nc, t.b), rat_mul_v(t.a, t.d));
    // the diagonal numerators are the determinant, the others cancel
    assert((t.d.num * t.a.num) * (t.b.den * t.c.den) == (t.a.num * t.d.num) * (t.b.den * t.c.den))
        by (nonlinear_arith);
    assert(((-t.b.num) * t.c.num) * (t.d.den * t.a.den) == -((t.b.num * t.c.num) * (t.a.den
        * t.d.den))) by (nonlinear_arith);
    assert((t.d.den * t.a.den) * (t.b.den * t.c.den) == (t.a.den * t.d.den) * (t.b.den * t.c.den))
        by (nonlinear_arith);
    assert(s1 == dt);
    assert((t.d.num * t.b.num) * (t.b.den * t.d.den) == (t.b.num * t.d.num) * (t.d.den * t.b.den))
        by (nonlinear_arith);
    assert(((-t.b.num) * t.d.num) * (t.d.den * t.b.den) == -((t.b.num * t.d.num) * (t.d.den
        * t.b.den))) by (nonlinear_arith);
    assert(s2.num == 0);
    assert(((-t.c.num) * t.a.num) * (t.a.den * t.c.den) == -((t.a.num * t.c.num) * (t.c.den
        * t.a.den))) by (nonlinear_arith);
    assert(s3.num == 0);
    assert(((-t.c.num) * t.b.num) * (t.a.den * t.d.den) == -((t.b.num * t.c.num) * (t.a.den
        * t.d.den))) by (nonlinear_arith);
    assert((t.a.num * t.d.num) * (t.c.den * t.b.den) == (t.a.num * t.d.num) * (t.b.den * t.c.den))
        by (nonlinear_arith);
    assert((t.c.den * t.b.den) * (t.a.den * t.d.den) == (t.a.den * t.d.den) * (t.b.den * t.c.den))
        by (nonlinear_arith);
    assert(s4 == dt);
    lemma_wf_ops(rat_mul_v(t.d, t.b), rat_mul_v(nb, t.d));
    lemma_wf_ops(rat_mul_v(nc, t.a), rat_mul_v(t.a, t.c));
    lemma_div_one_eqv(s1, dt);
    lemma_div_zero_eqv(s2, dt);
    lemma_div_zero_eqv(s3, dt);
    lemma_div_one_eqv(s4, dt);
    lemma_wf_ops(rat_div_v(rat_mul_v(t.d, t.a), dt), rat_div_v(rat_mul_v(nb, t.c), dt));
    lemma_wf_ops(rat_div_v(rat_mul_v(t.d, t.b), dt), rat_div_v(rat_mul_v(nb, t.d), dt));
    lemma_wf_ops(rat_div_v(rat_mul_v(nc, t.a), dt), rat_div_v(rat_mul_v(t.a, t.c), dt));
    lemma_wf_ops(rat_div_v(rat_mul_v(nc, t.b), dt), rat_div_v(rat_mul_v(t.a, t.d), dt));
    lemma_wf_div(s1, dt);
    lemma_wf_div(s2, dt);
    lemma_wf_div(s3, dt);
    lemma_wf_div(s4, dt);
    lemma_eqv_trans(
        cv.a,
        rat_add_v(rat_div_v(rat_mul_v(t.d, t.a), dt), rat_div_v(rat_mul_v(nb, t.c), dt)),
        rat_div_v(s1, dt),
    );
    lemma_eqv_trans(cv.a, rat_div_v(s1, dt), rat_one_v());
    lemma_eqv_trans(
        cv.b,
        rat_add_v(rat_div_v(rat_mul_v(t.d, t.b), dt), rat_div_v(rat_mul_v(nb, t.d), dt)),
        rat_div_v(s2, dt),
    );
    lemma_eqv_trans(cv.b, rat_div_v(s2, dt), rat_zero_v());
    lemma_eqv_trans(
        cv.c,
        rat_add_v(rat_div_v(rat_mul_v(nc, t.a), dt), rat_div_v(rat_mul_v(t.a, t.c), dt)),
        rat_div_v(s3, dt),
    );
    lemma_eqv_trans(cv.c, rat_div_v(s3, dt), rat_zero_v());
    lemma_eqv_trans(
        cv.d,
        rat_add_v(rat_div_v(rat_mul_v(nc, t.b), dt), rat_div_v(rat_mul_v(t.a, t.d), dt)),
        rat_div_v(s4, dt),
    );
    lemma_eqv_trans(cv.d, rat_div_v(s4, dt), rat_one_v());
    // the translation of the product is a value plus its own negation
    lemma_wf_ops(iv.a, t.tx);
    lemma_wf_ops(iv.b, t.ty);
    lemma_wf_ops(rat_mul_v(iv.a, t.tx), rat_mul_v(iv.b, t.ty));
    lemma_wf_ops(iv.c, t.tx);
    lemma_wf_ops(iv.d, t.ty);
    lemma_wf_ops(rat_mul_v(iv.c, t.tx), rat_mul_v(iv.d, t.ty));
    lemma_add_neg_zero(rat_add_v(rat_mul_v(iv.a, t.tx), rat_mul_v(iv.b, t.ty)));
    lemma_add_neg_zero(rat_add_v(rat_mul_v(iv.c, t.tx), rat_mul_v(iv.d, t.ty)));
}

/// An executable point.
#[derive(Clone, Copy, Debug)]
pub struct Point {
    pub x: Rat,
    pub y: Rat,
}

impl View for Point {
    type V = PointV;

    open spec fn view(&self) -> PointV {
        PointV { x: self.x@, y: self.y@ }
    }
}

impl Point {
    pub open spec fn wf(&self) -> bool {
        self.x.wf() && self.y.wf()
    }

    /// The point with the given coordinates.
    pub fn new(x: Rat, y: Rat) -> (r: Point)
        requires
            x.wf(),
            y.wf(),
        ensures
            r.wf(),
            r@ == (PointV { x: x@, y: y@ }),
    {
        Point { x, y }
    }
}

/// An executable affine map.
#[derive(Clone, Copy, Debug)]
pub struct Affine {
    pub a: Rat,
    pub b: Rat,
    pub c: Rat,
    pub d: Rat,
    pub tx: Rat,
    pub ty: Rat,
}

impl View for Affine {
    type V = AffineV;

    open spec fn view(&self) -> AffineV {
        AffineV { a: self.a@, b: self.b@, c: self.c@, d: self.d@, tx: self.tx@, ty: self.ty@ }
    }
}

impl Affine {
    pub open spec fn wf(&self) -> bool {
        self.a.wf() && self.b.wf() && self.c.wf() && self.d.wf() && self.tx.wf() && self.ty.wf()
    }

    /// The identity map.
    pub fn identity() -> (r: Affine)
        ensures
            r.wf(),
            r@ == identity_v(),
    {
        Affine {
            a: rat_one(),
            b: rat_zero(),
            c: rat_zero(),
            d: rat_one(),
            tx: rat_zero(),
            ty: rat_zero(),
        }
    }

    /// The axis-aligned map that scales by `(sx, sy)` and then translates
    /// by `(tx, ty)`; no rotation.
    pub fn scale_translate(sx: Rat, sy: Rat, tx: Rat, ty: Rat) -> (r: Affine)
        requires
            sx.wf(),
            sy.wf(),
            tx.wf(),
            ty.wf(),
        ensures
            r.wf(),
            r@.a == sx@ && r@.b == rat_zero_v() && r@.c == rat_zero_v() && r@.d == sy@,
            r@.tx == tx@ && r@.ty == ty@,
    {
        Affine { a: sx, b: rat_zero(), c: rat_zero(), d: sy, tx, ty }
    }
}

/// One reduced addition inside a longer exact computation: the operands
/// stand (reduced) for `aw` and `bw`, and so does the sum.
pub(crate) fn add_step(a: &Rat, b: &Rat, Ghost(aw): Ghost<RatV>, Ghost(bw): Ghost<RatV>) -> (r: Option<Rat>)
    requires
        a.wf(),
        b.wf(),
        rat_scales(a@, aw),
        rat_scales(b@, bw),
    ensures
        match r {
            Some(v) => v.wf() && rat_scales(v@, rat_add_v(aw, bw)),
            None => !rat_fits(rat_add_v(aw, bw)),
        },
{
    let r = rat_add(a, b);
    proof {
        lemma_wf_ops(a@, b@);
        lemma_scales_ops(a@, aw, b@, bw);
        match r {
            Some(v) => lemma_scales_trans(v@, rat_add_v(a@, b@), rat_add_v(aw, bw)),
            None => {
                if rat_fits(rat_add_v(aw, bw)) {
                    lemma_scales_fits(rat_add_v(a@, b@), rat_add_v(aw, bw));
                }
            },
        }
    }
    r
}

/// One reduced subtraction; see [`add_step`].
pub(crate) fn sub_step(a: &Rat, b: &Rat, Ghost(aw): Ghost<RatV>, Ghost(bw): Ghost<RatV>) -> (r: Option<Rat>)
    requires
        a.wf(),
        b.wf(),
        rat_scales(a@, aw),
        rat_scales(b@, bw),
    ensures
        match r {
            Some(v) => v.wf() && rat_scales(v@, rat_sub_v(aw, bw)),
            None => !rat_fits(rat_sub_v(aw, bw)),
        },
{
    let r = rat_sub(a, b);
    proof {
        lemma_wf_ops(a@, b@);
        lemma_scales_ops(a@, aw, b@, bw);
        match r {
            Some(v) => lemma_scales_trans(v@, rat_sub_v(a@, b@), rat_sub_v(aw, bw)),
            None => {
                if rat_fits(rat_sub_v(aw, bw)) {
                    lemma_scales_fits(rat_sub_v(a@, b@), rat_sub_v(aw, bw));
                }
            },
        }
    }
    r
}

/// One reduced multiplication; see [`add_step`].
pub(crate) fn mul_step(a: &Rat, b: &Rat, Ghost(aw): Ghost<RatV>, Ghost(bw): Ghost<RatV>) -> (r: Option<Rat>)
    requires
        a.wf(),
        b.wf(),
        rat_scales(a@, aw),
        rat_scales(b@, bw),
    ensures
        match r {
            Some(v) => v.wf() && rat_scales(v@, rat_mul_v(aw, bw)),
            None => !rat_fits(rat_mul_v(aw, bw)),
        },
{
    let r = rat_mul(a, b);
    proof {
        lemma_wf_ops(a@, b@);
        lemma_scales_ops(a@, aw, b@, bw);
        match r {
            Some(v) => lemma_scales_trans(v@, rat_mul_v(a@, b@), rat_mul_v(aw, bw)),
            None => {
                if rat_fits(rat_mul_v(aw, bw)) {
                    lemma_scales_fits(rat_mul_v(a@, b@), rat_mul_v(aw, bw));
                }
            },
        }
    }
    r
}

/// One reduced division by a nonzero divisor; see [`add_step`].
pub(crate) fn div_step(a: &Rat, b: &Rat, Ghost(aw): Ghost<RatV>, Ghost(bw): Ghost<RatV>) -> (r: Option<Rat>)
    requires
        a.wf(),
        b.wf(),
        rat_scales(a@, aw),
        rat_scales(b@, bw),
        b@.num != 0,
    ensures
        bw.num != 0,
        match r {
            Some(v) => v.wf() && rat_scales(v@, rat_div_v(aw, bw)),
            None => !rat_fits(rat_div_v(aw, bw)),
        },
{
    proof {
        lemma_scales_div(a@, aw, b@, bw);
    }
    let r = rat_div(a, b);
    proof {
        lemma_wf_div(a@, b@);
        match r {
            Some(v) => lemma_scales_trans(v@, rat_div_v(a@, b@), rat_div_v(aw, bw)),
            None => {
                if rat_fits(rat_div_v(aw, bw)) {
                    lemma_scales_fits(rat_div_v(a@, b@), rat_div_v(aw, bw));
                }
            },
        }
    }
    r
}

/// Negation inside a longer exact computation; never fails.
pub(crate) fn neg_step(a: &Rat, Ghost(aw): Ghost<RatV>) -> (r: Rat)
    requires
        a.wf(),
        rat_scales(a@, aw),
    ensures
        r.wf(),
        rat_scales(r@, rat_neg_v(aw)),
{
    let r = rat_neg(a);
    proof {
        lemma_scales_ops(a@, aw, a@, aw);
    }
    r
}

/// Where the map sends the point; exact up to reduction, and never a
/// failure while the unreduced intermediates fit the carrier.
pub fn apply(t: &Affine, p: &Point) -> (r: Option<Point>)
    requires
        t.wf(),
        p.wf(),
    ensures
        match r {
            Some(q) => q.wf() && pt_scales(q@, apply_v(t@, p@)),
            None => !apply_fits(t@, p@),
        },
{
    let ghost tv = t@;
    let ghost pv = p@;
    proof {
        lemma_scales_refl(tv.a);
        lemma_scales_refl(tv.b);
        lemma_scales_refl(tv.c);
        lemma_scales_refl(tv.d);
        lemma_scales_refl(tv.tx);
        lemma_scales_refl(tv.ty);
        lemma_scales_refl(pv.x);
        lemma_scales_refl(pv.y);
    }
    let m1 = match mul_step(&t.a, &p.x, Ghost(tv.a), Ghost(pv.x)) {
        Some(v) => v,
        None => { return None },
    };
    let m2 = match mul_step(&t.b, &p.y, Ghost(tv.b), Ghost(pv.y)) {
        Some(v) => v,
        None => { return None },
    };
    let s1 = match add_step(&m1, &m2, Ghost(rat_mul_v(tv.a, pv.x)), Ghost(rat_mul_v(tv.b, pv.y))) {
        Some(v) => v,
        None => { return None },
    };
    let x = match add_step(
        &s1,
        &t.tx,
        Ghost(rat_add_v(rat_mul_v(tv.a, pv.x), rat_mul_v(tv.b, pv.y))),
        Ghost(tv.tx),
    ) {
        Some(v) => v,
        None => { return None },
    };
    let m3 = match mul_step(&t.c, &p.x, Ghost(tv.c), Ghost(pv.x)) {
        Some(v) => v,
        None => { return None },
    };
    let m4 = match mul_step(&t.d, &p.y, Ghost(tv.d), Ghost(pv.y)) {
        Some(v) => v,
        None => { return None },
    };
    let s2 = match add_step(&m3, &m4, Ghost(rat_mul_v(tv.c, pv.x)), Ghost(rat_mul_v(tv.d, pv.y))) {
        Some(v) => v,
        None => { return None },
    };
    let y = match add_step(
        &s2,
        &t.ty,
        Ghost(rat_add_v(rat_mul_v(tv.c, pv.x), rat_mul_v(tv.d, pv.y))),
        Ghost(tv.ty),
    ) {
        Some(v) => v,
        None => { return None },
    };
    Some(Point { x, y })
}

/// The composite map `f` after `g`; exact up to reduction.
pub fn compose(f: &Affine, g: &Affine) -> (r: Option<Affine>)
    requires
        f.wf(),
        g.wf(),
    ensures
        match r {
            Some(u) => u.wf() && af_scales(u@, compose_v(f@, g@)),
            None => !compose_fits(f@, g@),
        },
{
    let ghost fv = f@;
    let ghost gv = g@;
    proof {
        lemma_scales_refl(fv.a);
        lemma_scales_refl(fv.b);
        lemma_scales_refl(fv.c);
        lemma_scales_refl(fv.d);
        lemma_scales_refl(fv.tx);
        lemma_scales_refl(fv.ty);
        lemma_scales_refl(gv.a);
        lemma_scales_refl(gv.b);
        lemma_scales_refl(gv.c);
        lemma_scales_refl(gv.d);
        lemma_scales_refl(gv.tx);
        lemma_scales_refl(gv.ty);
    }
    let p1 = match mul_step(&f.a, &g.a, Ghost(fv.a), Ghost(gv.a)) {
        Some(v) => v,
        None => { return None },
    };
    let p2 = match mul_step(&f.b, &g.c, Ghost(fv.b), Ghost(gv.c)) {
        Some(v) => v,
        None => { return None },
    };
    let ea = match add_step(&p1, &p2, Ghost(rat_mul_v(fv.a, gv.a)), Ghost(rat_mul_v(fv.b, gv.c))) {
        Some(v) => v,
        None => { return None },
    };
    let p3 = match mul_step(&f.a, &g.b, Ghost(fv.a), Ghost(gv.b)) {
        Some(v) => v,
        None => { return None },
    };
    let p4 = match mul_step(&f.b, &g.d, Ghost(fv.b), Ghost(gv.d)) {
        Some(v) => v,
        None => { return None },
    };
    let eb = match add_step(&p3, &p4, Ghost(rat_mul_v(fv.a, gv.b)), Ghost(rat_mul_v(fv.b, gv.d))) {
        Some(v) => v,
        None => { return None },
    };
    let p5 = match mul_step(&f.c, &g.a, Ghost(fv.c), Ghost(gv.a)) {
        Some(v) => v,
        None => { return None },
    };
    let p6 = match mul_step(&f.d, &g.c, Ghost(fv.d), Ghost(gv.c)) {
        Some(v) => v,
        None => { return None },
    };
    let ec = match add_step(&p5, &p6, Ghost(rat_mul_v(fv.c, gv.a)), Ghost(rat_mul_v(fv.d, gv.c))) {
        Some(v) => v,
        None => { return None },
    };
    let p7 = match mul_step(&f.c, &g.b, Ghost(fv.c), Ghost(gv.b)) {
        Some(v) => v,
        None => { return None },
    };
    let p8 = match mul_step(&f.d, &g.d, Ghost(fv.d), Ghost(gv.d)) {
        Some(v) => v,
        None => { return None },
    };
    let ed = match add_step(&p7, &p8, Ghost(rat_mul_v(fv.c, gv.b)), Ghost(rat_mul_v(fv.d, gv.d))) {
        Some(v) => v,
        None => { return None },
    };
    let p9 = match mul_step(&f.a, &g.tx, Ghost(fv.a), Ghost(gv.tx)) {
        Some(v) => v,
        None => { return None },
    };
    let p10 = match mul_step(&f.b, &g.ty, Ghost(fv.b), Ghost(gv.ty)) {
        Some(v) => v,
        None => { return None },
    };
    let s1 = match add_step(
        &p9,
        &p10,
        Ghost(rat_mul_v(fv.a, gv.tx)),
        Ghost(rat_mul_v(fv.b, gv.ty)),
    ) {
        Some(v) => v,
        None => { return None },
    };
    let etx = match add_step(
        &s1,
        &f.tx,
        Ghost(rat_add_v(rat_mul_v(fv.a, gv.tx), rat_mul_v(fv.b, gv.ty))),
        Ghost(fv.tx),
    ) {
        Some(v) => v,
        None => { return None },
    };
    let p11 = match mul_step(&f.c, &g.tx, Ghost(fv.c), Ghost(gv.tx)) {
        Some(v) => v,
        None => { return None },
    };
    let p12 = match mul_step(&f.d, &g.ty, Ghost(fv.d), Ghost(gv.ty)) {
        Some(v) => v,
        None => { return None },
    };
    let s2 = match add_step(
        &p11,
        &p12,
        Ghost(rat_mul_v(fv.c, gv.tx)),
        Ghost(rat_mul_v(fv.d, gv.ty)),
    ) {
        Some(v) => v,
        None => { return None },
    };
    let ety = match add_step(
        &s2,
        &f.ty,
        Ghost(rat_add_v(rat_mul_v(fv.c, gv.tx), rat_mul_v(fv.d, gv.ty))),
        Ghost(fv.ty),
    ) {
        Some(v) => v,
        None => { return None },
    };
    Some(Affine { a: ea, b: eb, c: ec, d: ed, tx: etx, ty: ety })
}

/// The inverse map. Fails exactly on a singular map, or when an unreduced
/// intermediate overflows the carrier.
pub fn inverse(t: &Affine) -> (r: Option<Affine>)
    requires
        t.wf(),
    ensures
        match r {
            Some(u) => u.wf() && af_scales(u@, inverse_v(t@)) && det_v(t@).num != 0,
            None => det_v(t@).num == 0 || !inverse_fits(t@),
        },
{
    let ghost tv = t@;
    proof {
        lemma_scales_refl(tv.a);
        lemma_scales_refl(tv.b);
        lemma_scales_refl(tv.c);
        lemma_scales_refl(tv.d);
        lemma_scales_refl(tv.tx);
        lemma_scales_refl(tv.ty);
    }
    let m1 = match mul_step(&t.a, &t.d, Ghost(tv.a), Ghost(tv.d)) {
        Some(v) => v,
        None => { return None },
    };
    let m2 = match mul_step(&t.b, &t.c, Ghost(tv.b), Ghost(tv.c)) {
        Some(v) => v,
        None => { return None },
    };
    let dt = match sub_step(&m1, &m2, Ghost(rat_mul_v(tv.a, tv.d)), Ghost(rat_mul_v(tv.b, tv.c))) {
        Some(v) => v,
        None => { return None },
    };
    proof {
        lemma_scales_zero(dt@, det_v(tv));
    }
    if dt.num == 0 {
        return None;
    }
    let ghost dw = det_v(tv);
    let ia = match div_step(&t.d, &dt, Ghost(tv.d), Ghost(dw)) {
        Some(v) => v,
        None => { return None },
    };
    let nb = neg_step(&t.b, Ghost(tv.b));
    let ib = match div_step(&nb, &dt, Ghost(rat_neg_v(tv.b)), Ghost(dw)) {
        Some(v) => v,
        None => { return None },
    };
    let nc = neg_step(&t.c, Ghost(tv.c));
    let ic = match div_step(&nc, &dt, Ghost(rat_neg_v(tv.c)), Ghost(dw)) {
        Some(v) => v,
        None => { return None },
    };
    let id = match div_step(&t.a, &dt, Ghost(tv.a), Ghost(dw)) {
        Some(v) => v,
        None => { return None },
    };
    let ghost iv = inverse_v(tv);
    let u1 = match mul_step(&ia, &t.tx, Ghost(iv.a), Ghost(tv.tx)) {
        Some(v) => v,
        None => { return None },
    };
    let u2 = match mul_step(&ib, &t.ty, Ghost(iv.b), Ghost(tv.ty)) {
        Some(v) => v,
        None => { return None },
    };
    let u = match add_step(&u1, &u2, Ghost(rat_mul_v(iv.a, tv.tx)), Ghost(rat_mul_v(iv.b, tv.ty))) {
        Some(v) => v,
        None => { return None },
    };
    let itx = neg_step(&u, Ghost(rat_add_v(rat_mul_v(iv.a, tv.tx), rat_mul_v(iv.b, tv.ty))));
    let w1 = match mul_step(&ic, &t.tx, Ghost(iv.c), Ghost(tv.tx)) {
        Some(v) => v,
        None => { return None },
    };
    let w2 = match mul_step(&id, &t.ty, Ghost(iv.d), Ghost(tv.ty)) {
        Some(v) => v,
        None => { return None },
    };
    let w = match add_step(&w1, &w2, Ghost(rat_mul_v(iv.c, tv.tx)), Ghost(rat_mul_v(iv.d, tv.ty))) {
        Some(v) => v,
        None => { return None },
    };
    let ity = neg_step(&w, Ghost(rat_add_v(rat_mul_v(iv.c, tv.tx), rat_mul_v(iv.d, tv.ty))));
    Some(Affine { a: ia, b: ib, c: ic, d: id, tx: itx, ty: ity })
}

/// The point `s + (e - s) * t`, the interpolation along a segment.
pub fn lerp_point(s: &Point, e: &Point, t: &Rat) -> (r: Option<Point>)
    requires
        s.wf(),
        e.wf(),
        t.wf(),
    ensures
        match r {
            Some(q) => q.wf() && pt_scales(q@, pt_lerp_v(s@, e@, t@)),
            None => !pt_lerp_fits(s@, e@, t@),
        },
{
    let ghost sv = s@;
    let ghost ev = e@;
    let ghost tw = t@;
    proof {
        lemma_scales_refl(sv.x);
        lemma_scales_refl(sv.y);
        lemma_scales_refl(ev.x);
        lemma_scales_refl(ev.y);
        lemma_scales_refl(tw);
    }
    let dx = match sub_step(&e.x, &s.x, Ghost(ev.x), Ghost(sv.x)) {
        Some(v) => v,
        None => { return None },
    };
    let mx = match mul_step(&dx, t, Ghost(rat_sub_v(ev.x, sv.x)), Ghost(tw)) {
        Some(v) => v,
        None => { return None },
    };
    let x = match add_step(&s.x, &mx, Ghost(sv.x), Ghost(rat_mul_v(rat_sub_v(ev.x, sv.x), tw))) {
        Some(v) => v,
        None => { return None },
    };
    let dy = match sub_step(&e.y, &s.y, Ghost(ev.y), Ghost(sv.y)) {
        Some(v) => v,
        None => { return None },
    };
    let my = match mul_step(&dy, t, Ghost(rat_sub_v(ev.y, sv.y)), Ghost(tw)) {
        Some(v) => v,
        None => { return None },
    };
    let y = match add_step(&s.y, &my, Ghost(sv.y), Ghost(rat_mul_v(rat_sub_v(ev.y, sv.y), tw))) {
        Some(v) => v,
        None => { return None },
    };
    Some(Point { x, y })
}

/// The projection parameter `dot(m - s, e - s) / |e - s|^2`. Fails exactly
/// on a degenerate segment (`s` and `e` at the same point) or on overflow.
pub fn project_param(s: &Point, e: &Point, m: &Point) -> (r: Option<Rat>)
    requires
        s.wf(),
        e.wf(),
        m.wf(),
    ensures
        match r {
            Some(v) => v.wf() && rat_scales(v@, project_v(s@, e@, m@)) && len2_v(s@, e@).num != 0,
            None => len2_v(s@, e@).num == 0 || !project_fits(s@, e@, m@),
        },
{
    let ghost sv = s@;
    let ghost ev = e@;
    let ghost mv = m@;
    proof {
        lemma_scales_refl(sv.x);
        lemma_scales_refl(sv.y);
        lemma_scales_refl(ev.x);
        lemma_scales_refl(ev.y);
        lemma_scales_refl(mv.x);
        lemma_scales_refl(mv.y);
    }
    let ex = match sub_step(&e.x, &s.x, Ghost(ev.x), Ghost(sv.x)) {
        Some(v) => v,
        None => { return None },
    };
    let ey = match sub_step(&e.y, &s.y, Ghost(ev.y), Ghost(sv.y)) {
        Some(v) => v,
        None => { return None },
    };
    let ghost exw = rat_sub_v(ev.x, sv.x);
    let ghost eyw = rat_sub_v(ev.y, sv.y);
    let l1 = match mul_step(&ex, &ex, Ghost(exw), Ghost(exw)) {
        Some(v) => v,
        None => { return None },
    };
    let l2 = match mul_step(&ey, &ey, Ghost(eyw), Ghost(eyw)) {
        Some(v) => v,
        None => { return None },
    };
    let l = match add_step(&l1, &l2, Ghost(rat_mul_v(exw, exw)), Ghost(rat_mul_v(eyw, eyw))) {
        Some(v) => v,
        None => { return None },
    };
    proof {
        lemma_scales_zero(l@, len2_v(sv, ev));
    }
    if l.num == 0 {
        return None;
    }
    let mx = match sub_step(&m.x, &s.x, Ghost(mv.x), Ghost(sv.x)) {
        Some(v) => v,
        None => { return None },
    };
    let my = match sub_step(&m.y, &s.y, Ghost(mv.y), Ghost(sv.y)) {
        Some(v) => v,
        None => { return None },
    };
    let ghost mxw = rat_sub_v(mv.x, sv.x);
    let ghost myw = rat_sub_v(mv.y, sv.y);
    let d1 = match mul_step(&mx, &ex, Ghost(mxw), Ghost(exw)) {
        Some(v) => v,
        None => { return None },
    };
    let d2 = match mul_step(&my, &ey, Ghost(myw), Ghost(eyw)) {
        Some(v) => v,
        None => { return None },
    };
    let dp = match add_step(&d1, &d2, Ghost(rat_mul_v(mxw, exw)), Ghost(rat_mul_v(myw, eyw))) {
        Some(v) => v,
        None => { return None },
    };
    div_step(&dp, &l, Ghost(dot_v(sv, ev, mv)), Ghost(len2_v(sv, ev)))
}

/// The cross product of `e - s` with `m - s`.
pub fn cross_of(s: &Point, e: &Point, m: &Point) -> (r: Option<Rat>)
    requires
        s.wf(),
        e.wf(),
        m.wf(),
    ensures
        match r {
            Some(v) => v.wf() && rat_scales(v@, cross_v(s@, e@, m@)),
            None => !cross_fits(s@, e@, m@),
        },
{
    let ghost sv = s@;
    let ghost ev = e@;
    let ghost mv = m@;
    proof {
        lemma_scales_refl(sv.x);
        lemma_scales_refl(sv.y);
        lemma_scales_refl(ev.x);
        lemma_scales_refl(ev.y);
        lemma_scales_refl(mv.x);
        lemma_scales_refl(mv.y);
    }
    let ex = match sub_step(&e.x, &s.x, Ghost(ev.x), Ghost(sv.x)) {
        Some(v) => v,
        None => { return None },
    };
    let my = match sub_step(&m.y, &s.y, Ghost(mv.y), Ghost(sv.y)) {
        Some(v) => v,
        None => { return None },
    };
    let ey = match sub_step(&e.y, &s.y, Ghost(ev.y), Ghost(sv.y)) {
        Some(v) => v,
        None => { return None },
    };
    let mx = match sub_step(&m.x, &s.x, Ghost(mv.x), Ghost(sv.x)) {
        Some(v) => v,
        None => { return None },
    };
    let c1 = match mul_step(
        &ex,
        &my,
        Ghost(rat_sub_v(ev.x, sv.x)),
        Ghost(rat_sub_v(mv.y, sv.y)),
    ) {
        Some(v) => v,
        None => { return None },
    };
    let c2 = match mul_step(
        &ey,
        &mx,
        Ghost(rat_sub_v(ev.y, sv.y)),
        Ghost(rat_sub_v(mv.x, sv.x)),
    ) {
        Some(v) => v,
        None => { return None },
    };
    sub_step(
        &c1,
        &c2,
        Ghost(rat_mul_v(rat_sub_v(ev.x, sv.x), rat_sub_v(mv.y, sv.y))),
        Ghost(rat_mul_v(rat_sub_v(ev.y, sv.y), rat_sub_v(mv.x, sv.x))),
    )
}

/// The squared distance between two points.
pub fn dist2(p: &Point, q: &Point) -> (r: Option<Rat>)
    requires
        p.wf(),
        q.wf(),
    ensures
        match r {
            Some(v) => v.wf() && rat_scales(v@, dist2_v(p@, q@)),
            None => !dist2_fits(p@, q@),
        },
{
    let ghost pv = p@;
    let ghost qv = q@;
    proof {
        lemma_scales_refl(pv.x);
        lemma_scales_refl(pv.y);
        lemma_scales_refl(qv.x);
        lemma_scales_refl(qv.y);
    }
    let dx = match sub_step(&p.x, &q.x, Ghost(pv.x), Ghost(qv.x)) {
        Some(v) => v,
        None => { return None },
    };
    let dy = match sub_step(&p.y, &q.y, Ghost(pv.y), Ghost(qv.y)) {
        Some(v) => v,
        None => { return None },
    };
    let ghost dxw = rat_sub_v(pv.x, qv.x);
    let ghost dyw = rat_sub_v(pv.y, qv.y);
    let s1 = match mul_step(&dx, &dx, Ghost(dxw), Ghost(dxw)) {
        Some(v) => v,
        None => { return None },
    };
    let s2 = match mul_step(&dy, &dy, Ghost(dyw), Ghost(dyw)) {
        Some(v) => v,
        None => { return None },
    };
    add_step(&s1, &s2, Ghost(rat_mul_v(dxw, dxw)), Ghost(rat_mul_v(dyw, dyw)))
}

/// The squared length of the segment from `s` to `e`.
pub fn len2_of(s: &Point, e: &Point) -> (r: Option<Rat>)
    requires
        s.wf(),
        e.wf(),
    ensures
        match r {
            Some(v) => v.wf() && rat_scales(v@, len2_v(s@, e@)),
            None => !len2_fits(s@, e@),
        },
{
    let ghost sv = s@;
    let ghost ev = e@;
    proof {
        lemma_scales_refl(sv.x);
        lemma_scales_refl(sv.y);
        lemma_scales_refl(ev.x);
        lemma_scales_refl(ev.y);
    }
    let ex = match sub_step(&e.x, &s.x, Ghost(ev.x), Ghost(sv.x)) {
        Some(v) => v,
        None => { return None },
    };
    let ey = match sub_step(&e.y, &s.y, Ghost(ev.y), Ghost(sv.y)) {
        Some(v) => v,
        None => { return None },
    };
    let ghost exw = rat_sub_v(ev.x, sv.x);
    let ghost eyw = rat_sub_v(ev.y, sv.y);
    let l1 = match mul_step(&ex, &ex, Ghost(exw), Ghost(exw)) {
        Some(v) => v,
        None => { return None },
    };
    let l2 = match mul_step(&ey, &ey, Ghost(eyw), Ghost(eyw)) {
        Some(v) => v,
        None => { return None },
    };
    add_step(&l1, &l2, Ghost(rat_mul_v(exw, exw)), Ghost(rat_mul_v(eyw, eyw)))
}

/// The line forms are stable under reduction of the segment's endpoints:
/// the cross product, squared length, scalar product and projection of the
/// reduced endpoints stand (reduced) for those of the originals.
pub proof fn lemma_line_scales(s: PointV, sw: PointV, e: PointV, ew: PointV, m: PointV)
    requires
        pt_scales(s, sw),
        pt_scales(e, ew),
        pt_wf_v(s),
        pt_wf_v(e),
        pt_wf_v(m),
    ensures
        rat_scales(cross_v(s, e, m), cross_v(sw, ew, m)),
        rat_scales(len2_v(s, e), len2_v(sw, ew)),
        rat_scales(dot_v(s, e, m), dot_v(sw, ew, m)),
        (len2_v(s, e).num == 0) == (len2_v(sw, ew).num == 0),
        len2_v(s, e).num != 0 ==> rat_scales(project_v(s, e, m), project_v(sw, ew, m)),
        cross_fits(sw, ew, m) ==> cross_fits(s, e, m),
        len2_fits(sw, ew) ==> len2_fits(s, e),
        project_fits(sw, ew, m) ==> project_fits(s, e, m),
{
    lemma_scales_refl(m.x);
    lemma_scales_refl(m.y);
    lemma_scales_ops(e.x, ew.x, s.x, sw.x);
    lemma_scales_ops(e.y, ew.y, s.y, sw.y);
    lemma_scales_ops(m.x, m.x, s.x, sw.x);
    lemma_scales_ops(m.y, m.y, s.y, sw.y);
    let ex = rat_sub_v(e.x, s.x);
    let ey = rat_sub_v(e.y, s.y);
    let mx = rat_sub_v(m.x, s.x);
    let my = rat_sub_v(m.y, s.y);
    let exw = rat_sub_v(ew.x, sw.x);
    let eyw = rat_sub_v(ew.y, sw.y);
    let mxw = rat_sub_v(m.x, sw.x);
    let myw = rat_sub_v(m.y, sw.y);
    lemma_scales_ops(ex, exw, my, myw);
    lemma_scales_ops(ey, eyw, mx, mxw);
    lemma_scales_ops(rat_mul_v(ex, my), rat_mul_v(exw, myw), rat_mul_v(ey, mx), rat_mul_v(eyw, mxw));
    lemma_scales_ops(ex, exw, ex, exw);
    lemma_scales_ops(ey, eyw, ey, eyw);
    lemma_scales_ops(rat_mul_v(ex, ex), rat_mul_v(exw, exw), rat_mul_v(ey, ey), rat_mul_v(eyw, eyw));
    lemma_scales_ops(mx, mxw, ex, exw);
    lemma_scales_ops(my, myw, ey, eyw);
    lemma_scales_ops(rat_mul_v(mx, ex), rat_mul_v(mxw, exw), rat_mul_v(my, ey), rat_mul_v(myw, eyw));
    lemma_scales_zero(len2_v(s, e), len2_v(sw, ew));
    lemma_wf_ops(e.x, s.x);
    lemma_wf_ops(e.y, s.y);
    lemma_wf_ops(m.x, s.x);
    lemma_wf_ops(m.y, s.y);
    lemma_wf_ops(ex, my);
    lemma_wf_ops(ey, mx);
    lemma_wf_ops(rat_mul_v(ex, my), rat_mul_v(ey, mx));
    lemma_wf_ops(ex, ex);
    lemma_wf_ops(ey, ey);
    lemma_wf_ops(rat_mul_v(ex, ex), rat_mul_v(ey, ey));
    lemma_wf_ops(mx, ex);
    lemma_wf_ops(my, ey);
    lemma_wf_ops(rat_mul_v(mx, ex), rat_mul_v(my, ey));
    if len2_v(s, e).num != 0 {
        lemma_scales_div(dot_v(s, e, m), dot_v(sw, ew, m), len2_v(s, e), len2_v(sw, ew));
        lemma_wf_div(dot_v(s, e, m), len2_v(s, e));
    }
    if cross_fits(sw, ew, m) {
        lemma_scales_fits(ex, exw);
        lemma_scales_fits(ey, eyw);
        lemma_scales_fits(mx, mxw);
        lemma_scales_fits(my, myw);
        lemma_scales_fits(rat_mul_v(ex, my), rat_mul_v(exw, myw));
        lemma_scales_fits(rat_mul_v(ey, mx), rat_mul_v(eyw, mxw));
        lemma_scales_fits(cross_v(s, e, m), cross_v(sw, ew, m));
    }
    if len2_fits(sw, ew) {
        lemma_scales_fits(ex, exw);
        lemma_scales_fits(ey, eyw);
        lemma_scales_fits(rat_mul_v(ex, ex), rat_mul_v(exw, exw));
        lemma_scales_fits(rat_mul_v(ey, ey), rat_mul_v(eyw, eyw));
        lemma_scales_fits(len2_v(s, e), len2_v(sw, ew));
    }
    if project_fits(sw, ew, m) {
        lemma_scales_fits(ex, exw);
        lemma_scales_fits(ey, eyw);
        lemma_scales_fits(mx, mxw);
        lemma_scales_fits(my, myw);
        lemma_scales_fits(rat_mul_v(ex, ex), rat_mul_v(exw, exw));
        lemma_scales_fits(rat_mul_v(ey, ey), rat_mul_v(eyw, eyw));
        lemma_scales_fits(len2_v(s, e), len2_v(sw, ew));
        lemma_scales_fits(rat_mul_v(mx, ex), rat_mul_v(mxw, exw));
        lemma_scales_fits(rat_mul_v(my, ey), rat_mul_v(myw, eyw));
        lemma_scales_fits(dot_v(s, e, m), dot_v(sw, ew, m));
        if len2_v(s, e).num != 0 {
            lemma_scales_fits(project_v(s, e, m), project_v(sw, ew, m));
        }
    }
}

/// Application is stable under reduction of the map: applying a reduced
/// map gives a point that stands (reduced) for the original image.
pub proof fn lemma_apply_scales(t: AffineV, tw: AffineV, p: PointV, pw: PointV)
    requires
        af_scales(t, tw),
        pt_scales(p, pw),
        af_wf_v(t),
        pt_wf_v(p),
    ensures
        pt_scales(apply_v(t, p), apply_v(tw, pw)),
        apply_fits(tw, pw) ==> apply_fits(t, p),
{
    lemma_scales_ops(t.a, tw.a, p.x, pw.x);
    lemma_scales_ops(t.b, tw.b, p.y, pw.y);
    lemma_scales_ops(t.c, tw.c, p.x, pw.x);
    lemma_scales_ops(t.d, tw.d, p.y, pw.y);
    lemma_scales_ops(rat_mul_v(t.a, p.x), rat_mul_v(tw.a, pw.x), rat_mul_v(t.b, p.y), rat_mul_v(tw.b, pw.y));
    lemma_scales_ops(rat_mul_v(t.c, p.x), rat_mul_v(tw.c, pw.x), rat_mul_v(t.d, p.y), rat_mul_v(tw.d, pw.y));
    lemma_scales_ops(
        rat_add_v(rat_mul_v(t.a, p.x), rat_mul_v(t.b, p.y)),
        rat_add_v(rat_mul_v(tw.a, pw.x), rat_mul_v(tw.b, pw.y)),
        t.tx,
        tw.tx,
    );
    lemma_scales_ops(
        rat_add_v(rat_mul_v(t.c, p.x), rat_mul_v(t.d, p.y)),
        rat_add_v(rat_mul_v(tw.c, pw.x), rat_mul_v(tw.d, pw.y)),
        t.ty,
        tw.ty,
    );
    lemma_wf_ops(t.a, p.x);
    lemma_wf_ops(t.b, p.y);
    lemma_wf_ops(t.c, p.x);
    lemma_wf_ops(t.d, p.y);
    lemma_wf_ops(rat_mul_v(t.a, p.x), rat_mul_v(t.b, p.y));
    lemma_wf_ops(rat_mul_v(t.c, p.x), rat_mul_v(t.d, p.y));
    lemma_wf_ops(rat_add_v(rat_mul_v(t.a, p.x), rat_mul_v(t.b, p.y)), t.tx);
    lemma_wf_ops(rat_add_v(rat_mul_v(t.c, p.x), rat_mul_v(t.d, p.y)), t.ty);
    if apply_fits(tw, pw) {
        lemma_scales_fits(rat_mul_v(t.a, p.x), rat_mul_v(tw.a, pw.x));
        lemma_scales_fits(rat_mul_v(t.b, p.y), rat_mul_v(tw.b, pw.y));
        lemma_scales_fits(rat_mul_v(t.c, p.x), rat_mul_v(tw.c, pw.x));
        lemma_scales_fits(rat_mul_v(t.d, p.y), rat_mul_v(tw.d, pw.y));
        lemma_scales_fits(
            rat_add_v(rat_mul_v(t.a, p.x), rat_mul_v(t.b, p.y)),
            rat_add_v(rat_mul_v(tw.a, pw.x), rat_mul_v(tw.b, pw.y)),
        );
        lemma_scales_fits(
            rat_add_v(rat_mul_v(t.c, p.x), rat_mul_v(t.d, p.y)),
            rat_add_v(rat_mul_v(tw.c, pw.x), rat_mul_v(tw.d, pw.y)),
        );
        lemma_scales_fits(apply_v(t, p).x, apply_v(tw, pw).x);
        lemma_scales_fits(apply_v(t, p).y, apply_v(tw, pw).y);
    }
}

/// Applying a well-formed map to a well-formed point gives a well-formed
/// point.
pub proof fn lemma_apply_wf(t: AffineV, p: PointV)
    requires
        af_wf_v(t),
        pt_wf_v(p),
    ensures
        pt_wf_v(apply_v(t, p)),
{
    lemma_wf_ops(t.a, p.x);
    lemma_wf_ops(t.b, p.y);
    lemma_wf_ops(t.c, p.x);
    lemma_wf_ops(t.d, p.y);
    lemma_wf_ops(rat_mul_v(t.a, p.x), rat_mul_v(t.b, p.y));
    lemma_wf_ops(rat_mul_v(t.c, p.x), rat_mul_v(t.d, p.y));
    lemma_wf_ops(rat_add_v(rat_mul_v(t.a, p.x), rat_mul_v(t.b, p.y)), t.tx);
    lemma_wf_ops(rat_add_v(rat_mul_v(t.c, p.x), rat_mul_v(t.d, p.y)), t.ty);
}

/// The line forms of well-formed points are well-formed.
pub proof fn lemma_line_wf(s: PointV, e: PointV, m: PointV)
    requires
        pt_wf_v(s),
        pt_wf_v(e),
        pt_wf_v(m),
    ensures
        rat_wf_v(cross_v(s, e, m)),
        rat_wf_v(len2_v(s, e)),
        rat_wf_v(dot_v(s, e, m)),
{
    lemma_wf_ops(e.x, s.x);
    lemma_wf_ops(e.y, s.y);
    lemma_wf_ops(m.x, s.x);
    lemma_wf_ops(m.y, s.y);
    let ex = rat_sub_v(e.x, s.x);
    let ey = rat_sub_v(e.y, s.y);
    let mx = rat_sub_v(m.x, s.x);
    let my = rat_sub_v(m.y, s.y);
    lemma_wf_ops(ex, my);
    lemma_wf_ops(ey, mx);
    lemma_wf_ops(rat_mul_v(ex, my), rat_mul_v(ey, mx));
    lemma_wf_ops(ex, ex);
    lemma_wf_ops(ey, ey);
    lemma_wf_ops(rat_mul_v(ex, ex), rat_mul_v(ey, ey));
    lemma_wf_ops(mx, ex);
    lemma_wf_ops(my, ey);
    lemma_wf_ops(rat_mul_v(mx, ex), rat_mul_v(my, ey));
}

/// Inversion is stable under reduction of the map: the inverse of a reduced
/// map stands (reduced) for the inverse of the original, singularity is
/// preserved, and the inverse of the reduced map is well-formed.
pub proof fn lemma_inverse_scales(t: AffineV, tw: AffineV)
    requires
        af_scales(t, tw),
        af_wf_v(t),
    ensures
        (det_v(t).num == 0) == (det_v(tw).num == 0),
        det_v(t).num != 0 ==> af_scales(inverse_v(t), inverse_v(tw)),
        det_v(t).num != 0 ==> af_wf_v(inverse_v(t)),
        det_v(t).num != 0 && inverse_fits(tw) ==> inverse_fits(t),
{
    lemma_scales_ops(t.a, tw.a, t.d, tw.d);
    lemma_scales_ops(t.b, tw.b, t.c, tw.c);
    lemma_scales_ops(
        rat_mul_v(t.a, t.d),
        rat_mul_v(tw.a, tw.d),
        rat_mul_v(t.b, t.c),
        rat_mul_v(tw.b, tw.c),
    );
    lemma_scales_zero(det_v(t), det_v(tw));
    lemma_wf_ops(t.a, t.d);
    lemma_wf_ops(t.b, t.c);
    lemma_wf_ops(rat_mul_v(t.a, t.d), rat_mul_v(t.b, t.c));
    if det_v(t).num != 0 {
        let dt = det_v(t);
        let dw = det_v(tw);
        let iv = inverse_v(t);
        let iw = inverse_v(tw);
        lemma_scales_ops(t.b, tw.b, t.b, tw.b);
        lemma_scales_ops(t.c, tw.c, t.c, tw.c);
        lemma_scales_div(t.d, tw.d, dt, dw);
        lemma_scales_div(rat_neg_v(t.b), rat_neg_v(tw.b), dt, dw);
        lemma_scales_div(rat_neg_v(t.c), rat_neg_v(tw.c), dt, dw);
        lemma_scales_div(t.a, tw.a, dt, dw);
        lemma_wf_ops(t.b, t.b);
        lemma_wf_ops(t.c, t.c);
        lemma_wf_div(t.d, dt);
        lemma_wf_div(rat_neg_v(t.b), dt);
        lemma_wf_div(rat_neg_v(t.c), dt);
        lemma_wf_div(t.a, dt);
        lemma_scales_ops(iv.a, iw.a, t.tx, tw.tx);
        lemma_scales_ops(iv.b, iw.b, t.ty, tw.ty);
        lemma_scales_ops(
            rat_mul_v(iv.a, t.tx),
            rat_mul_v(iw.a, tw.tx),
            rat_mul_v(iv.b, t.ty),
            rat_mul_v(iw.b, tw.ty),
        );
        lemma_scales_ops(
            rat_add_v(rat_mul_v(iv.a, t.tx), rat_mul_v(iv.b, t.ty)),
            rat_add_v(rat_mul_v(iw.a, tw.tx), rat_mul_v(iw.b, tw.ty)),
            rat_add_v(rat_mul_v(iv.a, t.tx), rat_mul_v(iv.b, t.ty)),
            rat_add_v(rat_mul_v(iw.a, tw.tx), rat_mul_v(iw.b, tw.ty)),
        );
        lemma_scales_ops(iv.c, iw.c, t.tx, tw.tx);
        lemma_scales_ops(iv.d, iw.d, t.ty, tw.ty);
        lemma_scales_ops(
            rat_mul_v(iv.c, t.tx),
            rat_mul_v(iw.c, tw.tx),
            rat_mul_v(iv.d, t.ty),
            rat_mul_v(iw.d, tw.ty),
        );
        lemma_scales_ops(
            rat_add_v(rat_mul_v(iv.c, t.tx), rat_mul_v(iv.d, t.ty)),
            rat_add_v(rat_mul_v(iw.c, tw.tx), rat_mul_v(iw.d, tw.ty)),
            rat_add_v(rat_mul_v(iv.c, t.tx), rat_mul_v(iv.d, t.ty)),
            rat_add_v(rat_mul_v(iw.c, tw.tx), rat_mul_v(iw.d, tw.ty)),
        );
        lemma_wf_ops(iv.a, t.tx);
        lemma_wf_ops(iv.b, t.ty);
        lemma_wf_ops(rat_mul_v(iv.a, t.tx), rat_mul_v(iv.b, t.ty));
        lemma_wf_ops(iv.c, t.tx);
        lemma_wf_ops(iv.d, t.ty);
        lemma_wf_ops(rat_mul_v(iv.c, t.tx), rat_mul_v(iv.d, t.ty));
        if inverse_fits(tw) {
            lemma_scales_fits(rat_mul_v(t.a, t.d), rat_mul_v(tw.a, tw.d));
            lemma_scales_fits(rat_mul_v(t.b, t.c), rat_mul_v(tw.b, tw.c));
            lemma_scales_fits(dt, dw);
            lemma_scales_fits(iv.a, iw.a);
            lemma_scales_fits(iv.b, iw.b);
            lemma_scales_fits(iv.c, iw.c);
            lemma_scales_fits(iv.d, iw.d);
            lemma_scales_fits(rat_mul_v(iv.a, t.tx), rat_mul_v(iw.a, tw.tx));
            lemma_scales_fits(rat_mul_v(iv.b, t.ty), rat_mul_v(iw.b, tw.ty));
            lemma_scales_fits(
                rat_add_v(rat_mul_v(iv.a, t.tx), rat_mul_v(iv.b, t.ty)),
                rat_add_v(rat_mul_v(iw.a, tw.tx), rat_mul_v(iw.b, tw.ty)),
            );
            lemma_scales_fits(rat_mul_v(iv.c, t.tx), rat_mul_v(iw.c, tw.tx));
            lemma_scales_fits(rat_mul_v(iv.d, t.ty), rat_mul_v(iw.d, tw.ty));
            lemma_scales_fits(
                rat_add_v(rat_mul_v(iv.c, t.tx), rat_mul_v(iv.d, t.ty)),
                rat_add_v(rat_mul_v(iw.c, tw.tx), rat_mul_v(iw.d, tw.ty)),
            );
        }
    }
}

/// Interpolation is stable under reduction of the segment's endpoints.
pub proof fn lemma_pt_lerp_scales(s: PointV, sw: PointV, e: PointV, ew: PointV, t: RatV)
    requires
        pt_scales(s, sw),
        pt_scales(e, ew),
        pt_wf_v(s),
        pt_wf_v(e),
        rat_wf_v(t),
    ensures
        pt_scales(pt_lerp_v(s, e, t), pt_lerp_v(sw, ew, t)),
        pt_lerp_fits(sw, ew, t) ==> pt_lerp_fits(s, e, t),
{
    lemma_scales_refl(t);
    lemma_scales_ops(e.x, ew.x, s.x, sw.x);
    lemma_scales_ops(e.y, ew.y, s.y, sw.y);
    lemma_scales_ops(rat_sub_v(e.x, s.x), rat_sub_v(ew.x, sw.x), t, t);
    lemma_scales_ops(rat_sub_v(e.y, s.y), rat_sub_v(ew.y, sw.y), t, t);
    lemma_scales_ops(
        s.x,
        sw.x,
        rat_mul_v(rat_sub_v(e.x, s.x), t),
        rat_mul_v(rat_sub_v(ew.x, sw.x), t),
    );
    lemma_scales_ops(
        s.y,
        sw.y,
        rat_mul_v(rat_sub_v(e.y, s.y), t),
        rat_mul_v(rat_sub_v(ew.y, sw.y), t),
    );
    lemma_wf_ops(e.x, s.x);
    lemma_wf_ops(e.y, s.y);
    lemma_wf_ops(rat_sub_v(e.x, s.x), t);
    lemma_wf_ops(rat_sub_v(e.y, s.y), t);
    lemma_wf_ops(s.x, rat_mul_v(rat_sub_v(e.x, s.x), t));
    lemma_wf_ops(s.y, rat_mul_v(rat_sub_v(e.y, s.y), t));
    if pt_lerp_fits(sw, ew, t) {
        lemma_scales_fits(rat_sub_v(e.x, s.x), rat_sub_v(ew.x, sw.x));
        lemma_scales_fits(rat_sub_v(e.y, s.y), rat_sub_v(ew.y, sw.y));
        lemma_scales_fits(
            rat_mul_v(rat_sub_v(e.x, s.x), t),
            rat_mul_v(rat_sub_v(ew.x, sw.x), t),
        );
        lemma_scales_fits(
            rat_mul_v(rat_sub_v(e.y, s.y), t),
            rat_mul_v(rat_sub_v(ew.y, sw.y), t),
        );
        lemma_scales_fits(lerp_v(s.x, e.x, t), lerp_v(sw.x, ew.x, t));
        lemma_scales_fits(lerp_v(s.y, e.y, t), lerp_v(sw.y, ew.y, t));
    }
}

/// The squared distance is stable under reduction of the first point.
pub proof fn lemma_dist2_scales(p: PointV, pw: PointV, m: PointV)
    requires
        pt_scales(p, pw),
        pt_wf_v(p),
        pt_wf_v(m),
    ensures
        rat_scales(dist2_v(p, m), dist2_v(pw, m)),
        dist2_fits(pw, m) ==> dist2_fits(p, m),
{
    lemma_scales_refl(m.x);
    lemma_scales_refl(m.y);
    lemma_scales_ops(p.x, pw.x, m.x, m.x);
    lemma_scales_ops(p.y, pw.y, m.y, m.y);
    let dx = rat_sub_v(p.x, m.x);
    let dy = rat_sub_v(p.y, m.y);
    let dxw = rat_sub_v(pw.x, m.x);
    let dyw = rat_sub_v(pw.y, m.y);
    lemma_scales_ops(dx, dxw, dx, dxw);
    lemma_scales_ops(dy, dyw, dy, dyw);
    lemma_scales_ops(rat_mul_v(dx, dx), rat_mul_v(dxw, dxw), rat_mul_v(dy, dy), rat_mul_v(dyw, dyw));
    lemma_wf_ops(p.x, m.x);
    lemma_wf_ops(p.y, m.y);
    lemma_wf_ops(dx, dx);
    lemma_wf_ops(dy, dy);
    lemma_wf_ops(rat_mul_v(dx, dx), rat_mul_v(dy, dy));
    if dist2_fits(pw, m) {
        lemma_scales_fits(dx, dxw);
        lemma_scales_fits(dy, dyw);
        lemma_scales_fits(rat_mul_v(dx, dx), rat_mul_v(dxw, dxw));
        lemma_scales_fits(rat_mul_v(dy, dy), rat_mul_v(dyw, dyw));
        lemma_scales_fits(dist2_v(p, m), dist2_v(pw, m));
    }
}

/// Shift only the translation of a map, as auto-panning does mid-drag.
pub fn shift_translation(t: &Affine, s: &Point) -> (r: Option<Affine>)
    requires
        t.wf(),
        s.wf(),
    ensures
        match r {
            Some(u) => {
                &&& u.wf()
                &&& u@.a == t@.a && u@.b == t@.b && u@.c == t@.c && u@.d == t@.d
                &&& rat_scales(u@.tx, rat_add_v(t@.tx, s@.x))
                &&& rat_scales(u@.ty, rat_add_v(t@.ty, s@.y))
            },
            None => !rat_fits(rat_add_v(t@.tx, s@.x)) || !rat_fits(rat_add_v(t@.ty, s@.y)),
        },
{
    let ghost tv = t@;
    let ghost sv = s@;
    proof {
        lemma_scales_refl(tv.tx);
        lemma_scales_refl(tv.ty);
        lemma_scales_refl(sv.x);
        lemma_scales_refl(sv.y);
    }
    let ntx = match add_step(&t.tx, &s.x, Ghost(tv.tx), Ghost(sv.x)) {
        Some(v) => v,
        None => { return None },
    };
    let nty = match add_step(&t.ty, &s.y, Ghost(tv.ty), Ghost(sv.y)) {
        Some(v) => v,
        None => { return None },
    };
    Some(Affine { a: t.a, b: t.b, c: t.c, d: t.d, tx: ntx, ty: nty })
}

} // verus!
