//! Exact rational numbers over 64-bit integers.
//!
//! Coordinates and stop positions are fractions `num / den` with `den >= 1`.
//! The mathematical model of a value is the pair [`RatV`] of unbounded
//! integers; two pairs denote the same rational exactly when they are
//! cross-multiplication equal ([`rat_eqv`]).
//!
//! Executable operations compute the exact numerator and denominator in
//! 128-bit arithmetic, divide out a common factor, and fail (return `None`)
//! only when even then the result does not fit the 64-bit carrier. Every
//! operation is guaranteed to succeed whenever the unreduced exact result
//! already fits, so failure never hides a representable value.

use vstd::arithmetic::div_mod::lemma_fundamental_div_mod;
use vstd::arithmetic::mul::{
    lemma_mul_is_distributive_add_other_way, lemma_mul_is_distributive_sub_other_way,
};
use vstd::prelude::*;

verus! {

/// Mathematical value of a rational: an unbounded numerator / denominator pair.
pub struct RatV {
    pub num: int,
    pub den: int,
}

/// A well-formed mathematical rational has a positive denominator.
pub open spec fn rat_wf_v(a: RatV) -> bool {
    a.den >= 1
}

/// `a` and `b` denote the same rational number.
pub open spec fn rat_eqv(a: RatV, b: RatV) -> bool {
    a.num * b.den == b.num * a.den
}

pub open spec fn rat_zero_v() -> RatV {
    RatV { num: 0, den: 1 }
}

pub open spec fn rat_one_v() -> RatV {
    RatV { num: 1, den: 1 }
}

pub open spec fn rat_int_v(n: int) -> RatV {
    RatV { num: n, den: 1 }
}

pub open spec fn rat_add_v(a: RatV, b: RatV) -> RatV {
    RatV { num: a.num * b.den + b.num * a.den, den: a.den * b.den }
}

pub open spec fn rat_sub_v(a: RatV, b: RatV) -> RatV {
    RatV { num: a.num * b.den - b.num * a.den, den: a.den * b.den }
}

pub open spec fn rat_neg_v(a: RatV) -> RatV {
    RatV { num: -a.num, den: a.den }
}

pub open spec fn rat_mul_v(a: RatV, b: RatV) -> RatV {
    RatV { num: a.num * b.num, den: a.den * b.den }
}

/// Exact division; the sign of the divisor moves into the numerator so that
/// the denominator stays positive. Meaningful only when `b.num != 0`.
pub open spec fn rat_div_v(a: RatV, b: RatV) -> RatV {
    if b.num >= 0 {
        RatV { num: a.num * b.den, den: a.den * b.num }
    } else {
        RatV { num: -(a.num * b.den), den: -(a.den * b.num) }
    }
}

pub open spec fn rat_le_v(a: RatV, b: RatV) -> bool {
    a.num * b.den <= b.num * a.den
}

pub open spec fn rat_lt_v(a: RatV, b: RatV) -> bool {
    a.num * b.den < b.num * a.den
}

/// Clamp into the unit interval, exactly.
pub open spec fn rat_clamp01_v(a: RatV) -> RatV {
    if rat_lt_v(a, rat_zero_v()) {
        rat_zero_v()
    } else if rat_lt_v(rat_one_v(), a) {
        rat_one_v()
    } else {
        a
    }
}

/// The largest magnitude a numerator or denominator may have in the carrier.
pub open spec fn carrier_max() -> int {
    0x7fff_ffff_ffff_ffff
}

/// The pair can be stored without reduction in the 64-bit carrier.
pub open spec fn rat_fits(a: RatV) -> bool {
    &&& -carrier_max() <= a.num <= carrier_max()
    &&& 1 <= a.den <= carrier_max()
}

/// `v` is `w` with a common factor `g` divided out of both components.
pub open spec fn rat_scales_by(v: RatV, w: RatV, g: int) -> bool {
    &&& g >= 1
    &&& v.num * g == w.num
    &&& v.den * g == w.den
}

/// `v` denotes the same rational as `w` and is componentwise no larger:
/// the relation every executable operation establishes between its stored
/// result and the unreduced exact result.
pub open spec fn rat_scales(v: RatV, w: RatV) -> bool {
    exists|g: int| rat_scales_by(v, w, g)
}

/// An executable rational. Operations keep `den >= 1` and `num > i64::MIN`
/// so that the absolute value of the numerator always fits.
#[derive(Clone, Copy, Debug)]
pub struct Rat {
    pub num: i64,
    pub den: i64,
}

impl View for Rat {
    type V = RatV;

    open spec fn view(&self) -> RatV {
        RatV { num: self.num as int, den: self.den as int }
    }
}

impl Rat {
    pub open spec fn wf(&self) -> bool {
        rat_fits(self@)
    }
}

/// Scaling is reflexive: every pair stands for itself with factor one.
pub proof fn lemma_scales_refl(v: RatV)
    ensures
        rat_scales(v, v),
{
    assert(rat_scales_by(v, v, 1));
}

/// Scaling composes: dividing out `g1` and then `g2` divides out `g1 * g2`.
pub proof fn lemma_scales_trans(a: RatV, b: RatV, c: RatV)
    requires
        rat_scales(a, b),
        rat_scales(b, c),
    ensures
        rat_scales(a, c),
{
    let g1 = choose|g: int| rat_scales_by(a, b, g);
    let g2 = choose|g: int| rat_scales_by(b, c, g);
    assert(a.num * (g1 * g2) == c.num && a.den * (g1 * g2) == c.den && g1 * g2 >= 1)
        by (nonlinear_arith)
        requires
            rat_scales_by(a, b, g1),
            rat_scales_by(b, c, g2),
    ;
    assert(rat_scales_by(a, c, g1 * g2));
}

/// Sums and differences of equal rationals are equal.
pub proof fn lemma_add_congr(a: RatV, a2: RatV, b: RatV, b2: RatV)
    requires
        rat_eqv(a, a2),
        rat_eqv(b, b2),
        rat_wf_v(a),
        rat_wf_v(a2),
        rat_wf_v(b),
        rat_wf_v(b2),
    ensures
        rat_eqv(rat_add_v(a, b), rat_add_v(a2, b2)),
        rat_eqv(rat_sub_v(a, b), rat_sub_v(a2, b2)),
{
    let an = a.num;
    let ad = a.den;
    let bn = b.num;
    let bd = b.den;
    let a2n = a2.num;
    let a2d = a2.den;
    let b2n = b2.num;
    let b2d = b2.den;
    lemma_mul_is_distributive_add_other_way(a2d * b2d, an * bd, bn * ad);
    lemma_mul_is_distributive_add_other_way(ad * bd, a2n * b2d, b2n * a2d);
    lemma_mul_is_distributive_sub_other_way(a2d * b2d, an * bd, bn * ad);
    lemma_mul_is_distributive_sub_other_way(ad * bd, a2n * b2d, b2n * a2d);
    assert((an * bd) * (a2d * b2d) == (an * a2d) * (bd * b2d)) by (nonlinear_arith);
    assert((a2n * ad) * (bd * b2d) == (a2n * b2d) * (ad * bd)) by (nonlinear_arith);
    assert((bn * ad) * (a2d * b2d) == (bn * b2d) * (ad * a2d)) by (nonlinear_arith);
    assert((b2n * bd) * (ad * a2d) == (b2n * a2d) * (ad * bd)) by (nonlinear_arith);
    assert(rat_eqv(rat_add_v(a, b), rat_add_v(a2, b2)));
    assert(rat_eqv(rat_sub_v(a, b), rat_sub_v(a2, b2)));
}

/// Quotients of equal rationals by equal nonzero rationals are equal.
pub proof fn lemma_div_congr(a: RatV, a2: RatV, b: RatV, b2: RatV)
    requires
        rat_eqv(a, a2),
        rat_eqv(b, b2),
        b.num != 0,
        b2.num != 0,
        rat_wf_v(a),
        rat_wf_v(a2),
        rat_wf_v(b),
        rat_wf_v(b2),
    ensures
        rat_eqv(rat_div_v(a, b), rat_div_v(a2, b2)),
{
    assert((b.num > 0) == (b2.num > 0)) by (nonlinear_arith)
        requires
            b.num * b2.den == b2.num * b.den,
            b.den >= 1,
            b2.den >= 1,
            b.num != 0,
            b2.num != 0,
    ;
    let an = a.num;
    let ad = a.den;
    let bn = b.num;
    let bd = b.den;
    let a2n = a2.num;
    let a2d = a2.den;
    let b2n = b2.num;
    let b2d = b2.den;
    assert((an * bd) * (a2d * b2n) == (an * a2d) * (bd * b2n)) by (nonlinear_arith);
    assert((a2n * ad) * (bd * b2n) == (a2n * ad) * (b2n * bd)) by (nonlinear_arith);
    assert((a2n * ad) * (bn * b2d) == (a2n * b2d) * (ad * bn)) by (nonlinear_arith);
    assert((an * bd) * (a2d * b2n) == (a2n * b2d) * (ad * bn));
    if b.num > 0 {
        assert(rat_eqv(rat_div_v(a, b), rat_div_v(a2, b2)));
    } else {
        assert((-(an * bd)) * (-(a2d * b2n)) == (an * bd) * (a2d * b2n)) by (nonlinear_arith);
        assert((-(a2n * b2d)) * (-(ad * bn)) == (a2n * b2d) * (ad * bn)) by (nonlinear_arith);
        assert(rat_eqv(rat_div_v(a, b), rat_div_v(a2, b2)));
    }
}

/// Reduction keeps a pair inside any componentwise bound it already met.
pub proof fn lemma_scales_fits(v: RatV, w: RatV)
    requires
        rat_scales(v, w),
        rat_fits(w),
        rat_wf_v(v),
    ensures
        rat_fits(v),
{
    let g = choose|g: int| rat_scales_by(v, w, g);
    assert(-carrier_max() <= v.num <= carrier_max() && v.den <= carrier_max())
        by (nonlinear_arith)
        requires
            rat_scales_by(v, w, g),
            rat_fits(w),
            v.den >= 1,
    ;
}

/// The order of two rationals can be read off any pairs that reduce to them.
pub proof fn lemma_scales_le(a: RatV, aw: RatV, b: RatV, bw: RatV)
    requires
        rat_scales(a, aw),
        rat_scales(b, bw),
    ensures
        rat_le_v(a, b) == rat_le_v(aw, bw),
        rat_lt_v(a, b) == rat_lt_v(aw, bw),
        rat_eqv(a, b) == rat_eqv(aw, bw),
{
    let ga = choose|g: int| rat_scales_by(a, aw, g);
    let gb = choose|g: int| rat_scales_by(b, bw, g);
    assert((rat_le_v(a, b) == rat_le_v(aw, bw)) && (rat_lt_v(a, b) == rat_lt_v(aw, bw)) && (
    rat_eqv(a, b) == rat_eqv(aw, bw))) by (nonlinear_arith)
        requires
            rat_scales_by(a, aw, ga),
            rat_scales_by(b, bw, gb),
    ;
}

/// Sums, differences and products of well-formed rationals are well-formed.
pub proof fn lemma_wf_ops(a: RatV, b: RatV)
    requires
        rat_wf_v(a),
        rat_wf_v(b),
    ensures
        rat_wf_v(rat_add_v(a, b)),
        rat_wf_v(rat_sub_v(a, b)),
        rat_wf_v(rat_mul_v(a, b)),
        rat_wf_v(rat_neg_v(a)),
{
    assert(a.den * b.den >= 1) by (nonlinear_arith)
        requires
            a.den >= 1,
            b.den >= 1,
    ;
}

/// A quotient by a nonzero rational is well-formed.
pub proof fn lemma_wf_div(a: RatV, b: RatV)
    requires
        rat_wf_v(a),
        rat_wf_v(b),
        b.num != 0,
    ensures
        rat_wf_v(rat_div_v(a, b)),
{
    if b.num >= 0 {
        assert(a.den * b.num >= 1) by (nonlinear_arith)
            requires
                a.den >= 1,
                b.num >= 1,
        ;
    } else {
        assert(-(a.den * b.num) >= 1) by (nonlinear_arith)
            requires
                a.den >= 1,
                b.num <= -1,
        ;
    }
}

/// Reduction never makes a numerator zero or nonzero.
pub proof fn lemma_scales_zero(v: RatV, w: RatV)
    requires
        rat_scales(v, w),
    ensures
        (v.num == 0) == (w.num == 0),
{
    let g = choose|g: int| rat_scales_by(v, w, g);
    assert((v.num == 0) == (v.num * g == 0)) by (nonlinear_arith)
        requires
            g >= 1,
    ;
}

/// Reduced operands give a reduced sum, difference and product.
pub proof fn lemma_scales_ops(a: RatV, aw: RatV, b: RatV, bw: RatV)
    requires
        rat_scales(a, aw),
        rat_scales(b, bw),
    ensures
        rat_scales(rat_add_v(a, b), rat_add_v(aw, bw)),
        rat_scales(rat_sub_v(a, b), rat_sub_v(aw, bw)),
        rat_scales(rat_mul_v(a, b), rat_mul_v(aw, bw)),
        rat_scales(rat_neg_v(a), rat_neg_v(aw)),
{
    let ga = choose|g: int| rat_scales_by(a, aw, g);
    let gb = choose|g: int| rat_scales_by(b, bw, g);
    lemma_mul_is_distributive_add_other_way(ga * gb, a.num * b.den, b.num * a.den);
    lemma_mul_is_distributive_sub_other_way(ga * gb, a.num * b.den, b.num * a.den);
    assert((a.num * b.den) * (ga * gb) == (a.num * ga) * (b.den * gb)) by (nonlinear_arith);
    assert((b.num * a.den) * (ga * gb) == (b.num * gb) * (a.den * ga)) by (nonlinear_arith);
    assert((a.den * b.den) * (ga * gb) == (a.den * ga) * (b.den * gb)) by (nonlinear_arith);
    assert((a.num * b.num) * (ga * gb) == (a.num * ga) * (b.num * gb)) by (nonlinear_arith);
    assert((-a.num) * ga == -(a.num * ga)) by (nonlinear_arith);
    assert(ga * gb >= 1) by (nonlinear_arith)
        requires
            ga >= 1,
            gb >= 1,
    ;
    assert(rat_scales_by(rat_add_v(a, b), rat_add_v(aw, bw), ga * gb));
    assert(rat_scales_by(rat_sub_v(a, b), rat_sub_v(aw, bw), ga * gb));
    assert(rat_scales_by(rat_mul_v(a, b), rat_mul_v(aw, bw), ga * gb));
    assert(rat_scales_by(rat_neg_v(a), rat_neg_v(aw), ga));
}

/// Reduced operands give a reduced quotient.
pub proof fn lemma_scales_div(a: RatV, aw: RatV, b: RatV, bw: RatV)
    requires
        rat_scales(a, aw),
        rat_scales(b, bw),
        b.num != 0,
    ensures
        bw.num != 0,
        rat_scales(rat_div_v(a, b), rat_div_v(aw, bw)),
{
    let ga = choose|g: int| rat_scales_by(a, aw, g);
    let gb = choose|g: int| rat_scales_by(b, bw, g);
    assert((b.num > 0) == (b.num * gb > 0) && (b.num == 0) == (b.num * gb == 0))
        by (nonlinear_arith)
        requires
            gb >= 1,
    ;
    assert((a.num * b.den) * (ga * gb) == (a.num * ga) * (b.den * gb)) by (nonlinear_arith);
    assert((a.den * b.num) * (ga * gb) == (a.den * ga) * (b.num * gb)) by (nonlinear_arith);
    assert((-(a.num * b.den)) * (ga * gb) == -((a.num * b.den) * (ga * gb))) by (nonlinear_arith);
    assert((-(a.den * b.num)) * (ga * gb) == -((a.den * b.num) * (ga * gb))) by (nonlinear_arith);
    assert(ga * gb >= 1) by (nonlinear_arith)
        requires
            ga >= 1,
            gb >= 1,
    ;
    assert(rat_scales_by(rat_div_v(a, b), rat_div_v(aw, bw), ga * gb));
}

/// Denoting the same rational is transitive (through a well-formed middle).
pub proof fn lemma_eqv_trans(a: RatV, b: RatV, c: RatV)
    requires
        rat_eqv(a, b),
        rat_eqv(b, c),
        rat_wf_v(b),
    ensures
        rat_eqv(a, c),
{
    assert(a.num * c.den == c.num * a.den) by (nonlinear_arith)
        requires
            a.num * b.den == b.num * a.den,
            b.num * c.den == c.num * b.den,
            b.den >= 1,
    ;
}

/// One monomial rearrangement shared by the quotient-sum law below.
proof fn lemma_mul_monomial(a: int, b: int, c: int, d: int, e: int)
    ensures
        ((a * b) * (c * d)) * ((e * c) * d) == ((a * c) * b) * ((e * d) * (c * d)),
{
    broadcast use vstd::arithmetic::mul::group_mul_properties;

}

/// Quotients with a common divisor can be summed under one quotient.
pub proof fn lemma_div_add(x: RatV, y: RatV, q: RatV)
    requires
        q.num != 0,
        rat_wf_v(x),
        rat_wf_v(y),
        rat_wf_v(q),
    ensures
        rat_eqv(rat_add_v(rat_div_v(x, q), rat_div_v(y, q)), rat_div_v(rat_add_v(x, y), q)),
{
    let xn = x.num;
    let xd = x.den;
    let yn = y.num;
    let yd = y.den;
    let qn = q.num;
    let qd = q.den;
    let t1 = (xn * qd) * (yd * qn);
    let t2 = (yn * qd) * (xd * qn);
    let ld = (xd * qn) * (yd * qn);
    let rn = (xn * yd + yn * xd) * qd;
    let rd = (xd * yd) * qn;
    lemma_mul_is_distributive_add_other_way(rd, t1, t2);
    lemma_mul_is_distributive_add_other_way(qd, xn * yd, yn * xd);
    lemma_mul_is_distributive_add_other_way(ld, (xn * yd) * qd, (yn * xd) * qd);
    lemma_mul_monomial(xn, qd, yd, qn, xd);
    lemma_mul_monomial(yn, qd, xd, qn, yd);
    assert(((yn * qd) * (xd * qn)) * ((yd * xd) * qn) == ((yn * xd) * qd) * ((yd * qn) * (xd * qn)));
    assert((yd * xd) * qn == (xd * yd) * qn) by (nonlinear_arith);
    assert((yd * qn) * (xd * qn) == (xd * qn) * (yd * qn)) by (nonlinear_arith);
    assert((t1 + t2) * rd == rn * ld);
    if q.num >= 0 {
        assert(rat_eqv(rat_add_v(rat_div_v(x, q), rat_div_v(y, q)), rat_div_v(rat_add_v(x, y), q)));
    } else {
        assert((-(xn * qd)) * (-(yd * qn)) == (xn * qd) * (yd * qn)) by (nonlinear_arith);
        assert((-(yn * qd)) * (-(xd * qn)) == (yn * qd) * (xd * qn)) by (nonlinear_arith);
        assert((-(xd * qn)) * (-(yd * qn)) == (xd * qn) * (yd * qn)) by (nonlinear_arith);
        assert((t1 + t2) * (-((xd * yd) * qn)) == -((t1 + t2) * ((xd * yd) * qn)))
            by (nonlinear_arith);
        assert((-((xn * yd + yn * xd) * qd)) * ((xd * qn) * (yd * qn)) == -(((xn * yd + yn * xd)
            * qd) * ((xd * qn) * (yd * qn)))) by (nonlinear_arith);
        assert(rat_eqv(rat_add_v(rat_div_v(x, q), rat_div_v(y, q)), rat_div_v(rat_add_v(x, y), q)));
    }
}

/// Quotients with a common divisor can be subtracted under one quotient.
pub proof fn lemma_div_sub(x: RatV, y: RatV, q: RatV)
    requires
        q.num != 0,
        rat_wf_v(x),
        rat_wf_v(y),
        rat_wf_v(q),
    ensures
        rat_eqv(rat_sub_v(rat_div_v(x, q), rat_div_v(y, q)), rat_div_v(rat_sub_v(x, y), q)),
{
    let xn = x.num;
    let xd = x.den;
    let yn = y.num;
    let yd = y.den;
    let qn = q.num;
    let qd = q.den;
    let t1 = (xn * qd) * (yd * qn);
    let t2 = (yn * qd) * (xd * qn);
    let ld = (xd * qn) * (yd * qn);
    let rn = (xn * yd - yn * xd) * qd;
    let rd = (xd * yd) * qn;
    lemma_mul_is_distributive_sub_other_way(rd, t1, t2);
    lemma_mul_is_distributive_sub_other_way(qd, xn * yd, yn * xd);
    lemma_mul_is_distributive_sub_other_way(ld, (xn * yd) * qd, (yn * xd) * qd);
    lemma_mul_monomial(xn, qd, yd, qn, xd);
    lemma_mul_monomial(yn, qd, xd, qn, yd);
    assert(((yn * qd) * (xd * qn)) * ((yd * xd) * qn) == ((yn * xd) * qd) * ((yd * qn) * (xd * qn)));
    assert((yd * xd) * qn == (xd * yd) * qn) by (nonlinear_arith);
    assert((yd * qn) * (xd * qn) == (xd * qn) * (yd * qn)) by (nonlinear_arith);
    assert((t1 - t2) * rd == rn * ld);
    if q.num >= 0 {
        assert(rat_eqv(rat_sub_v(rat_div_v(x, q), rat_div_v(y, q)), rat_div_v(rat_sub_v(x, y), q)));
    } else {
        assert((-(xn * qd)) * (-(yd * qn)) == (xn * qd) * (yd * qn)) by (nonlinear_arith);
        assert((-(yn * qd)) * (-(xd * qn)) == (yn * qd) * (xd * qn)) by (nonlinear_arith);
        assert((-(xd * qn)) * (-(yd * qn)) == (xd * qn) * (yd * qn)) by (nonlinear_arith);
        assert((t1 - t2) * (-((xd * yd) * qn)) == -((t1 - t2) * ((xd * yd) * qn)))
            by (nonlinear_arith);
        assert((-((xn * yd - yn * xd) * qd)) * ((xd * qn) * (yd * qn)) == -(((xn * yd - yn * xd)
            * qd) * ((xd * qn) * (yd * qn)))) by (nonlinear_arith);
        assert(rat_eqv(rat_sub_v(rat_div_v(x, q), rat_div_v(y, q)), rat_div_v(rat_sub_v(x, y), q)));
    }
}

/// Subtracting a common offset leaves differences unchanged.
pub proof fn lemma_sub_sub_cancel(p: RatV, q: RatV, m: RatV)
    requires
        rat_wf_v(p),
        rat_wf_v(q),
        rat_wf_v(m),
    ensures
        rat_eqv(rat_sub_v(rat_sub_v(q, m), rat_sub_v(p, m)), rat_sub_v(q, p)),
{
    broadcast use vstd::arithmetic::mul::group_mul_properties;

}

/// Ordering is transitive (through a well-formed middle), also mixed with
/// strict ordering.
pub proof fn lemma_le_trans(a: RatV, b: RatV, c: RatV)
    requires
        rat_wf_v(a),
        rat_wf_v(b),
        rat_wf_v(c),
    ensures
        rat_le_v(a, b) && rat_le_v(b, c) ==> rat_le_v(a, c),
        rat_lt_v(a, b) && rat_le_v(b, c) ==> rat_lt_v(a, c),
        rat_le_v(a, b) && rat_lt_v(b, c) ==> rat_lt_v(a, c),
{
    assert((rat_le_v(a, b) && rat_le_v(b, c) ==> rat_le_v(a, c)) && (rat_lt_v(a, b) && rat_le_v(
        b,
        c,
    ) ==> rat_lt_v(a, c)) && (rat_le_v(a, b) && rat_lt_v(b, c) ==> rat_lt_v(a, c)))
        by (nonlinear_arith)
        requires
            a.den >= 1,
            b.den >= 1,
            c.den >= 1,
    ;
}

/// Dividing by a common positive rational preserves order.
pub proof fn lemma_div_le(a: RatV, b: RatV, q: RatV)
    requires
        rat_wf_v(a),
        rat_wf_v(b),
        rat_wf_v(q),
        q.num > 0,
    ensures
        rat_le_v(rat_div_v(a, q), rat_div_v(b, q)) == rat_le_v(a, b),
        rat_lt_v(rat_div_v(a, q), rat_div_v(b, q)) == rat_lt_v(a, b),
{
    assert((rat_le_v(rat_div_v(a, q), rat_div_v(b, q)) == rat_le_v(a, b)) && (rat_lt_v(
        rat_div_v(a, q),
        rat_div_v(b, q),
    ) == rat_lt_v(a, b))) by (nonlinear_arith)
        requires
            a.den >= 1,
            b.den >= 1,
            q.den >= 1,
            q.num > 0,
            rat_div_v(a, q) == (RatV { num: a.num * q.den, den: a.den * q.num }),
            rat_div_v(b, q) == (RatV { num: b.num * q.den, den: b.den * q.num }),
    ;
}

/// Subtracting a common value preserves order.
pub proof fn lemma_sub_le(a: RatV, b: RatV, m: RatV)
    requires
        rat_wf_v(a),
        rat_wf_v(b),
        rat_wf_v(m),
    ensures
        rat_le_v(rat_sub_v(a, m), rat_sub_v(b, m)) == rat_le_v(a, b),
        rat_lt_v(rat_sub_v(a, m), rat_sub_v(b, m)) == rat_lt_v(a, b),
{
    let an = a.num;
    let ad = a.den;
    let bn = b.num;
    let bd = b.den;
    let u = m.num;
    let w = m.den;
    lemma_mul_is_distributive_sub_other_way(bd * w, an * w, u * ad);
    lemma_mul_is_distributive_sub_other_way(ad * w, bn * w, u * bd);
    assert((an * w) * (bd * w) == (an * bd) * (w * w)) by (nonlinear_arith);
    assert((u * ad) * (bd * w) == (u * bd) * (ad * w)) by (nonlinear_arith);
    assert((bn * w) * (ad * w) == (bn * ad) * (w * w)) by (nonlinear_arith);
    assert(((an * bd) * (w * w) <= (bn * ad) * (w * w)) == (an * bd <= bn * ad))
        by (nonlinear_arith)
        requires
            w >= 1,
    ;
    assert((((an * bd) * (w * w)) < (bn * ad) * (w * w)) == (an * bd < bn * ad))
        by (nonlinear_arith)
        requires
            w >= 1,
    ;
    assert(rat_le_v(rat_sub_v(a, m), rat_sub_v(b, m)) == rat_le_v(a, b));
    assert(rat_lt_v(rat_sub_v(a, m), rat_sub_v(b, m)) == rat_lt_v(a, b));
}

/// A quotient of a value between zero and a positive divisor lies in the
/// unit interval.
pub proof fn lemma_div_unit(x: RatV, q: RatV)
    requires
        rat_wf_v(x),
        rat_wf_v(q),
        q.num > 0,
        rat_le_v(rat_zero_v(), x),
        rat_le_v(x, q),
    ensures
        rat_le_v(rat_zero_v(), rat_div_v(x, q)),
        rat_le_v(rat_div_v(x, q), rat_one_v()),
{
    assert(rat_le_v(rat_zero_v(), rat_div_v(x, q)) && rat_le_v(rat_div_v(x, q), rat_one_v()))
        by (nonlinear_arith)
        requires
            x.den >= 1,
            q.den >= 1,
            q.num > 0,
            0 <= x.num,
            x.num * q.den <= q.num * x.den,
            rat_div_v(x, q) == (RatV { num: x.num * q.den, den: x.den * q.num }),
    ;
}

/// Clamping commutes with reduction.
pub proof fn lemma_scales_clamp01(v: RatV, w: RatV)
    requires
        rat_scales(v, w),
    ensures
        rat_scales(rat_clamp01_v(v), rat_clamp01_v(w)),
{
    lemma_scales_refl(rat_zero_v());
    lemma_scales_refl(rat_one_v());
    lemma_scales_le(v, w, rat_zero_v(), rat_zero_v());
    lemma_scales_le(rat_one_v(), rat_one_v(), v, w);
    lemma_scales_le(v, w, rat_one_v(), rat_one_v());
}

/// A product moves inside a quotient.
pub proof fn lemma_mul_div_left(x: RatV, y: RatV, q: RatV)
    requires
        q.num != 0,
        rat_wf_v(x),
        rat_wf_v(y),
        rat_wf_v(q),
    ensures
        rat_eqv(rat_mul_v(rat_div_v(x, q), y), rat_div_v(rat_mul_v(x, y), q)),
{
    assert(rat_eqv(rat_mul_v(rat_div_v(x, q), y), rat_div_v(rat_mul_v(x, y), q)))
        by (nonlinear_arith)
        requires
            q.num != 0,
            x.den >= 1,
            y.den >= 1,
            q.den >= 1,
            rat_div_v(x, q) == (if q.num >= 0 {
                RatV { num: x.num * q.den, den: x.den * q.num }
            } else {
                RatV { num: -(x.num * q.den), den: -(x.den * q.num) }
            }),
            rat_div_v(rat_mul_v(x, y), q) == (if q.num >= 0 {
                RatV {
                    num: (x.num * y.num) * q.den,
                    den: (x.den * y.den) * q.num,
                }
            } else {
                RatV {
                    num: -((x.num * y.num) * q.den),
                    den: -((x.den * y.den) * q.num),
                }
            }),
    ;
}

/// Dividing a rational by an equal nonzero rational gives one.
pub proof fn lemma_div_one_eqv(x: RatV, q: RatV)
    requires
        rat_eqv(x, q),
        q.num != 0,
        rat_wf_v(x),
        rat_wf_v(q),
    ensures
        rat_eqv(rat_div_v(x, q), rat_one_v()),
{
    assert(rat_eqv(rat_div_v(x, q), rat_one_v())) by (nonlinear_arith)
        requires
            x.num * q.den == q.num * x.den,
            q.num != 0,
            x.den >= 1,
            q.den >= 1,
            rat_div_v(x, q) == (if q.num >= 0 {
                RatV { num: x.num * q.den, den: x.den * q.num }
            } else {
                RatV { num: -(x.num * q.den), den: -(x.den * q.num) }
            }),
    ;
}

/// Dividing zero by a nonzero rational gives zero.
pub proof fn lemma_div_zero_eqv(x: RatV, q: RatV)
    requires
        x.num == 0,
        q.num != 0,
        rat_wf_v(x),
        rat_wf_v(q),
    ensures
        rat_eqv(rat_div_v(x, q), rat_zero_v()),
{
    assert(rat_eqv(rat_div_v(x, q), rat_zero_v())) by (nonlinear_arith)
        requires
            x.num == 0,
            q.num != 0,
            x.den >= 1,
            q.den >= 1,
            rat_div_v(x, q) == (if q.num >= 0 {
                RatV { num: x.num * q.den, den: x.den * q.num }
            } else {
                RatV { num: -(x.num * q.den), den: -(x.den * q.num) }
            }),
    ;
}

/// A rational plus its negation is zero.
pub proof fn lemma_add_neg_zero(u: RatV)
    requires
        rat_wf_v(u),
    ensures
        rat_eqv(rat_add_v(u, rat_neg_v(u)), rat_zero_v()),
{
    assert(rat_eqv(rat_add_v(u, rat_neg_v(u)), rat_zero_v())) by (nonlinear_arith)
        requires
            u.den >= 1,
    ;
}

/// Absolute value of a 128-bit integer, as an unsigned value.
fn abs_i128(x: i128) -> (r: u128)
    requires
        x > i128::MIN,
    ensures
        r == if x >= 0 { x as int } else { -x as int },
{
    if x < 0 {
        (-x) as u128
    } else {
        x as u128
    }
}

/// A positive common divisor of both arguments, found by Euclid's algorithm
/// and then checked by division, so the contract never depends on the search.
fn common_divisor(a: u128, b: u128) -> (g: u128)
    ensures
        1 <= g,
        a as int % g as int == 0,
        b as int % g as int == 0,
{
    let mut x: u128 = a;
    let mut y: u128 = b;
    while y != 0
        decreases y,
    {
        let t: u128 = x % y;
        x = y;
        y = t;
    }
    if x >= 1 && a % x == 0 && b % x == 0 {
        x
    } else {
        1
    }
}

/// Exact quotient of a nonnegative dividend by one of its divisors.
fn exact_div(n: u128, g: u128) -> (q: u128)
    requires
        1 <= g,
        n as int % g as int == 0,
    ensures
        q * g == n,
        q <= n,
{
    let q: u128 = n / g;
    proof {
        lemma_fundamental_div_mod(n as int, g as int);
        assert(q * g == n && q <= n) by (nonlinear_arith)
            requires
                g >= 1,
                n >= 0,
                q >= 0,
                n as int == g as int * q as int + n as int % g as int,
                n as int % g as int == 0,
        ;
    }
    q
}

/// Store the exact pair `p / q`, reduced by a common factor, in the 64-bit
/// carrier; `None` only when even the unreduced pair does not fit.
fn rat_make(p: i128, q: i128) -> (r: Option<Rat>)
    requires
        1 <= q,
        p > i128::MIN,
    ensures
        match r {
            Some(v) => v.wf() && rat_scales(v@, RatV { num: p as int, den: q as int }),
            None => !rat_fits(RatV { num: p as int, den: q as int }),
        },
{
    let pm: u128 = abs_i128(p);
    let qm: u128 = q as u128;
    let g: u128 = common_divisor(pm, qm);
    let pn: u128 = exact_div(pm, g);
    let qn: u128 = exact_div(qm, g);
    if pn <= i64::MAX as u128 && qn <= i64::MAX as u128 {
        let num: i64 = if p < 0 {
            -(pn as i64)
        } else {
            pn as i64
        };
        let den: i64 = qn as i64;
        proof {
            assert(qn >= 1) by (nonlinear_arith)
                requires
                    qn * g == qm,
                    qm >= 1,
                    g >= 1,
            ;
            assert(num as int * g as int == p as int) by (nonlinear_arith)
                requires
                    pn as int * g as int == pm as int,
                    pm as int == if p >= 0 { p as int } else { -p as int },
                    num as int == if p < 0 { -(pn as int) } else { pn as int },
            ;
            assert(rat_scales_by(
                RatV { num: num as int, den: den as int },
                RatV { num: p as int, den: q as int },
                g as int,
            ));
        }
        Some(Rat { num, den })
    } else {
        proof {
            if pn > i64::MAX as u128 {
                assert(pm >= pn) by (nonlinear_arith)
                    requires
                        pn * g == pm,
                        g >= 1,
                        pn >= 0,
                ;
            }
            if qn > i64::MAX as u128 {
                assert(qm >= qn) by (nonlinear_arith)
                    requires
                        qn * g == qm,
                        g >= 1,
                        qn >= 0,
                ;
            }
        }
        None
    }
}

/// Products of carrier-sized factors stay well inside the 128-bit range.
proof fn lemma_prod_bound(x: int, y: int)
    requires
        -carrier_max() <= x <= carrier_max(),
        -0x7fff_ffff_ffff_ffff_ffff_ffff_ffff_ffff <= y,
        y <= 0x7fff_ffff_ffff_ffff_ffff_ffff_ffff_ffff,
        -carrier_max() <= y <= carrier_max(),
    ensures
        -carrier_max() * carrier_max() <= x * y <= carrier_max() * carrier_max(),
{
    assert(-carrier_max() * carrier_max() <= x * y <= carrier_max() * carrier_max())
        by (nonlinear_arith)
        requires
            -carrier_max() <= x <= carrier_max(),
            -carrier_max() <= y <= carrier_max(),
    ;
}

/// Exact sum; fails only when even the unreduced result overflows the carrier.
pub fn rat_add(a: &Rat, b: &Rat) -> (r: Option<Rat>)
    requires
        a.wf(),
        b.wf(),
    ensures
        match r {
            Some(v) => v.wf() && rat_scales(v@, rat_add_v(a@, b@)),
            None => !rat_fits(rat_add_v(a@, b@)),
        },
{
    proof {
        lemma_prod_bound(a.num as int, b.den as int);
        lemma_prod_bound(b.num as int, a.den as int);
        lemma_prod_bound(a.den as int, b.den as int);
        assert(a.den as int * b.den as int >= 1) by (nonlinear_arith)
            requires
                a.den >= 1,
                b.den >= 1,
        ;
    }
    let p: i128 = (a.num as i128) * (b.den as i128) + (b.num as i128) * (a.den as i128);
    let q: i128 = (a.den as i128) * (b.den as i128);
    rat_make(p, q)
}

/// Exact difference; fails only when the unreduced result overflows.
pub fn rat_sub(a: &Rat, b: &Rat) -> (r: Option<Rat>)
    requires
        a.wf(),
        b.wf(),
    ensures
        match r {
            Some(v) => v.wf() && rat_scales(v@, rat_sub_v(a@, b@)),
            None => !rat_fits(rat_sub_v(a@, b@)),
        },
{
    proof {
        lemma_prod_bound(a.num as int, b.den as int);
        lemma_prod_bound(b.num as int, a.den as int);
        lemma_prod_bound(a.den as int, b.den as int);
        assert(a.den as int * b.den as int >= 1) by (nonlinear_arith)
            requires
                a.den >= 1,
                b.den >= 1,
        ;
    }
    let p: i128 = (a.num as i128) * (b.den as i128) - (b.num as i128) * (a.den as i128);
    let q: i128 = (a.den as i128) * (b.den as i128);
    rat_make(p, q)
}

/// Exact product; fails only when the unreduced result overflows.
pub fn rat_mul(a: &Rat, b: &Rat) -> (r: Option<Rat>)
    requires
        a.wf(),
        b.wf(),
    ensures
        match r {
            Some(v) => v.wf() && rat_scales(v@, rat_mul_v(a@, b@)),
            None => !rat_fits(rat_mul_v(a@, b@)),
        },
{
    proof {
        lemma_prod_bound(a.num as int, b.num as int);
        lemma_prod_bound(a.den as int, b.den as int);
        assert(a.den as int * b.den as int >= 1) by (nonlinear_arith)
            requires
                a.den >= 1,
                b.den >= 1,
        ;
    }
    let p: i128 = (a.num as i128) * (b.num as i128);
    let q: i128 = (a.den as i128) * (b.den as i128);
    rat_make(p, q)
}

/// Exact quotient by a nonzero rational; fails only when the unreduced
/// result overflows.
pub fn rat_div(a: &Rat, b: &Rat) -> (r: Option<Rat>)
    requires
        a.wf(),
        b.wf(),
        b@.num != 0,
    ensures
        match r {
            Some(v) => v.wf() && rat_scales(v@, rat_div_v(a@, b@)),
            None => !rat_fits(rat_div_v(a@, b@)),
        },
{
    proof {
        lemma_prod_bound(a.num as int, b.den as int);
        lemma_prod_bound(a.den as int, b.num as int);
    }
    let p: i128 = (a.num as i128) * (b.den as i128);
    let q: i128 = (a.den as i128) * (b.num as i128);
    if q < 0 {
        proof {
            assert(b.num < 0) by (nonlinear_arith)
                requires
                    a.den >= 1,
                    (a.den as int) * (b.num as int) < 0,
            ;
        }
        rat_make(-p, -q)
    } else {
        proof {
            assert(b.num > 0 && a.den as int * b.num as int >= 1) by (nonlinear_arith)
                requires
                    a.den >= 1,
                    b.num != 0,
                    a.den as int * b.num as int >= 0,
            ;
        }
        rat_make(p, q)
    }
}

/// Exact negation; never fails.
pub fn rat_neg(a: &Rat) -> (r: Rat)
    requires
        a.wf(),
    ensures
        r.wf(),
        r@ == rat_neg_v(a@),
{
    Rat { num: -a.num, den: a.den }
}

/// Decides `a <= b` exactly.
pub fn rat_le(a: &Rat, b: &Rat) -> (r: bool)
    requires
        a.wf(),
        b.wf(),
    ensures
        r == rat_le_v(a@, b@),
{
    proof {
        lemma_prod_bound(a.num as int, b.den as int);
        lemma_prod_bound(b.num as int, a.den as int);
    }
    (a.num as i128) * (b.den as i128) <= (b.num as i128) * (a.den as i128)
}

/// Decides `a < b` exactly.
pub fn rat_lt(a: &Rat, b: &Rat) -> (r: bool)
    requires
        a.wf(),
        b.wf(),
    ensures
        r == rat_lt_v(a@, b@),
{
    proof {
        lemma_prod_bound(a.num as int, b.den as int);
        lemma_prod_bound(b.num as int, a.den as int);
    }
    (a.num as i128) * (b.den as i128) < (b.num as i128) * (a.den as i128)
}

/// Decides whether `a` and `b` denote the same rational.
pub fn rat_eq(a: &Rat, b: &Rat) -> (r: bool)
    requires
        a.wf(),
        b.wf(),
    ensures
        r == rat_eqv(a@, b@),
{
    proof {
        lemma_prod_bound(a.num as int, b.den as int);
        lemma_prod_bound(b.num as int, a.den as int);
    }
    (a.num as i128) * (b.den as i128) == (b.num as i128) * (a.den as i128)
}

/// The rational zero.
pub fn rat_zero() -> (r: Rat)
    ensures
        r.wf(),
        r@ == rat_zero_v(),
{
    Rat { num: 0, den: 1 }
}

/// The rational one.
pub fn rat_one() -> (r: Rat)
    ensures
        r.wf(),
        r@ == rat_one_v(),
{
    Rat { num: 1, den: 1 }
}

/// The rational with the given integer value.
pub fn rat_int(n: i64) -> (r: Rat)
    requires
        n > i64::MIN,
    ensures
        r.wf(),
        r@ == rat_int_v(n as int),
{
    Rat { num: n, den: 1 }
}

/// The rational `num / den`, reduced.
pub fn rat_new(num: i64, den: i64) -> (r: Rat)
    requires
        num > i64::MIN,
        den >= 1,
    ensures
        r.wf(),
        rat_scales(r@, RatV { num: num as int, den: den as int }),
{
    let made = rat_make(num as i128, den as i128);
    match made {
        Some(v) => v,
        None => {
            proof {
                assert(false);
            }
            Rat { num: 0, den: 1 }
        },
    }
}

/// Clamp into the unit interval, exactly.
pub fn rat_clamp01(a: &Rat) -> (r: Rat)
    requires
        a.wf(),
    ensures
        r.wf(),
        r@ == rat_clamp01_v(a@),
{
    let zero = rat_zero();
    let one = rat_one();
    if rat_lt(a, &zero) {
        zero
    } else if rat_lt(&one, a) {
        one
    } else {
        *a
    }
}

} // verus!
