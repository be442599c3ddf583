//! The gradient tool: the active editing session and the pointer
//! interaction state machine.
//!
//! Every event handler is a pure step: it takes the event, a snapshot of
//! the document state it may consult, and the tool's own state, mutates the
//! tool state, and appends the requests it wants the editor to perform
//! (fill updates, transaction boundaries, selection and overlay requests).
//! Arithmetic failure is always fail-closed: the affected mutation is
//! skipped and the contracts say so.

use crate::geom::{
    af_scales, apply, apply_fits, apply_v, det_v, dist2, dist2_fits, dist2_v, inverse,
    inverse_fits, inverse_v, lemma_apply_scales, lemma_dist2_scales, lemma_inverse_scales,
    lemma_pt_lerp_scales, lerp_point, len2_v, project_v, pt_lerp_fits, pt_lerp_v, pt_scales, shift_translation, Affine,
    AffineV, Point, PointV,
};
use crate::gradient::{
    insert_allowed_v, insert_color_ok, lemma_insert_scales, reposition_fits, Color, DeleteOutcome,
    Fill, Gradient, GradientType, Stop,
};
use crate::rat::{
    lemma_scales_le, lemma_scales_refl, lemma_scales_trans, rat_add_v, rat_clamp01_v, rat_eqv,
    rat_fits, rat_int, rat_int_v, rat_le_v, rat_lt, rat_lt_v, rat_mul_v, rat_one, rat_one_v,
    rat_scales, rat_sub_v, rat_zero, rat_zero_v, Rat,
};
use vstd::prelude::*;

verus! {

/// Which handle of the active gradient a drag controls.
#[derive(Clone, Copy, Debug, PartialEq, Eq, Structural)]
pub enum GradientDragTarget {
    Start,
    End,
    Step(usize),
}

/// A request the tool asks the editor to perform.
#[derive(Clone, Debug)]
pub enum ToolResponse {
    FillSet { layer: u64, fill: Fill },
    StartTransaction,
    AddTransaction,
    CommitTransaction,
    AbortTransaction,
    SelectLayer { layer: u64 },
    OverlayLine { from: Point, to: Point },
    OverlayHandle { position: Point, selected: bool },
    OverlayDraw,
    ArmAutoPan,
    StopAutoPan,
    UpdateHints { drawing: bool },
    UpdateCursorDefault,
}

/// One selected visible layer, as the document hands it to the tool for
/// one event: its identity, whether it is raster, its gradient fill if it
/// carries one, its local bounding box and its local-to-viewport map.
#[derive(Clone, Debug)]
pub struct Layer {
    pub id: u64,
    pub raster: bool,
    pub selected: bool,
    pub gradient: Option<Gradient>,
    pub bbox_min: Point,
    pub bbox_max: Point,
    pub to_viewport: Affine,
}

impl Layer {
    /// Well-formed layer data; a raster layer has no gradient fill to read,
    /// as the document's fill query returns none for it.
    pub open spec fn wf(&self) -> bool {
        &&& self.bbox_min.wf()
        &&& self.bbox_max.wf()
        &&& self.to_viewport.wf()
        &&& match self.gradient {
            Some(g) => g.wf(),
            None => true,
        }
        &&& (self.raster ==> self.gradient is None)
    }
}

/// The snapshot of editor state an event handler may consult: the selected
/// visible layers in order, the topmost layer under the pointer, the
/// pointer position, the angle-snapped pointer position when the snapping
/// collaborator supplied one, the viewport shift the auto-pan controller
/// supplied, and the global colors.
#[derive(Clone, Debug)]
pub struct EditorContext {
    pub layers: Vec<Layer>,
    pub clicked: Option<Layer>,
    pub mouse: Point,
    pub snapped_mouse: Option<Point>,
    pub pan_shift: Option<Point>,
    pub primary_color: Color,
    pub secondary_color: Color,
}

impl EditorContext {
    pub open spec fn wf(&self) -> bool {
        &&& forall|i: int| 0 <= i < self.layers@.len() ==> (#[trigger] self.layers@[i]).wf()
        &&& match self.clicked {
            Some(l) => l.wf(),
            None => true,
        }
        &&& self.mouse.wf()
        &&& match self.snapped_mouse {
            Some(p) => p.wf(),
            None => true,
        }
        &&& match self.pan_shift {
            Some(p) => p.wf(),
            None => true,
        }
    }
}

/// The axis-aligned map from the unit square to a layer's bounding box,
/// composed with the layer's local-to-viewport map: where gradient-space
/// coordinates land on screen.
pub open spec fn gradient_space_transform_v(t: AffineV, mn: PointV, mx: PointV) -> AffineV {
    AffineV {
        a: rat_mul_v(t.a, rat_sub_v(mx.x, mn.x)),
        b: rat_mul_v(t.b, rat_sub_v(mx.y, mn.y)),
        c: rat_mul_v(t.c, rat_sub_v(mx.x, mn.x)),
        d: rat_mul_v(t.d, rat_sub_v(mx.y, mn.y)),
        tx: rat_add_v(rat_add_v(rat_mul_v(t.a, mn.x), rat_mul_v(t.b, mn.y)), t.tx),
        ty: rat_add_v(rat_add_v(rat_mul_v(t.c, mn.x), rat_mul_v(t.d, mn.y)), t.ty),
    }
}

/// Every intermediate of [`gradient_space_transform_v`] fits the carrier
/// unreduced.
pub open spec fn gradient_space_transform_fits(t: AffineV, mn: PointV, mx: PointV) -> bool {
    let r = gradient_space_transform_v(t, mn, mx);
    &&& rat_fits(rat_sub_v(mx.x, mn.x))
    &&& rat_fits(rat_sub_v(mx.y, mn.y))
    &&& rat_fits(r.a)
    &&& rat_fits(r.b)
    &&& rat_fits(r.c)
    &&& rat_fits(r.d)
    &&& rat_fits(rat_mul_v(t.a, mn.x))
    &&& rat_fits(rat_mul_v(t.b, mn.y))
    &&& rat_fits(rat_add_v(rat_mul_v(t.a, mn.x), rat_mul_v(t.b, mn.y)))
    &&& rat_fits(r.tx)
    &&& rat_fits(rat_mul_v(t.c, mn.x))
    &&& rat_fits(rat_mul_v(t.d, mn.y))
    &&& rat_fits(rat_add_v(rat_mul_v(t.c, mn.x), rat_mul_v(t.d, mn.y)))
    &&& rat_fits(r.ty)
}

/// The gradient-space-to-viewport map of a layer.
pub open spec fn layer_gst(l: Layer) -> AffineV {
    gradient_space_transform_v(l.to_viewport@, l.bbox_min@, l.bbox_max@)
}

/// Computes the transform from gradient space to viewport space for a
/// layer (gradient space maps the unit square onto the layer's bounding
/// box). Fails only when an unreduced intermediate overflows the carrier.
pub fn gradient_space_transform(layer: &Layer) -> (r: Option<Affine>)
    requires
        layer.wf(),
    ensures
        match r {
            Some(t) => t.wf() && af_scales(t@, layer_gst(*layer)),
            None => !gradient_space_transform_fits(
                layer.to_viewport@,
                layer.bbox_min@,
                layer.bbox_max@,
            ),
        },
{
    let ghost tv = layer.to_viewport@;
    let ghost mnv = layer.bbox_min@;
    let ghost mxv = layer.bbox_max@;
    proof {
        lemma_scales_refl(tv.a);
        lemma_scales_refl(tv.b);
        lemma_scales_refl(tv.c);
        lemma_scales_refl(tv.d);
        lemma_scales_refl(tv.tx);
        lemma_scales_refl(tv.ty);
        lemma_scales_refl(mnv.x);
        lemma_scales_refl(mnv.y);
        lemma_scales_refl(mxv.x);
        lemma_scales_refl(mxv.y);
    }
    let t = &layer.to_viewport;
    let sx = match crate::geom::sub_step(
        &layer.bbox_max.x,
        &layer.bbox_min.x,
        Ghost(mxv.x),
        Ghost(mnv.x),
    ) {
        Some(v) => v,
        None => { return None },
    };
    let sy = match crate::geom::sub_step(
        &layer.bbox_max.y,
        &layer.bbox_min.y,
        Ghost(mxv.y),
        Ghost(mnv.y),
    ) {
        Some(v) => v,
        None => { return None },
    };
    let ghost sxw = rat_sub_v(mxv.x, mnv.x);
    let ghost syw = rat_sub_v(mxv.y, mnv.y);
    let ea = match crate::geom::mul_step(&t.a, &sx, Ghost(tv.a), Ghost(sxw)) {
        Some(v) => v,
        None => { return None },
    };
    let eb = match crate::geom::mul_step(&t.b, &sy, Ghost(tv.b), Ghost(syw)) {
        Some(v) => v,
        None => { return None },
    };
    let ec = match crate::geom::mul_step(&t.c, &sx, Ghost(tv.c), Ghost(sxw)) {
        Some(v) => v,
        None => { return None },
    };
    let ed = match crate::geom::mul_step(&t.d, &sy, Ghost(tv.d), Ghost(syw)) {
        Some(v) => v,
        None => { return None },
    };
    let m1 = match crate::geom::mul_step(&t.a, &layer.bbox_min.x, Ghost(tv.a), Ghost(mnv.x)) {
        Some(v) => v,
        None => { return None },
    };
    let m2 = match crate::geom::mul_step(&t.b, &layer.bbox_min.y, Ghost(tv.b), Ghost(mnv.y)) {
        Some(v) => v,
        None => { return None },
    };
    let s1 = match crate::geom::add_step(
        &m1,
        &m2,
        Ghost(rat_mul_v(tv.a, mnv.x)),
        Ghost(rat_mul_v(tv.b, mnv.y)),
    ) {
        Some(v) => v,
        None => { return None },
    };
    let etx = match crate::geom::add_step(
        &s1,
        &t.tx,
        Ghost(rat_add_v(rat_mul_v(tv.a, mnv.x), rat_mul_v(tv.b, mnv.y))),
        Ghost(tv.tx),
    ) {
        Some(v) => v,
        None => { return None },
    };
    let m3 = match crate::geom::mul_step(&t.c, &layer.bbox_min.x, Ghost(tv.c), Ghost(mnv.x)) {
        Some(v) => v,
        None => { return None },
    };
    let m4 = match crate::geom::mul_step(&t.d, &layer.bbox_min.y, Ghost(tv.d), Ghost(mnv.y)) {
        Some(v) => v,
        None => { return None },
    };
    let s2 = match crate::geom::add_step(
        &m3,
        &m4,
        Ghost(rat_mul_v(tv.c, mnv.x)),
        Ghost(rat_mul_v(tv.d, mnv.y)),
    ) {
        Some(v) => v,
        None => { return None },
    };
    let ety = match crate::geom::add_step(
        &s2,
        &t.ty,
        Ghost(rat_add_v(rat_mul_v(tv.c, mnv.x), rat_mul_v(tv.d, mnv.y))),
        Ghost(tv.ty),
    ) {
        Some(v) => v,
        None => { return None },
    };
    Some(Affine { a: ea, b: eb, c: ec, d: ed, tx: etx, ty: ety })
}

/// Two gradients with the same kind, endpoints, stops and cached transform.
pub open spec fn gradient_same(a: Gradient, b: Gradient) -> bool {
    &&& a.gradient_type == b.gradient_type
    &&& a.start == b.start
    &&& a.end == b.end
    &&& a.stops@ == b.stops@
    &&& a.transform == b.transform
}

/// A field-by-field copy of a stop list.
fn copy_stops(stops: &Vec<Stop>) -> (r: Vec<Stop>)
    ensures
        r@ == stops@,
{
    let mut r: Vec<Stop> = Vec::new();
    let mut i: usize = 0;
    while i < stops.len()
        invariant
            i <= stops@.len(),
            r@ == stops@.subrange(0, i as int),
        decreases stops@.len() - i,
    {
        r.push(stops[i]);
        i = i + 1;
    }
    proof {
        assert(r@ =~= stops@);
    }
    r
}

/// A field-by-field copy of a gradient.
fn copy_gradient(g: &Gradient) -> (r: Gradient)
    ensures
        gradient_same(r, *g),
{
    Gradient {
        gradient_type: g.gradient_type,
        start: g.start,
        end: g.end,
        stops: copy_stops(&g.stops),
        transform: g.transform,
    }
}

/// The active editing session: the owning layer, the cached gradient-space
/// to viewport transform, a working copy of the gradient, and the handle a
/// drag currently controls.
#[derive(Clone, Debug)]
pub struct SelectedGradient {
    pub layer: Option<u64>,
    pub transform: Affine,
    pub gradient: Gradient,
    pub dragging: GradientDragTarget,
}

/// The failure condition of one drag update: inverting or applying the
/// cached transform overflowed (or the transform is singular), or, for a
/// stop drag, the projection did.
pub open spec fn update_fails(sg: SelectedGradient, m: PointV) -> bool {
    match sg.dragging {
        GradientDragTarget::Step(_) => len2_v(
            apply_v(sg.transform@, sg.gradient.start@),
            apply_v(sg.transform@, sg.gradient.end@),
        ).num == 0 || !reposition_fits(sg.transform@, sg.gradient.start@, sg.gradient.end@, m),
        _ => det_v(sg.transform@).num == 0 || !inverse_fits(sg.transform@) || !apply_fits(
            inverse_v(sg.transform@),
            m,
        ),
    }
}

impl SelectedGradient {
    pub open spec fn wf(&self) -> bool {
        &&& self.transform.wf()
        &&& self.gradient.wf()
        &&& match self.dragging {
            GradientDragTarget::Step(i) => i < self.gradient.stops@.len(),
            _ => true,
        }
    }

    /// A session for editing `gradient` on `layer`, dragging the end
    /// handle; the transform is recomputed from the layer's geometry.
    pub fn new(gradient: Gradient, layer: &Layer) -> (r: Option<SelectedGradient>)
        requires
            gradient.wf(),
            layer.wf(),
        ensures
            match r {
                Some(sg) => {
                    &&& sg.wf()
                    &&& sg.layer == Some(layer.id)
                    &&& gradient_same(sg.gradient, gradient)
                    &&& af_scales(sg.transform@, layer_gst(*layer))
                    &&& sg.dragging == GradientDragTarget::End
                },
                None => !gradient_space_transform_fits(
                    layer.to_viewport@,
                    layer.bbox_min@,
                    layer.bbox_max@,
                ),
            },
    {
        let transform = match gradient_space_transform(layer) {
            Some(t) => t,
            None => { return None },
        };
        Some(
            SelectedGradient {
                layer: Some(layer.id),
                transform,
                gradient,
                dragging: GradientDragTarget::End,
            },
        )
    }

    /// Move the gradient's start to the gradient-space image of a viewport
    /// point, by the inverse of the cached transform.
    pub fn with_gradient_start(self, start: &Point) -> (r: Option<SelectedGradient>)
        requires
            self.wf(),
            start.wf(),
        ensures
            match r {
                Some(sg) => {
                    &&& sg.wf()
                    &&& sg.layer == self.layer
                    &&& sg.transform == self.transform
                    &&& sg.dragging == self.dragging
                    &&& sg.gradient.gradient_type == self.gradient.gradient_type
                    &&& sg.gradient.end == self.gradient.end
                    &&& sg.gradient.stops@ == self.gradient.stops@
                    &&& det_v(self.transform@).num != 0
                    &&& pt_scales(
                        sg.gradient.start@,
                        apply_v(inverse_v(self.transform@), start@),
                    )
                },
                None => det_v(self.transform@).num == 0 || !inverse_fits(self.transform@)
                    || !apply_fits(inverse_v(self.transform@), start@),
            },
    {
        let inv = match inverse(&self.transform) {
            Some(v) => v,
            None => { return None },
        };
        let p = match apply(&inv, start) {
            Some(v) => v,
            None => {
                proof {
                    lemma_scales_refl(start@.x);
                    lemma_scales_refl(start@.y);
                    lemma_apply_scales(inv@, inverse_v(self.transform@), start@, start@);
                }
                return None;
            },
        };
        proof {
            lemma_scales_refl(start@.x);
            lemma_scales_refl(start@.y);
            lemma_apply_scales(inv@, inverse_v(self.transform@), start@, start@);
            lemma_scales_trans(p@.x, apply_v(inv@, start@).x, apply_v(inverse_v(self.transform@), start@).x);
            lemma_scales_trans(p@.y, apply_v(inv@, start@).y, apply_v(inverse_v(self.transform@), start@).y);
        }
        let mut sg = self;
        sg.gradient.start = p;
        Some(sg)
    }

    /// The fixed endpoint an angle snap pivots around: the end handle when
    /// the start is dragged, the start handle when the end is dragged, in
    /// viewport space; a stop drag has no snap anchor.
    pub fn rotation_anchor(&self) -> (r: Option<Point>)
        requires
            self.wf(),
        ensures
            match self.dragging {
                GradientDragTarget::Step(_) => r is None,
                GradientDragTarget::Start => match r {
                    Some(p) => p.wf() && pt_scales(
                        p@,
                        apply_v(self.transform@, self.gradient.end@),
                    ),
                    None => !apply_fits(self.transform@, self.gradient.end@),
                },
                GradientDragTarget::End => match r {
                    Some(p) => p.wf() && pt_scales(
                        p@,
                        apply_v(self.transform@, self.gradient.start@),
                    ),
                    None => !apply_fits(self.transform@, self.gradient.start@),
                },
            },
    {
        match self.dragging {
            GradientDragTarget::Start => apply(&self.transform, &self.gradient.end),
            GradientDragTarget::End => apply(&self.transform, &self.gradient.start),
            GradientDragTarget::Step(_) => None,
        }
    }

    /// Move the dragged handle to the pointer: a dragged endpoint becomes
    /// the gradient-space image of the pointer, a dragged stop is
    /// reprojected onto the gradient line, and the updated fill is pushed.
    /// Returns false, changing nothing, when the arithmetic fails
    /// ([`update_fails`]).
    pub fn update_gradient(
        &mut self,
        mouse: &Point,
        responses: &mut Vec<ToolResponse>,
        gradient_type: GradientType,
    ) -> (updated: bool)
        requires
            old(self).wf(),
            mouse.wf(),
        ensures
            final(self).wf(),
            !updated ==> *final(self) == *old(self) && final(responses)@ == old(responses)@
                && update_fails(*old(self), mouse@),
            updated ==> {
                &&& final(self).layer == old(self).layer
                &&& final(self).transform == old(self).transform
                &&& final(self).gradient.gradient_type == gradient_type
                &&& final(self).gradient.transform == old(self).transform
                &&& match old(self).dragging {
                    GradientDragTarget::Start => {
                        &&& final(self).dragging == old(self).dragging
                        &&& final(self).gradient.end == old(self).gradient.end
                        &&& final(self).gradient.stops@ == old(self).gradient.stops@
                        &&& pt_scales(
                            final(self).gradient.start@,
                            apply_v(inverse_v(old(self).transform@), mouse@),
                        )
                    },
                    GradientDragTarget::End => {
                        &&& final(self).dragging == old(self).dragging
                        &&& final(self).gradient.start == old(self).gradient.start
                        &&& final(self).gradient.stops@ == old(self).gradient.stops@
                        &&& pt_scales(
                            final(self).gradient.end@,
                            apply_v(inverse_v(old(self).transform@), mouse@),
                        )
                    },
                    GradientDragTarget::Step(s) => {
                        let rem = old(self).gradient.stops@.remove(s as int);
                        &&& final(self).gradient.start == old(self).gradient.start
                        &&& final(self).gradient.end == old(self).gradient.end
                        &&& final(self).dragging matches GradientDragTarget::Step(ni) && ni
                            < final(self).gradient.stops@.len() && final(self).gradient.stops@
                            == rem.insert(ni as int, final(self).gradient.stops@[ni as int])
                            && final(self).gradient.stops@[ni as int].color == old(self).gradient.stops@[s as int].color && rat_scales(
                            final(self).gradient.stops@[ni as int].position@,
                            rat_clamp01_v(
                                project_v(
                                    apply_v(old(self).transform@, old(self).gradient.start@),
                                    apply_v(old(self).transform@, old(self).gradient.end@),
                                    mouse@,
                                ),
                            ),
                        )
                    },
                }
                &&& match final(self).layer {
                    Some(id) => final(responses)@.len() == old(responses)@.len() + 1 && (final(responses)@.last() matches ToolResponse::FillSet { layer, fill: Fill::Gradient(fg) }
                        && layer == id && gradient_same(fg, final(self).gradient))
                        && final(responses)@.subrange(0, old(responses)@.len() as int) == old(responses)@,
                    None => final(responses)@ == old(responses)@,
                }
            },
    {
        let is_step = match self.dragging {
            GradientDragTarget::Step(_) => true,
            _ => false,
        };
        if !is_step {
            let inv = match inverse(&self.transform) {
                Some(v) => v,
                None => { return false },
            };
            let p = match apply(&inv, mouse) {
                Some(v) => v,
                None => {
                    proof {
                        lemma_scales_refl(mouse@.x);
                        lemma_scales_refl(mouse@.y);
                        lemma_apply_scales(inv@, inverse_v(self.transform@), mouse@, mouse@);
                    }
                    return false;
                },
            };
            proof {
                lemma_scales_refl(mouse@.x);
                lemma_scales_refl(mouse@.y);
                lemma_apply_scales(inv@, inverse_v(self.transform@), mouse@, mouse@);
                lemma_scales_trans(
                    p@.x,
                    apply_v(inv@, mouse@).x,
                    apply_v(inverse_v(self.transform@), mouse@).x,
                );
                lemma_scales_trans(
                    p@.y,
                    apply_v(inv@, mouse@).y,
                    apply_v(inverse_v(self.transform@), mouse@).y,
                );
            }
            self.gradient.gradient_type = gradient_type;
            match self.dragging {
                GradientDragTarget::Start => { self.gradient.start = p },
                _ => { self.gradient.end = p },
            }
            self.render_gradient(responses);
            true
        } else {
            let s = match self.dragging {
                GradientDragTarget::Step(s) => s,
                _ => 0,
            };
            match self.gradient.reposition_stop(s, mouse, &self.transform) {
                Some(ni) => {
                    self.gradient.gradient_type = gradient_type;
                    self.dragging = GradientDragTarget::Step(ni);
                    self.render_gradient(responses);
                    true
                },
                None => false,
            }
        }
    }

    /// Stamp the cached transform onto the gradient and push the updated
    /// fill of the owning layer.
    pub fn render_gradient(&mut self, responses: &mut Vec<ToolResponse>)
        requires
            old(self).wf(),
        ensures
            final(self).wf(),
            final(self).layer == old(self).layer,
            final(self).transform == old(self).transform,
            final(self).dragging == old(self).dragging,
            final(self).gradient.gradient_type == old(self).gradient.gradient_type,
            final(self).gradient.start == old(self).gradient.start,
            final(self).gradient.end == old(self).gradient.end,
            final(self).gradient.stops@ == old(self).gradient.stops@,
            final(self).gradient.transform == old(self).transform,
            match old(self).layer {
                Some(id) => final(responses)@.len() == old(responses)@.len() + 1 && (final(responses)@.last() matches ToolResponse::FillSet { layer, fill: Fill::Gradient(fg) } && layer
                    == id && gradient_same(fg, final(self).gradient)) && final(responses)@.subrange(
                    0,
                    old(responses)@.len() as int,
                ) == old(responses)@,
                None => final(responses)@ == old(responses)@,
            },
    {
        self.gradient.transform = self.transform;
        match self.layer {
            Some(id) => {
                let fill = Fill::Gradient(copy_gradient(&self.gradient));
                responses.push(ToolResponse::FillSet { layer: id, fill });
                proof {
                    assert(final(responses)@.subrange(0, old(responses)@.len() as int) =~= old(responses)@);
                }
            },
            None => {},
        }
    }
}

/// The pointer interaction state machine: no drag in flight, or a handle
/// being dragged (equally, a new gradient being drawn).
#[derive(Clone, Copy, Debug, PartialEq, Eq, Structural)]
pub enum GradientToolFsmState {
    Ready,
    Drawing,
}

/// The tool's mutable working state: the active session, if any, and where
/// the current drag started.
#[derive(Clone, Debug)]
pub struct GradientToolData {
    pub selected_gradient: Option<SelectedGradient>,
    pub drag_start: Point,
}

impl GradientToolData {
    pub open spec fn wf(&self) -> bool {
        &&& match self.selected_gradient {
            Some(sg) => sg.wf(),
            None => true,
        }
        &&& self.drag_start.wf()
    }
}

/// The tool options panel state: the kind a newly drawn gradient gets.
#[derive(Clone, Copy, Debug)]
pub struct GradientOptions {
    pub gradient_type: GradientType,
}

/// A change requested through the tool options panel.
#[derive(Clone, Copy, Debug, PartialEq, Eq, Structural)]
pub enum GradientOptionsUpdate {
    Type(GradientType),
}

/// The events the tool consumes. Pointer positions, the clicked layer, the
/// angle-snapped pointer and the auto-pan shift travel in the
/// [`EditorContext`] snapshot beside the event.
#[derive(Clone, Copy, Debug, PartialEq, Eq, Structural)]
pub enum GradientToolMessage {
    Abort,
    Overlays,
    DeleteStop,
    InsertStop,
    PointerDown,
    PointerMove { constrain_axis: bool },
    PointerOutsideViewport { constrain_axis: bool },
    PointerUp,
    UpdateOptions(GradientOptionsUpdate),
}

/// The dragged handle of a stop marker hit-test, over exact values: the
/// marker of stop `k` lies within the selection tolerance of the pointer.
pub open spec fn stop_hit(l: Layer, k: int, m: PointV) -> bool {
    &&& l.gradient matches Some(g) && 0 <= k < g.stops@.len() && rat_lt_v(
        dist2_v(
            apply_v(layer_gst(l), pt_lerp_v(g.start@, g.end@, g.stops@[k].position@)),
            m,
        ),
        rat_int_v(144),
    )
}

/// An endpoint handle lies within the selection tolerance of the pointer.
pub open spec fn endpoint_hit(l: Layer, at_start: bool, m: PointV) -> bool {
    &&& l.gradient matches Some(g) && rat_lt_v(
        dist2_v(
            apply_v(
                layer_gst(l),
                if at_start {
                    g.start@
                } else {
                    g.end@
                },
            ),
            m,
        ),
        rat_int_v(144),
    )
}

/// The hit-test arithmetic for stop `k` fits the carrier unreduced, so the
/// executable test decides [`stop_hit`] exactly.
pub open spec fn stop_hit_fits(l: Layer, k: int, m: PointV) -> bool {
    l.gradient matches Some(g) ==> {
        let lp = pt_lerp_v(g.start@, g.end@, g.stops@[k].position@);
        &&& gradient_space_transform_fits(l.to_viewport@, l.bbox_min@, l.bbox_max@)
        &&& pt_lerp_fits(g.start@, g.end@, g.stops@[k].position@)
        &&& apply_fits(layer_gst(l), lp)
        &&& dist2_fits(apply_v(layer_gst(l), lp), m)
    }
}

/// The hit-test arithmetic for an endpoint handle fits the carrier.
pub open spec fn endpoint_hit_fits(l: Layer, at_start: bool, m: PointV) -> bool {
    l.gradient matches Some(g) ==> {
        let p = if at_start {
            g.start@
        } else {
            g.end@
        };
        &&& gradient_space_transform_fits(l.to_viewport@, l.bbox_min@, l.bbox_max@)
        &&& apply_fits(layer_gst(l), p)
        &&& dist2_fits(apply_v(layer_gst(l), p), m)
    }
}

/// The session a successful handle hit produces on layer `l`.
pub open spec fn session_from_hit(sg: SelectedGradient, l: Layer, m: PointV) -> bool {
    &&& l.gradient matches Some(g) && gradient_same(sg.gradient, g)
    &&& sg.layer == Some(l.id)
    &&& af_scales(sg.transform@, layer_gst(l))
    &&& match sg.dragging {
        GradientDragTarget::Step(k) => stop_hit(l, k as int, m),
        GradientDragTarget::Start => endpoint_hit(l, true, m),
        GradientDragTarget::End => endpoint_hit(l, false, m),
    }
}

/// Whether the viewport point that `p` stands for (under the map that `t`
/// stands for) lies within the selection tolerance of the pointer. A miss
/// is exact whenever the unreduced arithmetic fits the carrier.
fn point_hit(
    t: &Affine,
    Ghost(traw): Ghost<AffineV>,
    p: &Point,
    Ghost(praw): Ghost<PointV>,
    mouse: &Point,
) -> (h: bool)
    requires
        t.wf(),
        af_scales(t@, traw),
        p.wf(),
        pt_scales(p@, praw),
        mouse.wf(),
    ensures
        h ==> rat_lt_v(dist2_v(apply_v(traw, praw), mouse@), rat_int_v(144)),
        !h ==> !(apply_fits(traw, praw) && dist2_fits(apply_v(traw, praw), mouse@) && rat_lt_v(
            dist2_v(apply_v(traw, praw), mouse@),
            rat_int_v(144),
        )),
{
    proof {
        lemma_apply_scales(t@, traw, p@, praw);
    }
    let pp = match apply(t, p) {
        Some(v) => v,
        None => { return false },
    };
    proof {
        lemma_scales_trans(pp@.x, apply_v(t@, p@).x, apply_v(traw, praw).x);
        lemma_scales_trans(pp@.y, apply_v(t@, p@).y, apply_v(traw, praw).y);
        lemma_dist2_scales(pp@, apply_v(traw, praw), mouse@);
    }
    let d = match dist2(&pp, mouse) {
        Some(v) => v,
        None => { return false },
    };
    let tol = rat_int(144);
    proof {
        lemma_scales_trans(d@, dist2_v(pp@, mouse@), dist2_v(apply_v(traw, praw), mouse@));
        lemma_scales_refl(tol@);
        lemma_scales_le(d@, dist2_v(apply_v(traw, praw), mouse@), tol@, tol@);
    }
    rat_lt(&d, &tol)
}

/// Every handle of the layer whose exact arithmetic fits the carrier
/// misses the pointer: nothing on this layer can be engaged.
pub open spec fn layer_cleared(l: Layer, m: PointV) -> bool {
    &&& forall|k: int| !(#[trigger] stop_hit_fits(l, k, m) && stop_hit(l, k, m))
    &&& !(endpoint_hit_fits(l, true, m) && endpoint_hit(l, true, m))
    &&& !(endpoint_hit_fits(l, false, m) && endpoint_hit(l, false, m))
}

/// Some layer has a handle within tolerance with fitting arithmetic, so a
/// pointer press is guaranteed to engage a drag.
pub open spec fn hit_exists(layers: Seq<Layer>, m: PointV) -> bool {
    exists|li: int| 0 <= li < layers.len() && !layer_cleared(#[trigger] layers[li], m)
}

/// The session engaged by the first matching handle: every earlier layer is
/// cleared, and within the winning layer stops are tested in order before
/// the start and then the end handle, the first match winning (a candidate
/// whose arithmetic overflows the carrier is skipped rather than misplaced).
pub open spec fn first_hit_at(layers: Seq<Layer>, li: int, sg: SelectedGradient, m: PointV) -> bool {
    &&& session_from_hit(sg, layers[li], m)
    &&& forall|lj: int| 0 <= lj < li ==> layer_cleared(#[trigger] layers[lj], m)
    &&& match sg.dragging {
        GradientDragTarget::Step(k) => forall|kk: int|
            0 <= kk < k ==> !(#[trigger] stop_hit_fits(layers[li], kk, m) && stop_hit(
                layers[li],
                kk,
                m,
            )),
        GradientDragTarget::Start => forall|kk: int|
            !(#[trigger] stop_hit_fits(layers[li], kk, m) && stop_hit(layers[li], kk, m)),
        GradientDragTarget::End => (forall|kk: int|
            !(#[trigger] stop_hit_fits(layers[li], kk, m) && stop_hit(layers[li], kk, m))) && !(
        endpoint_hit_fits(layers[li], true, m) && endpoint_hit(layers[li], true, m)),
    }
}

/// Hit-test the layers' stop markers and endpoint handles against the
/// pointer, stops before endpoints within each layer, the first match
/// winning. A returned session always comes from a real hit; `None` means
/// every handle whose exact arithmetic fits the carrier genuinely missed.
#[verifier::loop_isolation(false)]
fn hit_test(layers: &Vec<Layer>, mouse: &Point) -> (r: Option<SelectedGradient>)
    requires
        forall|i: int| 0 <= i < layers@.len() ==> (#[trigger] layers@[i]).wf(),
        mouse.wf(),
    ensures
        match r {
            Some(sg) => sg.wf() && exists|li: int|
                0 <= li < layers@.len() && #[trigger] first_hit_at(layers@, li, sg, mouse@),
            None => forall|li: int|
                0 <= li < layers@.len() ==> layer_cleared(#[trigger] layers@[li], mouse@),
        },
{
    let mut li: usize = 0;
    while li < layers.len()
        invariant
            li <= layers@.len(),
            forall|i: int| 0 <= i < li ==> layer_cleared(#[trigger] layers@[i], mouse@),
        decreases layers@.len() - li,
    {
        let layer = &layers[li];
        let has_gradient = match &layer.gradient {
            Some(_) => true,
            None => false,
        };
        if has_gradient {
            let t = match gradient_space_transform(layer) {
                Some(v) => v,
                None => {
                    li = li + 1;
                    continue ;
                },
            };
            let g = match &layer.gradient {
                Some(g) => g,
                None => {
                    li = li + 1;
                    continue ;
                },
            };
            proof {
                lemma_scales_refl(g.start@.x);
                lemma_scales_refl(g.start@.y);
                lemma_scales_refl(g.end@.x);
                lemma_scales_refl(g.end@.y);
            }
            let mut k: usize = 0;
            while k < g.stops.len()
                invariant
                    k <= g.stops@.len(),
                    li < layers@.len(),
                    layers@[li as int].gradient == Some(*g),
                    g.wf(),
                    t.wf(),
                    af_scales(t@, layer_gst(layers@[li as int])),
                    forall|kk: int|
                        0 <= kk < k ==> !(#[trigger] stop_hit_fits(
                            layers@[li as int],
                            kk,
                            mouse@,
                        ) && stop_hit(layers@[li as int], kk, mouse@)),
                decreases g.stops@.len() - k,
            {
                let lp = match lerp_point(&g.start, &g.end, &g.stops[k].position) {
                    Some(v) => v,
                    None => {
                        k = k + 1;
                        continue ;
                    },
                };
                let h = point_hit(
                    &t,
                    Ghost(layer_gst(layers@[li as int])),
                    &lp,
                    Ghost(pt_lerp_v(g.start@, g.end@, g.stops@[k as int].position@)),
                    mouse,
                );
                if h {
                    let sg = SelectedGradient {
                        layer: Some(layer.id),
                        transform: t,
                        gradient: copy_gradient(g),
                        dragging: GradientDragTarget::Step(k),
                    };
                    proof {
                        assert(first_hit_at(layers@, li as int, sg, mouse@));
                    }
                    return Some(sg);
                }
                k = k + 1;
            }
            let hs = point_hit(
                &t,
                Ghost(layer_gst(layers@[li as int])),
                &g.start,
                Ghost(g.start@),
                mouse,
            );
            if hs {
                let sg = SelectedGradient {
                    layer: Some(layer.id),
                    transform: t,
                    gradient: copy_gradient(g),
                    dragging: GradientDragTarget::Start,
                };
                proof {
                    assert(first_hit_at(layers@, li as int, sg, mouse@));
                }
                return Some(sg);
            }
            let he = point_hit(
                &t,
                Ghost(layer_gst(layers@[li as int])),
                &g.end,
                Ghost(g.end@),
                mouse,
            );
            if he {
                let sg = SelectedGradient {
                    layer: Some(layer.id),
                    transform: t,
                    gradient: copy_gradient(g),
                    dragging: GradientDragTarget::End,
                };
                proof {
                    assert(first_hit_at(layers@, li as int, sg, mouse@));
                }
                return Some(sg);
            }
        }
        li = li + 1;
    }
    None
}

/// After appending `x` and then possibly more requests, the original list
/// is still the prefix and `x` sits right after it.
proof fn lemma_prefix_after_push(
    pre: Seq<ToolResponse>,
    mid: Seq<ToolResponse>,
    cur: Seq<ToolResponse>,
    x: ToolResponse,
)
    requires
        mid == pre.push(x),
        cur.len() >= mid.len(),
        cur.subrange(0, mid.len() as int) == mid,
    ensures
        cur.subrange(0, pre.len() as int) == pre,
        cur[pre.len() as int] == x,
        cur.len() > pre.len(),
{
    assert forall|i: int| 0 <= i < pre.len() implies cur[i] == pre[i] by {
        assert(cur.subrange(0, mid.len() as int)[i] == cur[i]);
    }
    assert(cur.subrange(0, pre.len() as int) =~= pre);
    assert(cur.subrange(0, mid.len() as int)[pre.len() as int] == cur[pre.len() as int]);
}

/// A draw request for the overlay pass.
pub open spec fn is_overlay(r: ToolResponse) -> bool {
    ||| r matches ToolResponse::OverlayLine { .. }
    ||| r matches ToolResponse::OverlayHandle { .. }
}

/// The stop index a delete acts on, per drag target.
pub open spec fn delete_index(sg: SelectedGradient) -> int {
    match sg.dragging {
        GradientDragTarget::Start => 0,
        GradientDragTarget::End => sg.gradient.stops@.len() - 1,
        GradientDragTarget::Step(i) => i as int,
    }
}

/// The pointer position a drag update uses: the angle-snapped position when
/// the snap modifier is held, an endpoint is dragged and the snapping
/// collaborator supplied one, else the raw pointer.
pub open spec fn effective_mouse(
    sg: SelectedGradient,
    ctx: EditorContext,
    constrain_axis: bool,
) -> PointV {
    if constrain_axis && !(sg.dragging matches GradientDragTarget::Step(_))
        && ctx.snapped_mouse is Some {
        ctx.snapped_mouse.unwrap()@
    } else {
        ctx.mouse@
    }
}

/// The arithmetic of starting a click session on layer `l` fits the
/// carrier: the gradient-space transform, its inverse and the gradient-space
/// image of the pointer are representable and the transform is nonsingular.
pub open spec fn click_session_fits(l: Layer, m: PointV) -> bool {
    &&& gradient_space_transform_fits(l.to_viewport@, l.bbox_min@, l.bbox_max@)
    &&& det_v(layer_gst(l)).num != 0
    &&& inverse_fits(layer_gst(l))
    &&& apply_fits(inverse_v(layer_gst(l)), m)
}

/// What a pointer press does. A fitting handle hit engages a drag on the
/// first matching handle; otherwise the click selects: nothing under the
/// pointer leaves everything alone, a raster click is ignored, and any
/// other layer is selected (if it was not) and given its existing gradient
/// or a fresh two-stop one from the global colors, with the start pinned at
/// the gradient-space image of the pointer. A transaction boundary begins
/// on every press, and a press never changes any fill.
pub open spec fn pointer_down_post(
    ctx: EditorContext,
    opts: GradientOptions,
    d0: GradientToolData,
    d1: GradientToolData,
    r0: Seq<ToolResponse>,
    r1: Seq<ToolResponse>,
    st: GradientToolFsmState,
) -> bool {
    &&& d1.drag_start == ctx.mouse
    &&& (forall|i: int|
        r0.len() <= i < r1.len() ==> !((#[trigger] r1[i]) matches ToolResponse::FillSet { .. }))
    &&& (hit_exists(ctx.layers@, ctx.mouse@) ==> st == GradientToolFsmState::Drawing
        && d1.selected_gradient is Some)
    &&& ({
        ||| {
            let sg = d1.selected_gradient.unwrap();
            &&& st == GradientToolFsmState::Drawing
            &&& d1.selected_gradient is Some
            &&& sg.wf()
            &&& exists|li: int|
                0 <= li < ctx.layers@.len() && #[trigger] first_hit_at(
                    ctx.layers@,
                    li,
                    sg,
                    ctx.mouse@,
                )
            &&& r1 == r0.push(ToolResponse::StartTransaction)
        }
        ||| {
            &&& (forall|li: int|
                0 <= li < ctx.layers@.len() ==> layer_cleared(#[trigger] ctx.layers@[li], ctx.mouse@))
            &&& match ctx.clicked {
                None => {
                    &&& st == GradientToolFsmState::Ready
                    &&& d1.selected_gradient == d0.selected_gradient
                    &&& r1 == r0.push(ToolResponse::StartTransaction)
                },
                Some(l) => {
                    if l.raster {
                        &&& st == GradientToolFsmState::Ready
                        &&& d1.selected_gradient == d0.selected_gradient
                        &&& r1 == r0.push(ToolResponse::StartTransaction)
                    } else {
                        &&& r1.last() == ToolResponse::StartTransaction
                        &&& r1.len() > r0.len()
                        &&& r1.subrange(0, r0.len() as int) == r0
                        &&& (!l.selected ==> r1.contains(ToolResponse::SelectLayer { layer: l.id }))
                        &&& (click_session_fits(l, ctx.mouse@) ==> st
                            == GradientToolFsmState::Drawing)
                        &&& (st == GradientToolFsmState::Drawing ==> {
                            let sg = d1.selected_gradient.unwrap();
                            let g = layer_gst(l);
                            &&& d1.selected_gradient is Some
                            &&& sg.wf()
                            &&& sg.layer == Some(l.id)
                            &&& sg.dragging == GradientDragTarget::End
                            &&& af_scales(sg.transform@, g)
                            &&& det_v(g).num != 0
                            &&& (l.gradient is None ==> sg.gradient.stops@.len() == 2
                                && sg.gradient.stops@[0].position@ == rat_zero_v()
                                && sg.gradient.stops@[0].color == ctx.secondary_color
                                && sg.gradient.stops@[1].position@ == rat_one_v()
                                && sg.gradient.stops@[1].color == ctx.primary_color
                                && sg.gradient.gradient_type == opts.gradient_type
                                && sg.gradient.end@ == (PointV { x: rat_one_v(), y: rat_one_v() }))
                            &&& (l.gradient is Some ==> sg.gradient.stops@
                                == l.gradient.unwrap().stops@ && sg.gradient.gradient_type
                                == l.gradient.unwrap().gradient_type && sg.gradient.end
                                == l.gradient.unwrap().end)
                            &&& pt_scales(sg.gradient.start@, apply_v(inverse_v(g), ctx.mouse@))
                        })
                        &&& (st == GradientToolFsmState::Ready ==> d1.selected_gradient
                            == d0.selected_gradient && !click_session_fits(l, ctx.mouse@))
                    }
                },
            }
        }
    })
}

/// What a release does: the transaction is committed; a release that never
/// engaged a handle starts a passive session on the clicked layer's
/// existing gradient — guaranteed whenever the layer's transform arithmetic
/// fits the carrier — and otherwise everything is left alone.
pub open spec fn pointer_up_post(
    ctx: EditorContext,
    d0: GradientToolData,
    d1: GradientToolData,
    r0: Seq<ToolResponse>,
    r1: Seq<ToolResponse>,
) -> bool {
    &&& d1.drag_start == d0.drag_start
    &&& r1 == r0.push(ToolResponse::CommitTransaction)
    &&& (d0.selected_gradient is Some ==> d1 == d0)
    &&& (d0.selected_gradient is None ==> match ctx.clicked {
        Some(l) => match l.gradient {
            Some(g) => {
                &&& (gradient_space_transform_fits(l.to_viewport@, l.bbox_min@, l.bbox_max@)
                    ==> d1.selected_gradient is Some)
                &&& match d1.selected_gradient {
                    Some(sg) => sg.wf() && sg.layer == Some(l.id) && gradient_same(sg.gradient, g)
                        && af_scales(sg.transform@, layer_gst(l)) && sg.dragging
                        == GradientDragTarget::End,
                    None => !gradient_space_transform_fits(
                        l.to_viewport@,
                        l.bbox_min@,
                        l.bbox_max@,
                    ),
                }
            },
            None => d1 == d0,
        },
        None => d1 == d0,
    })
}

/// What a drag update does: with no session only auto-panning is armed;
/// with a session, the drag target follows the effective pointer — a
/// dragged endpoint becomes the gradient-space image of the pointer, a
/// dragged stop is reprojected, resorted and stays the drag target — and
/// exactly one fill update is pushed before auto-panning is armed. When the
/// arithmetic fails ([`update_fails`]) the session is left alone.
pub open spec fn pointer_move_post(
    constrain_axis: bool,
    ctx: EditorContext,
    d0: GradientToolData,
    d1: GradientToolData,
    r0: Seq<ToolResponse>,
    r1: Seq<ToolResponse>,
) -> bool {
    &&& d1.drag_start == d0.drag_start
    &&& r1.len() > r0.len()
    &&& r1.last() == ToolResponse::ArmAutoPan
    &&& r1.subrange(0, r0.len() as int) == r0
    &&& match d0.selected_gradient {
        None => d1 == d0 && r1 == r0.push(ToolResponse::ArmAutoPan),
        Some(sg) => {
            let m = effective_mouse(sg, ctx, constrain_axis);
            let sg2 = d1.selected_gradient.unwrap();
            &&& d1.selected_gradient is Some
            &&& sg2.layer == sg.layer
            &&& sg2.transform == sg.transform
            &&& ({
                ||| (sg2 == sg && r1 == r0.push(ToolResponse::ArmAutoPan) && update_fails(sg, m))
                ||| {
                    &&& sg2.gradient.gradient_type == sg.gradient.gradient_type
                    &&& sg2.gradient.transform == sg.transform
                    &&& (sg.dragging == GradientDragTarget::Start ==> sg2.dragging == sg.dragging
                        && sg2.gradient.end == sg.gradient.end && sg2.gradient.stops@
                        == sg.gradient.stops@ && pt_scales(
                        sg2.gradient.start@,
                        apply_v(inverse_v(sg.transform@), m),
                    ))
                    &&& (sg.dragging == GradientDragTarget::End ==> sg2.dragging == sg.dragging
                        && sg2.gradient.start == sg.gradient.start && sg2.gradient.stops@
                        == sg.gradient.stops@ && pt_scales(
                        sg2.gradient.end@,
                        apply_v(inverse_v(sg.transform@), m),
                    ))
                    &&& (sg.dragging matches GradientDragTarget::Step(st) ==> {
                        let rem = sg.gradient.stops@.remove(st as int);
                        &&& sg2.gradient.start == sg.gradient.start
                        &&& sg2.gradient.end == sg.gradient.end
                        &&& (sg2.dragging matches GradientDragTarget::Step(ni) && ni
                            < sg2.gradient.stops@.len() && sg2.gradient.stops@ == rem.insert(
                            ni as int,
                            sg2.gradient.stops@[ni as int],
                        ) && sg2.gradient.stops@[ni as int].color
                            == sg.gradient.stops@[st as int].color && rat_scales(
                            sg2.gradient.stops@[ni as int].position@,
                            rat_clamp01_v(
                                project_v(
                                    apply_v(sg.transform@, sg.gradient.start@),
                                    apply_v(sg.transform@, sg.gradient.end@),
                                    m,
                                ),
                            ),
                        ))
                    })
                    &&& match sg.layer {
                        Some(id) => r1.len() == r0.len() + 2 && (r1[r0.len() as int]
                            matches ToolResponse::FillSet { layer, fill: Fill::Gradient(fg) }
                            && layer == id && gradient_same(fg, sg2.gradient)),
                        None => r1 == r0.push(ToolResponse::ArmAutoPan),
                    }
                }
            })
        },
    }
}

/// A layer accepts the insertion click: it carries a gradient, the click
/// passes the insertion rule ([`insert_allowed_v`]) over the layer's exact
/// geometry, and all of the unreduced arithmetic fits the carrier — the
/// condition under which an insert-stop event is guaranteed to succeed.
pub open spec fn layer_accepts_insert(l: Layer, m: PointV) -> bool {
    match l.gradient {
        Some(g) => {
            &&& gradient_space_transform_fits(l.to_viewport@, l.bbox_min@, l.bbox_max@)
            &&& crate::gradient::insert_fits(layer_gst(l), g.start@, g.end@, m)
            &&& insert_allowed_v(
                apply_v(layer_gst(l), g.start@),
                apply_v(layer_gst(l), g.end@),
                m,
            )
        },
        None => false,
    }
}

/// The result of a successful stop insertion at layer `li`: every earlier
/// layer rejected the click, the click was on the gradient line, and the
/// new session carries the layer's gradient with one stop inserted at its
/// sorted position — the clamped projection of the pointer, colored by its
/// neighbors — followed by a transaction boundary and the updated fill.
pub open spec fn insert_success_at(
    layers: Seq<Layer>,
    li: int,
    m: PointV,
    d1: GradientToolData,
    r0: Seq<ToolResponse>,
    r1: Seq<ToolResponse>,
) -> bool {
    let l = layers[li];
    let g = l.gradient.unwrap();
    let gr = layer_gst(l);
    let sv = apply_v(gr, g.start@);
    let ev = apply_v(gr, g.end@);
    let sg = d1.selected_gradient.unwrap();
    &&& l.gradient is Some
    &&& (forall|lj: int| 0 <= lj < li ==> !layer_accepts_insert(#[trigger] layers[lj], m))
    &&& insert_allowed_v(sv, ev, m)
    &&& d1.selected_gradient is Some
    &&& sg.wf()
    &&& sg.layer == Some(l.id)
    &&& af_scales(sg.transform@, gr)
    &&& sg.gradient.gradient_type == g.gradient_type
    &&& sg.gradient.start == g.start
    &&& sg.gradient.end == g.end
    &&& (sg.dragging matches GradientDragTarget::Step(i) && {
        let st = sg.gradient.stops@[i as int];
        &&& i <= g.stops@.len()
        &&& sg.gradient.stops@ == g.stops@.insert(i as int, st)
        &&& rat_scales(st.position@, rat_clamp01_v(project_v(sv, ev, m)))
        &&& (forall|j: int|
            0 <= j < i ==> rat_le_v((#[trigger] g.stops@[j]).position@, st.position@))
        &&& (i < g.stops@.len() ==> rat_lt_v(st.position@, g.stops@[i as int].position@))
        &&& insert_color_ok(g.stops@, i as int, st)
    })
    &&& r1.len() == r0.len() + 2
    &&& r1.subrange(0, r0.len() as int) == r0
    &&& r1[r0.len() as int] == ToolResponse::AddTransaction
    &&& (r1.last() matches ToolResponse::FillSet { layer, fill: Fill::Gradient(fg) } && layer
        == l.id && gradient_same(fg, sg.gradient))
}

/// What an insert-stop event does: either no layer accepts the click and
/// nothing changes, or the first accepting layer's insertion succeeds.
/// Success is owed: when some layer accepts ([`layer_accepts_insert`]), the
/// unchanged case is impossible.
pub open spec fn insert_stop_post(
    ctx: EditorContext,
    d0: GradientToolData,
    d1: GradientToolData,
    r0: Seq<ToolResponse>,
    r1: Seq<ToolResponse>,
) -> bool {
    &&& d1.drag_start == d0.drag_start
    &&& ({
        ||| (d1 == d0 && r1 == r0 && forall|li: int|
            0 <= li < ctx.layers@.len() ==> !layer_accepts_insert(
                #[trigger] ctx.layers@[li],
                ctx.mouse@,
            ))
        ||| exists|li: int|
            0 <= li < ctx.layers@.len() && #[trigger] insert_success_at(
                ctx.layers@,
                li,
                ctx.mouse@,
                d1,
                r0,
                r1,
            )
    })
}

/// The overlay geometry of a layer's gradient fits the carrier: its
/// transform and both transformed endpoints are representable, so its line
/// and endpoint handles are guaranteed to be drawn.
pub open spec fn overlay_layer_fits(l: Layer) -> bool {
    match l.gradient {
        Some(g) => {
            &&& gradient_space_transform_fits(l.to_viewport@, l.bbox_min@, l.bbox_max@)
            &&& apply_fits(layer_gst(l), g.start@)
            &&& apply_fits(layer_gst(l), g.end@)
        },
        None => false,
    }
}

/// Which handle of layer `l` the session is dragging, if any.
pub open spec fn session_target(d: GradientToolData, l: Layer) -> Option<GradientDragTarget> {
    match d.selected_gradient {
        Some(sg) => if sg.layer == Some(l.id) {
            Some(sg.dragging)
        } else {
            None::<GradientDragTarget>
        },
        None => None::<GradientDragTarget>,
    }
}

/// At index `j` the draw requests hold the layer's gradient line between
/// its transformed endpoints, then the start and end handle markers, each
/// highlighted exactly when the session drags it.
pub open spec fn overlay_emitted_at(
    l: Layer,
    d: GradientToolData,
    r1: Seq<ToolResponse>,
    j: int,
) -> bool {
    let g = l.gradient.unwrap();
    let sv = apply_v(layer_gst(l), g.start@);
    let ev = apply_v(layer_gst(l), g.end@);
    &&& l.gradient is Some
    &&& 0 <= j && j + 3 <= r1.len()
    &&& (r1[j] matches ToolResponse::OverlayLine { from, to } && pt_scales(from@, sv) && pt_scales(
        to@,
        ev,
    ))
    &&& (r1[j + 1] matches ToolResponse::OverlayHandle { position, selected } && pt_scales(
        position@,
        sv,
    ) && selected == (session_target(d, l) == Some(GradientDragTarget::Start)))
    &&& (r1[j + 2] matches ToolResponse::OverlayHandle { position, selected } && pt_scales(
        position@,
        ev,
    ) && selected == (session_target(d, l) == Some(GradientDragTarget::End)))
}

/// Later draw requests do not disturb an emitted overlay group.
proof fn lemma_overlay_stable(
    l: Layer,
    d: GradientToolData,
    r1: Seq<ToolResponse>,
    r2: Seq<ToolResponse>,
    j: int,
)
    requires
        overlay_emitted_at(l, d, r1, j),
        r1.len() <= r2.len(),
        r2.subrange(0, r1.len() as int) == r1,
    ensures
        overlay_emitted_at(l, d, r2, j),
{
    assert(r2.subrange(0, r1.len() as int)[j] == r2[j]);
    assert(r2.subrange(0, r1.len() as int)[j + 1] == r2[j + 1]);
    assert(r2.subrange(0, r1.len() as int)[j + 2] == r2[j + 2]);
}

/// The marker arithmetic of stop `k` fits the carrier.
pub open spec fn stop_marker_fits(l: Layer, k: int) -> bool {
    match l.gradient {
        Some(g) => pt_lerp_fits(
            apply_v(layer_gst(l), g.start@),
            apply_v(layer_gst(l), g.end@),
            g.stops@[k].position@,
        ),
        None => false,
    }
}

/// Stop `k` sits strictly inside the gradient span, so it gets a marker;
/// stops at the boundary positions coincide with the endpoint handles and
/// are skipped.
pub open spec fn stop_is_interior(l: Layer, k: int) -> bool {
    match l.gradient {
        Some(g) => !rat_eqv(g.stops@[k].position@, rat_zero_v()) && !rat_eqv(
            g.stops@[k].position@,
            rat_one_v(),
        ),
        None => false,
    }
}

/// At index `j` the draw requests hold stop `k`'s marker: the interpolated
/// viewport position, highlighted exactly when the session drags this stop.
pub open spec fn stop_marker_emitted_at(
    l: Layer,
    d: GradientToolData,
    r1: Seq<ToolResponse>,
    k: int,
    j: int,
) -> bool {
    let g = l.gradient.unwrap();
    let mpos = pt_lerp_v(
        apply_v(layer_gst(l), g.start@),
        apply_v(layer_gst(l), g.end@),
        g.stops@[k].position@,
    );
    &&& l.gradient is Some
    &&& 0 <= j < r1.len()
    &&& (r1[j] matches ToolResponse::OverlayHandle { position, selected } && pt_scales(
        position@,
        mpos,
    ) && selected == (session_target(d, l) == Some(GradientDragTarget::Step(k as usize))))
}

/// Later draw requests do not disturb an emitted stop marker.
proof fn lemma_marker_stable(
    l: Layer,
    d: GradientToolData,
    r1: Seq<ToolResponse>,
    r2: Seq<ToolResponse>,
    k: int,
    j: int,
)
    requires
        stop_marker_emitted_at(l, d, r1, k, j),
        r1.len() <= r2.len(),
        r2.subrange(0, r1.len() as int) == r1,
    ensures
        stop_marker_emitted_at(l, d, r2, k, j),
{
    assert(r2.subrange(0, r1.len() as int)[j] == r2[j]);
}

/// What an overlay refresh does: it appends draw requests only, and for
/// every layer whose gradient geometry fits the carrier it appends that
/// layer's line and endpoint handles ([`overlay_emitted_at`]); interior
/// stop markers follow each group, omitted only at the boundary positions
/// or on carrier overflow.
pub open spec fn overlays_post(
    ctx: EditorContext,
    d: GradientToolData,
    r0: Seq<ToolResponse>,
    r1: Seq<ToolResponse>,
) -> bool {
    &&& r1.len() >= r0.len()
    &&& r1.subrange(0, r0.len() as int) == r0
    &&& (forall|i: int| r0.len() <= i < r1.len() ==> is_overlay(#[trigger] r1[i]))
    &&& (ctx.layers@.len() == 0 ==> r1 == r0)
    &&& (forall|li: int|
        0 <= li < ctx.layers@.len() && overlay_layer_fits(#[trigger] ctx.layers@[li])
            ==> exists|j: int|
            r0.len() <= j && #[trigger] overlay_emitted_at(ctx.layers@[li], d, r1, j))
    &&& (forall|li: int, k: int|
        0 <= li < ctx.layers@.len() && overlay_layer_fits(ctx.layers@[li]) && 0 <= k
            < ctx.layers@[li].gradient.unwrap().stops@.len() && stop_is_interior(
            ctx.layers@[li],
            k,
        ) && #[trigger] stop_marker_fits(ctx.layers@[li], k) ==> exists|j: int|
            r0.len() <= j && #[trigger] stop_marker_emitted_at(ctx.layers@[li], d, r1, k, j))
}

/// What a delete-stop event does: with no session or fewer than two stops
/// nothing changes; otherwise a transaction boundary is emitted and the
/// stop named by the drag target is removed — a two-stop gradient collapses
/// to a solid fill of the other stop's color, more stops are remapped over
/// the preserved span ([`remap_v`] semantics, stated per stop) — and the
/// drag target returns to the end handle.
pub open spec fn delete_stop_post(
    d0: GradientToolData,
    d1: GradientToolData,
    r0: Seq<ToolResponse>,
    r1: Seq<ToolResponse>,
) -> bool {
    match d0.selected_gradient {
                None => d1 == d0 && r1 == r0,
                Some(sg) => {
                    let n = sg.gradient.stops@.len() as int;
                    let rem = sg.gradient.stops@.remove(delete_index(sg));
                    if n < 2 {
                        d1 == d0 && r1 == r0
                    } else {
                        {
                            let sg2 = d1.selected_gradient.unwrap();
                            &&& d1.selected_gradient is Some
                            &&& d1.drag_start == d0.drag_start
                            &&& sg2.layer == sg.layer
                            &&& sg2.transform == sg.transform
                            &&& r1.len() > r0.len()
                            &&& r1[r0.len() as int]
                                == ToolResponse::AddTransaction
                            &&& r1.subrange(0, r0.len() as int) == r0
                            &&& if n == 2 {
                                &&& sg2.gradient.stops@ == rem
                                &&& sg2.dragging == GradientDragTarget::End
                                &&& match sg.layer {
                                    Some(id) => r1.len() == r0.len()
                                        + 2 && r1.last() == (ToolResponse::FillSet {
                                        layer: id,
                                        fill: Fill::Solid(rem[0].color),
                                    }),
                                    None => r1.len() == r0.len() + 1,
                                }
                            } else {
                                ||| (sg2 == sg && r1.len() == r0.len()
                                    + 1 && !crate::gradient::delete_fits(
                                    sg.gradient.start@,
                                    sg.gradient.end@,
                                    rem,
                                ))
                                ||| {
                                    &&& sg2.dragging == GradientDragTarget::End
                                    &&& (rat_eqv(
                                        rem[0].position@,
                                        rem[rem.len() - 1].position@,
                                    ) ==> sg2.gradient.stops@ == rem && sg2.gradient.start
                                        == sg.gradient.start && sg2.gradient.end == sg.gradient.end)
                                    &&& (!rat_eqv(rem[0].position@, rem[rem.len() - 1].position@)
                                        ==> {
                                        let mn = rem[0].position@;
                                        let mx = rem[rem.len() - 1].position@;
                                        &&& sg2.gradient.stops@.len() == n - 1
                                        &&& pt_scales(
                                            sg2.gradient.start@,
                                            pt_lerp_v(sg.gradient.start@, sg.gradient.end@, mn),
                                        )
                                        &&& pt_scales(
                                            sg2.gradient.end@,
                                            pt_lerp_v(sg.gradient.start@, sg.gradient.end@, mx),
                                        )
                                        &&& forall|j: int|
                                            0 <= j < n - 1 ==> rat_scales(
                                                (
                                                #[trigger] sg2.gradient.stops@[j]).position@,
                                                crate::gradient::remap_v(rem[j].position@, mn, mx),
                                            ) && sg2.gradient.stops@[j].color == rem[j].color
                                    })
                                    &&& match sg.layer {
                                        Some(id) => r1.len() == r0.len() + 2 && (r1.last()
                                            matches ToolResponse::FillSet {
                                                layer,
                                                fill: Fill::Gradient(fg),
                                            } && layer == id && gradient_same(fg, sg2.gradient)),
                                        None => r1.len() == r0.len()
                                            + 1,
                                    }
                                }
                            }
                        }
                    }
                },
            }
}

/// What a pointer-outside-viewport event does: mid-drag, the auto-pan
/// shift (when the controller supplied one) moves only the cached
/// transform's translation, so the drag keeps tracking the pointer; in any
/// other state auto-panning is disarmed.
pub open spec fn pointer_outside_post(
    state: GradientToolFsmState,
    ctx: EditorContext,
    d0: GradientToolData,
    d1: GradientToolData,
    r0: Seq<ToolResponse>,
    r1: Seq<ToolResponse>,
) -> bool {
    &&& (state == GradientToolFsmState::Drawing ==> r1 == r0 && (match (
        d0.selected_gradient,
        ctx.pan_shift,
    ) {
        (Some(sg), Some(shift)) => {
            let sg2 = d1.selected_gradient.unwrap();
            ||| (d1.selected_gradient is Some && sg2.gradient == sg.gradient && sg2.layer
                == sg.layer && sg2.dragging == sg.dragging && sg2.transform.a == sg.transform.a
                && sg2.transform.b == sg.transform.b && sg2.transform.c == sg.transform.c
                && sg2.transform.d == sg.transform.d && rat_scales(
                sg2.transform.tx@,
                rat_add_v(sg.transform.tx@, shift.x@),
            ) && rat_scales(sg2.transform.ty@, rat_add_v(sg.transform.ty@, shift.y@)))
            ||| (d1 == d0 && (!rat_fits(rat_add_v(sg.transform.tx@, shift.x@)) || !rat_fits(
                rat_add_v(sg.transform.ty@, shift.y@),
            )))
        },
        _ => d1 == d0,
    }))
    &&& (state != GradientToolFsmState::Drawing ==> d1 == d0 && r1 == r0.push(
        ToolResponse::StopAutoPan,
    ))
}

/// One step of the state machine: the event falls, in the given state, to
/// the handler whose postcondition is named here; an event that does not
/// apply in the current state changes nothing. `rs` is the next state.
pub open spec fn transition_post(
    state: GradientToolFsmState,
    event: GradientToolMessage,
    ctx: EditorContext,
    opts: GradientOptions,
    d0: GradientToolData,
    d1: GradientToolData,
    r0: Seq<ToolResponse>,
    r1: Seq<ToolResponse>,
    rs: GradientToolFsmState,
) -> bool {
    match (state, event) {
        (_, GradientToolMessage::Overlays) => rs == state && d1 == d0 && overlays_post(
            ctx,
            d0,
            r0,
            r1,
        ),
        (GradientToolFsmState::Ready, GradientToolMessage::DeleteStop) => rs == state
            && delete_stop_post(d0, d1, r0, r1),
        (_, GradientToolMessage::InsertStop) => rs == state && insert_stop_post(
            ctx,
            d0,
            d1,
            r0,
            r1,
        ),
        (GradientToolFsmState::Ready, GradientToolMessage::PointerDown) => pointer_down_post(
            ctx,
            opts,
            d0,
            d1,
            r0,
            r1,
            rs,
        ),
        (GradientToolFsmState::Drawing, GradientToolMessage::PointerMove { constrain_axis }) => rs
            == GradientToolFsmState::Drawing && pointer_move_post(
            constrain_axis,
            ctx,
            d0,
            d1,
            r0,
            r1,
        ),
        (_, GradientToolMessage::PointerOutsideViewport { .. }) => rs == state
            && pointer_outside_post(state, ctx, d0, d1, r0, r1),
        (GradientToolFsmState::Drawing, GradientToolMessage::PointerUp) => rs
            == GradientToolFsmState::Ready && pointer_up_post(ctx, d0, d1, r0, r1),
        (GradientToolFsmState::Drawing, GradientToolMessage::Abort) => rs
            == GradientToolFsmState::Ready && d1 == d0 && r1 == r0.push(
            ToolResponse::AbortTransaction,
        ).push(ToolResponse::OverlayDraw),
        (_, GradientToolMessage::Abort) => rs == GradientToolFsmState::Ready && d1 == d0 && r1
            == r0,
        _ => rs == state && d1 == d0 && r1 == r0,
    }
}

/// The snapshot's first layer with this identity exists and is not raster:
/// the condition under which an options change retypes the live session. A
/// session layer missing from the snapshot is treated conservatively like a
/// raster layer and the kind update suppressed.
pub open spec fn first_layer_non_raster(layers: Seq<Layer>, id: u64) -> bool {
    exists|i: int|
        0 <= i < layers.len() && (#[trigger] layers[i]).id == id && !layers[i].raster && (forall|
            j: int,
        |
            0 <= j < i ==> (#[trigger] layers[j]).id != id)
}

/// What an options update does beside setting the default kind: with a
/// session on a non-raster layer the session's gradient kind is set and
/// exactly one updated fill is pushed (live preview of the kind change);
/// with no session, a layerless session, or a raster or missing layer,
/// nothing else happens.
pub open spec fn update_options_post(
    t: GradientType,
    ctx: EditorContext,
    d0: GradientToolData,
    d1: GradientToolData,
    r0: Seq<ToolResponse>,
    r1: Seq<ToolResponse>,
) -> bool {
    &&& d1.drag_start == d0.drag_start
    &&& match d0.selected_gradient {
        None => d1 == d0 && r1 == r0,
        Some(sg) => match sg.layer {
            None => d1 == d0 && r1 == r0,
            Some(id) => {
                if first_layer_non_raster(ctx.layers@, id) {
                    let sg2 = d1.selected_gradient.unwrap();
                    &&& d1.selected_gradient is Some
                    &&& sg2.layer == sg.layer
                    &&& sg2.transform == sg.transform
                    &&& sg2.dragging == sg.dragging
                    &&& sg2.gradient.gradient_type == t
                    &&& sg2.gradient.start == sg.gradient.start
                    &&& sg2.gradient.end == sg.gradient.end
                    &&& sg2.gradient.stops@ == sg.gradient.stops@
                    &&& sg2.gradient.transform == sg.transform
                    &&& r1.len() == r0.len() + 1
                    &&& r1.subrange(0, r0.len() as int) == r0
                    &&& (r1.last() matches ToolResponse::FillSet {
                        layer,
                        fill: Fill::Gradient(fg),
                    } && layer == id && gradient_same(fg, sg2.gradient))
                } else {
                    d1 == d0 && r1 == r0
                }
            },
        },
    }
}

impl GradientToolFsmState {
    /// Overlay refresh: see [`overlays_post`]. Emits the line, endpoint
    /// handles and interior stop markers for every selected visible layer
    /// carrying a gradient, highlighting the handle a session drags; a
    /// layer or marker whose exact arithmetic overflows the carrier is
    /// omitted rather than misplaced.
    #[verifier::loop_isolation(false)]
    pub fn on_overlays(
        self,
        tool_data: &GradientToolData,
        ctx: &EditorContext,
        responses: &mut Vec<ToolResponse>,
    ) -> (r: GradientToolFsmState)
        requires
            tool_data.wf(),
            ctx.wf(),
        ensures
            r == self,
            overlays_post(*ctx, *tool_data, old(responses)@, final(responses)@),
    {
        if ctx.layers.len() == 0 {
            proof {
                assert(responses@.subrange(0, responses@.len() as int) =~= responses@);
            }
            return self;
        }
        let ghost n0 = responses@.len() as int;
        let mut li: usize = 0;
        while li < ctx.layers.len()
            invariant
                li <= ctx.layers@.len(),
                responses@.len() >= n0,
                responses@.subrange(0, n0) == old(responses)@,
                forall|i: int| n0 <= i < responses@.len() ==> is_overlay(#[trigger] responses@[i]),
                forall|lj: int|
                    0 <= lj < li && overlay_layer_fits(#[trigger] ctx.layers@[lj]) ==> exists|j: int|
                        n0 <= j && #[trigger] overlay_emitted_at(
                            ctx.layers@[lj],
                            *tool_data,
                            responses@,
                            j,
                        ),
                forall|lj: int, kk: int|
                    0 <= lj < li && overlay_layer_fits(ctx.layers@[lj]) && 0 <= kk
                        < ctx.layers@[lj].gradient.unwrap().stops@.len() && stop_is_interior(
                        ctx.layers@[lj],
                        kk,
                    ) && #[trigger] stop_marker_fits(ctx.layers@[lj], kk) ==> exists|j: int|
                        n0 <= j && #[trigger] stop_marker_emitted_at(
                            ctx.layers@[lj],
                            *tool_data,
                            responses@,
                            kk,
                            j,
                        ),
            decreases ctx.layers@.len() - li,
        {
            let ghost rprev = responses@;
            let layer = &ctx.layers[li];
            let has_gradient = match &layer.gradient {
                Some(_) => true,
                None => false,
            };
            let mut emitted = false;
            let ghost mut jmark: int = 0;
            if has_gradient {
                let candidate = gradient_space_transform(layer);
                let ok = match &candidate {
                    Some(_) => true,
                    None => false,
                };
                if ok {
                    let t = match candidate {
                        Some(v) => v,
                        None => {
                            li = li + 1;
                            continue ;
                        },
                    };
                    let g = match &layer.gradient {
                        Some(g) => g,
                        None => {
                            li = li + 1;
                            continue ;
                        },
                    };
                    proof {
                        lemma_scales_refl(g.start@.x);
                        lemma_scales_refl(g.start@.y);
                        lemma_scales_refl(g.end@.x);
                        lemma_scales_refl(g.end@.y);
                        lemma_apply_scales(
                            t@,
                            layer_gst(ctx.layers@[li as int]),
                            g.start@,
                            g.start@,
                        );
                        lemma_apply_scales(t@, layer_gst(ctx.layers@[li as int]), g.end@, g.end@);
                    }
                    let svo = apply(&t, &g.start);
                    let evo = apply(&t, &g.end);
                    match (svo, evo) {
                        (Some(sv), Some(ev)) => {
                            proof {
                                let gr = layer_gst(ctx.layers@[li as int]);
                                lemma_scales_trans(
                                    sv@.x,
                                    apply_v(t@, g.start@).x,
                                    apply_v(gr, g.start@).x,
                                );
                                lemma_scales_trans(
                                    sv@.y,
                                    apply_v(t@, g.start@).y,
                                    apply_v(gr, g.start@).y,
                                );
                                lemma_scales_trans(
                                    ev@.x,
                                    apply_v(t@, g.end@).x,
                                    apply_v(gr, g.end@).x,
                                );
                                lemma_scales_trans(
                                    ev@.y,
                                    apply_v(t@, g.end@).y,
                                    apply_v(gr, g.end@).y,
                                );
                            }
                            let dragging: Option<GradientDragTarget> = match &tool_data.selected_gradient {
                                Some(sg) => match sg.layer {
                                    Some(id) => if id == layer.id {
                                        Some(sg.dragging)
                                    } else {
                                        None
                                    },
                                    None => None,
                                },
                                None => None,
                            };
                            proof {
                                assert(dragging == session_target(
                                    *tool_data,
                                    ctx.layers@[li as int],
                                ));
                                jmark = responses@.len() as int;
                            }
                            responses.push(ToolResponse::OverlayLine { from: sv, to: ev });
                            let start_selected = match dragging {
                                Some(GradientDragTarget::Start) => true,
                                _ => false,
                            };
                            responses.push(
                                ToolResponse::OverlayHandle {
                                    position: sv,
                                    selected: start_selected,
                                },
                            );
                            let end_selected = match dragging {
                                Some(GradientDragTarget::End) => true,
                                _ => false,
                            };
                            responses.push(
                                ToolResponse::OverlayHandle { position: ev, selected: end_selected },
                            );
                            emitted = true;
                            proof {
                                assert(overlay_emitted_at(
                                    ctx.layers@[li as int],
                                    *tool_data,
                                    responses@,
                                    jmark,
                                ));
                            }
                            let ghost rmark = responses@;
                            let zero = rat_zero();
                            let one = rat_one();
                            let mut k: usize = 0;
                            while k < g.stops.len()
                                invariant
                                    k <= g.stops@.len(),
                                    responses@.len() >= rmark.len(),
                                    responses@.subrange(0, rmark.len() as int) == rmark,
                                    forall|i: int|
                                        n0 <= i < responses@.len() ==> is_overlay(
                                            #[trigger] responses@[i],
                                        ),
                                    forall|kk: int|
                                        0 <= kk < k && overlay_layer_fits(
                                            ctx.layers@[li as int],
                                        ) && stop_is_interior(ctx.layers@[li as int], kk) && (
                                        #[trigger] stop_marker_fits(
                                            ctx.layers@[li as int],
                                            kk,
                                        )) ==> exists|j: int|
                                            n0 <= j && #[trigger] stop_marker_emitted_at(
                                                ctx.layers@[li as int],
                                                *tool_data,
                                                responses@,
                                                kk,
                                                j,
                                            ),
                                decreases g.stops@.len() - k,
                            {
                                let ghost rk = responses@;
                                let st = g.stops[k];
                                if !crate::rat::rat_eq(&st.position, &zero)
                                    && !crate::rat::rat_eq(&st.position, &one) {
                                    proof {
                                        let gr = layer_gst(ctx.layers@[li as int]);
                                        lemma_pt_lerp_scales(
                                            sv@,
                                            apply_v(gr, g.start@),
                                            ev@,
                                            apply_v(gr, g.end@),
                                            g.stops@[k as int].position@,
                                        );
                                    }
                                    let lpo = lerp_point(&sv, &ev, &st.position);
                                    match lpo {
                                        Some(lp) => {
                                            let step_selected = match dragging {
                                                Some(GradientDragTarget::Step(sk)) => sk == k,
                                                _ => false,
                                            };
                                            let ghost jm = responses@.len() as int;
                                            responses.push(
                                                ToolResponse::OverlayHandle {
                                                    position: lp,
                                                    selected: step_selected,
                                                },
                                            );
                                            proof {
                                                let gr = layer_gst(ctx.layers@[li as int]);
                                                lemma_scales_trans(
                                                    lp@.x,
                                                    pt_lerp_v(
                                                        sv@,
                                                        ev@,
                                                        g.stops@[k as int].position@,
                                                    ).x,
                                                    pt_lerp_v(
                                                        apply_v(gr, g.start@),
                                                        apply_v(gr, g.end@),
                                                        g.stops@[k as int].position@,
                                                    ).x,
                                                );
                                                lemma_scales_trans(
                                                    lp@.y,
                                                    pt_lerp_v(
                                                        sv@,
                                                        ev@,
                                                        g.stops@[k as int].position@,
                                                    ).y,
                                                    pt_lerp_v(
                                                        apply_v(gr, g.start@),
                                                        apply_v(gr, g.end@),
                                                        g.stops@[k as int].position@,
                                                    ).y,
                                                );
                                                assert(responses@.subrange(
                                                    0,
                                                    rmark.len() as int,
                                                ) =~= rmark);
                                                assert(stop_marker_emitted_at(
                                                    ctx.layers@[li as int],
                                                    *tool_data,
                                                    responses@,
                                                    k as int,
                                                    jm,
                                                ));
                                            }
                                        },
                                        None => {},
                                    }
                                }
                                proof {
                                    assert(responses@.subrange(0, rk.len() as int) =~= rk);
                                    assert forall|kk: int|
                                        0 <= kk < k + 1 && overlay_layer_fits(
                                            ctx.layers@[li as int],
                                        ) && stop_is_interior(ctx.layers@[li as int], kk) && (
                                        #[trigger] stop_marker_fits(
                                            ctx.layers@[li as int],
                                            kk,
                                        )) implies exists|j: int|
                                        n0 <= j && #[trigger] stop_marker_emitted_at(
                                            ctx.layers@[li as int],
                                            *tool_data,
                                            responses@,
                                            kk,
                                            j,
                                        ) by {
                                        if kk < k {
                                            let j = choose|j: int|
                                                n0 <= j && #[trigger] stop_marker_emitted_at(
                                                    ctx.layers@[li as int],
                                                    *tool_data,
                                                    rk,
                                                    kk,
                                                    j,
                                                );
                                            lemma_marker_stable(
                                                ctx.layers@[li as int],
                                                *tool_data,
                                                rk,
                                                responses@,
                                                kk,
                                                j,
                                            );
                                        }
                                    }
                                }
                                k = k + 1;
                            }
                            proof {
                                lemma_overlay_stable(
                                    ctx.layers@[li as int],
                                    *tool_data,
                                    rmark,
                                    responses@,
                                    jmark,
                                );
                            }
                        },
                        _ => {},
                    }
                }
            }
            proof {
                assert(responses@.subrange(0, rprev.len() as int) =~= rprev);
                assert forall|lj: int|
                    0 <= lj < li + 1 && overlay_layer_fits(
                        #[trigger] ctx.layers@[lj],
                    ) implies exists|j: int|
                    n0 <= j && #[trigger] overlay_emitted_at(
                        ctx.layers@[lj],
                        *tool_data,
                        responses@,
                        j,
                    ) by {
                    if lj < li {
                        let j = choose|j: int|
                            n0 <= j && #[trigger] overlay_emitted_at(
                                ctx.layers@[lj],
                                *tool_data,
                                rprev,
                                j,
                            );
                        lemma_overlay_stable(ctx.layers@[lj], *tool_data, rprev, responses@, j);
                    } else {
                        if overlay_layer_fits(ctx.layers@[lj]) {
                            assert(emitted);
                            assert(overlay_emitted_at(
                                ctx.layers@[lj],
                                *tool_data,
                                responses@,
                                jmark,
                            ));
                        }
                    }
                }
                assert forall|lj: int, kk: int|
                    0 <= lj < li + 1 && overlay_layer_fits(ctx.layers@[lj]) && 0 <= kk
                        < ctx.layers@[lj].gradient.unwrap().stops@.len() && stop_is_interior(
                        ctx.layers@[lj],
                        kk,
                    ) && #[trigger] stop_marker_fits(ctx.layers@[lj], kk) implies exists|j: int|
                    n0 <= j && #[trigger] stop_marker_emitted_at(
                        ctx.layers@[lj],
                        *tool_data,
                        responses@,
                        kk,
                        j,
                    ) by {
                    if lj < li {
                        let j = choose|j: int|
                            n0 <= j && #[trigger] stop_marker_emitted_at(
                                ctx.layers@[lj],
                                *tool_data,
                                rprev,
                                kk,
                                j,
                            );
                        lemma_marker_stable(ctx.layers@[lj], *tool_data, rprev, responses@, kk, j);
                    }
                }
            }
            li = li + 1;
        }
        self
    }

    /// Delete the dragged stop of the active session: a two-stop gradient
    /// collapses to a solid fill of the other stop's color, otherwise the
    /// span is preserved by remapping; a transaction boundary is emitted
    /// first. A session with fewer than two stops, or no session, changes
    /// nothing. After a successful delete the drag target returns to the
    /// end handle.
    pub fn on_delete_stop(
        self,
        tool_data: &mut GradientToolData,
        responses: &mut Vec<ToolResponse>,
    ) -> (r: GradientToolFsmState)
        requires
            old(tool_data).wf(),
        ensures
            r == self,
            final(tool_data).wf(),
            delete_stop_post(
                *old(tool_data),
                *final(tool_data),
                old(responses)@,
                final(responses)@,
            ),
    {
        let have_session = match &tool_data.selected_gradient {
            Some(_) => true,
            None => false,
        };
        if !have_session {
            return self;
        }
        let sg = match &tool_data.selected_gradient {
            Some(sg) => sg,
            None => { return self },
        };
        let n = sg.gradient.stops.len();
        if n < 2 {
            return self;
        }
        let index: usize = match sg.dragging {
            GradientDragTarget::Start => 0,
            GradientDragTarget::End => n - 1,
            GradientDragTarget::Step(i) => i,
        };
        let ghost pre = responses@;
        responses.push(ToolResponse::AddTransaction);
        let ghost mid = responses@;
        let mut sg2 = match tool_data.selected_gradient.take() {
            Some(v) => v,
            None => { return self },
        };
        let outcome = sg2.gradient.delete_stop(index);
        match outcome {
            DeleteOutcome::Solid(c) => {
                sg2.dragging = GradientDragTarget::End;
                match sg2.layer {
                    Some(id) => {
                        responses.push(ToolResponse::FillSet { layer: id, fill: Fill::Solid(c) });
                    },
                    None => {},
                }
                tool_data.selected_gradient = Some(sg2);
            },
            DeleteOutcome::Rescaled => {
                sg2.dragging = GradientDragTarget::End;
                sg2.render_gradient(responses);
                tool_data.selected_gradient = Some(sg2);
            },
            DeleteOutcome::Degenerate => {
                sg2.dragging = GradientDragTarget::End;
                sg2.render_gradient(responses);
                tool_data.selected_gradient = Some(sg2);
            },
            DeleteOutcome::Overflow => {
                tool_data.selected_gradient = Some(sg2);
            },
        }
        proof {
            assert(responses@.subrange(0, mid.len() as int) =~= mid);
            lemma_prefix_after_push(pre, mid, responses@, ToolResponse::AddTransaction);
        }
        self
    }

    /// Insert-stop: see [`insert_stop_post`]. The first layer that accepts
    /// the click wins and becomes the active session with the new stop as
    /// drag target; if no layer accepts, nothing changes.
    #[verifier::loop_isolation(false)]
    pub fn on_insert_stop(
        self,
        tool_data: &mut GradientToolData,
        ctx: &EditorContext,
        responses: &mut Vec<ToolResponse>,
    ) -> (r: GradientToolFsmState)
        requires
            old(tool_data).wf(),
            ctx.wf(),
        ensures
            r == self,
            final(tool_data).wf(),
            insert_stop_post(
                *ctx,
                *old(tool_data),
                *final(tool_data),
                old(responses)@,
                final(responses)@,
            ),
    {
        let mut li: usize = 0;
        while li < ctx.layers.len()
            invariant
                *tool_data == *old(tool_data),
                responses@ == old(responses)@,
                forall|lj: int|
                    0 <= lj < li ==> !layer_accepts_insert(#[trigger] ctx.layers@[lj], ctx.mouse@),
            decreases ctx.layers@.len() - li,
        {
            let layer = &ctx.layers[li];
            let has_gradient = match &layer.gradient {
                Some(_) => true,
                None => false,
            };
            if has_gradient {
                let t = match gradient_space_transform(layer) {
                    Some(v) => v,
                    None => {
                        li = li + 1;
                        continue ;
                    },
                };
                let g = match &layer.gradient {
                    Some(g) => g,
                    None => {
                        li = li + 1;
                        continue ;
                    },
                };
                proof {
                    lemma_insert_scales(
                        t@,
                        layer_gst(ctx.layers@[li as int]),
                        g.start@,
                        g.end@,
                        ctx.mouse@,
                    );
                }
                let mut gc = copy_gradient(g);
                match gc.insert_stop(&ctx.mouse, &t) {
                    Some(idx) => {
                        let ghost pre = responses@;
                        responses.push(ToolResponse::AddTransaction);
                        let ghost mid = responses@;
                        let mut sg = SelectedGradient {
                            layer: Some(layer.id),
                            transform: t,
                            gradient: gc,
                            dragging: GradientDragTarget::Step(idx),
                        };
                        sg.render_gradient(responses);
                        tool_data.selected_gradient = Some(sg);
                        proof {
                            lemma_prefix_after_push(
                                pre,
                                mid,
                                responses@,
                                ToolResponse::AddTransaction,
                            );
                            let sgf = final(tool_data).selected_gradient.unwrap();
                            let stf = sgf.gradient.stops@[idx as int];
                            lemma_scales_trans(
                                stf.position@,
                                rat_clamp01_v(
                                    project_v(
                                        apply_v(t@, g.start@),
                                        apply_v(t@, g.end@),
                                        ctx.mouse@,
                                    ),
                                ),
                                rat_clamp01_v(
                                    project_v(
                                        apply_v(layer_gst(ctx.layers@[li as int]), g.start@),
                                        apply_v(layer_gst(ctx.layers@[li as int]), g.end@),
                                        ctx.mouse@,
                                    ),
                                ),
                            );
                            assert(insert_success_at(
                                ctx.layers@,
                                li as int,
                                ctx.mouse@,
                                *final(tool_data),
                                old(responses)@,
                                final(responses)@,
                            ));
                        }
                        return self;
                    },
                    None => {},
                }
            }
            li = li + 1;
        }
        self
    }

    /// Release the drag: commit the transaction; a release that never
    /// engaged a handle instead starts a passive session on the clicked
    /// layer's existing gradient, if any. Always returns to the ready
    /// state.
    pub fn on_pointer_up(
        self,
        tool_data: &mut GradientToolData,
        ctx: &EditorContext,
        responses: &mut Vec<ToolResponse>,
    ) -> (r: GradientToolFsmState)
        requires
            old(tool_data).wf(),
            ctx.wf(),
        ensures
            r == GradientToolFsmState::Ready,
            final(tool_data).wf(),
            pointer_up_post(
                *ctx,
                *old(tool_data),
                *final(tool_data),
                old(responses)@,
                final(responses)@,
            ),
    {
        responses.push(ToolResponse::CommitTransaction);
        let was_dragging = match &tool_data.selected_gradient {
            Some(_) => true,
            None => false,
        };
        if !was_dragging {
            match &ctx.clicked {
                Some(layer) => {
                    match &layer.gradient {
                        Some(g) => {
                            match SelectedGradient::new(copy_gradient(g), layer) {
                                Some(sg) => {
                                    tool_data.selected_gradient = Some(sg);
                                },
                                None => {},
                            }
                        },
                        None => {},
                    }
                },
                None => {},
            }
        }
        GradientToolFsmState::Ready
    }

    /// Apply the auto-pan viewport shift to the cached transform's
    /// translation while a drag continues outside the viewport, so the drag
    /// keeps tracking the pointer; in any other state, disarm auto-panning.
    pub fn on_pointer_outside(
        self,
        tool_data: &mut GradientToolData,
        ctx: &EditorContext,
        responses: &mut Vec<ToolResponse>,
    ) -> (r: GradientToolFsmState)
        requires
            old(tool_data).wf(),
            ctx.wf(),
        ensures
            r == self,
            final(tool_data).wf(),
            pointer_outside_post(
                self,
                *ctx,
                *old(tool_data),
                *final(tool_data),
                old(responses)@,
                final(responses)@,
            ),
    {
        let drawing = match self {
            GradientToolFsmState::Drawing => true,
            GradientToolFsmState::Ready => false,
        };
        if drawing {
            match &ctx.pan_shift {
                Some(shift) => {
                    let have_session = match &tool_data.selected_gradient {
                        Some(_) => true,
                        None => false,
                    };
                    if have_session {
                        let mut sg = match tool_data.selected_gradient.take() {
                            Some(v) => v,
                            None => { return self },
                        };
                        match shift_translation(&sg.transform, shift) {
                            Some(t2) => {
                                sg.transform = t2;
                                tool_data.selected_gradient = Some(sg);
                            },
                            None => {
                                tool_data.selected_gradient = Some(sg);
                            },
                        }
                    }
                },
                None => {},
            }
            self
        } else {
            responses.push(ToolResponse::StopAutoPan);
            self
        }
    }

    /// Drag update: see [`pointer_move_post`]. The (possibly angle-snapped)
    /// pointer is fed to the active session's drag target, the updated fill
    /// is pushed, and auto-panning is armed; the drag keeps going.
    pub fn on_pointer_move(
        self,
        constrain_axis: bool,
        tool_data: &mut GradientToolData,
        ctx: &EditorContext,
        responses: &mut Vec<ToolResponse>,
    ) -> (r: GradientToolFsmState)
        requires
            old(tool_data).wf(),
            ctx.wf(),
        ensures
            r == GradientToolFsmState::Drawing,
            final(tool_data).wf(),
            pointer_move_post(
                constrain_axis,
                *ctx,
                *old(tool_data),
                *final(tool_data),
                old(responses)@,
                final(responses)@,
            ),
    {
        let have_session = match &tool_data.selected_gradient {
            Some(_) => true,
            None => false,
        };
        if have_session {
            let mut sg = match tool_data.selected_gradient.take() {
                Some(v) => v,
                None => {
                    responses.push(ToolResponse::ArmAutoPan);
                    proof {
                        assert(responses@.subrange(0, old(responses)@.len() as int) =~= old(
                            responses,
                        )@);
                    }
                    return GradientToolFsmState::Drawing;
                },
            };
            let is_step = match sg.dragging {
                GradientDragTarget::Step(_) => true,
                _ => false,
            };
            let use_snapped = constrain_axis && !is_step;
            let gt = sg.gradient.gradient_type;
            let updated: bool;
            if use_snapped {
                match &ctx.snapped_mouse {
                    Some(sm) => { updated = sg.update_gradient(sm, responses, gt) },
                    None => { updated = sg.update_gradient(&ctx.mouse, responses, gt) },
                }
            } else {
                updated = sg.update_gradient(&ctx.mouse, responses, gt);
            }
            let ghost mid = responses@;
            tool_data.selected_gradient = Some(sg);
            responses.push(ToolResponse::ArmAutoPan);
            proof {
                assert(responses@.subrange(0, old(responses)@.len() as int) =~= old(responses)@);
                if updated && mid.len() > old(responses)@.len() {
                    assert(responses@[old(responses)@.len() as int] == mid[old(
                        responses,
                    )@.len() as int]);
                    assert(mid[old(responses)@.len() as int] == mid.last());
                }
            }
            GradientToolFsmState::Drawing
        } else {
            responses.push(ToolResponse::ArmAutoPan);
            proof {
                assert(responses@.subrange(0, old(responses)@.len() as int) =~= old(responses)@);
            }
            GradientToolFsmState::Drawing
        }
    }

    /// Press: see [`pointer_down_post`]. Engage the first matching handle
    /// under the pointer, or fall back to click selection; a transaction
    /// begins on every press.
    pub fn on_pointer_down(
        self,
        tool_data: &mut GradientToolData,
        ctx: &EditorContext,
        tool_options: &GradientOptions,
        responses: &mut Vec<ToolResponse>,
    ) -> (r: GradientToolFsmState)
        requires
            old(tool_data).wf(),
            ctx.wf(),
        ensures
            final(tool_data).wf(),
            pointer_down_post(
                *ctx,
                *tool_options,
                *old(tool_data),
                *final(tool_data),
                old(responses)@,
                final(responses)@,
                r,
            ),
    {
        tool_data.drag_start = ctx.mouse;
        let hit = hit_test(&ctx.layers, &ctx.mouse);
        match hit {
            Some(sg) => {
                tool_data.selected_gradient = Some(sg);
                responses.push(ToolResponse::StartTransaction);
                return GradientToolFsmState::Drawing;
            },
            None => {},
        }
        match &ctx.clicked {
            None => {
                responses.push(ToolResponse::StartTransaction);
                GradientToolFsmState::Ready
            },
            Some(layer) => {
                if layer.raster {
                    responses.push(ToolResponse::StartTransaction);
                    return GradientToolFsmState::Ready;
                }
                if !layer.selected {
                    responses.push(ToolResponse::SelectLayer { layer: layer.id });
                }
                let base = match &layer.gradient {
                    Some(g) => copy_gradient(g),
                    None => Gradient::new(
                        Point::new(rat_zero(), rat_zero()),
                        ctx.secondary_color,
                        Point::new(rat_one(), rat_one()),
                        ctx.primary_color,
                        Affine::identity(),
                        tool_options.gradient_type,
                    ),
                };
                let ghost graw = layer_gst(*layer);
                let state = match SelectedGradient::new(base, layer) {
                    Some(sg0) => {
                        proof {
                            lemma_inverse_scales(sg0.transform@, graw);
                            if det_v(sg0.transform@).num != 0 {
                                lemma_scales_refl(ctx.mouse@.x);
                                lemma_scales_refl(ctx.mouse@.y);
                                lemma_apply_scales(
                                    inverse_v(sg0.transform@),
                                    inverse_v(graw),
                                    ctx.mouse@,
                                    ctx.mouse@,
                                );
                            }
                        }
                        let ghost t0 = sg0.transform@;
                        match sg0.with_gradient_start(&ctx.mouse) {
                            Some(sg1) => {
                                proof {
                                    lemma_scales_trans(
                                        sg1.gradient.start@.x,
                                        apply_v(inverse_v(t0), ctx.mouse@).x,
                                        apply_v(inverse_v(graw), ctx.mouse@).x,
                                    );
                                    lemma_scales_trans(
                                        sg1.gradient.start@.y,
                                        apply_v(inverse_v(t0), ctx.mouse@).y,
                                        apply_v(inverse_v(graw), ctx.mouse@).y,
                                    );
                                }
                                tool_data.selected_gradient = Some(sg1);
                                GradientToolFsmState::Drawing
                            },
                            None => GradientToolFsmState::Ready,
                        }
                    },
                    None => GradientToolFsmState::Ready,
                };
                let ghost pre = responses@;
                responses.push(ToolResponse::StartTransaction);
                proof {
                    if !layer.selected {
                        assert(responses@[pre.len() - 1] == (ToolResponse::SelectLayer {
                            layer: layer.id,
                        }));
                    }
                    assert(responses@.subrange(0, old(responses)@.len() as int) =~= old(
                        responses,
                    )@);
                }
                state
            },
        }
    }

    /// One step of the state machine: dispatch an event against the current
    /// state, as the event handlers above define it, and return the next
    /// state. Events that do not apply in the current state change nothing.
    pub fn transition(
        self,
        event: GradientToolMessage,
        tool_data: &mut GradientToolData,
        ctx: &EditorContext,
        tool_options: &GradientOptions,
        responses: &mut Vec<ToolResponse>,
    ) -> (r: GradientToolFsmState)
        requires
            old(tool_data).wf(),
            ctx.wf(),
        ensures
            final(tool_data).wf(),
            transition_post(
                self,
                event,
                *ctx,
                *tool_options,
                *old(tool_data),
                *final(tool_data),
                old(responses)@,
                final(responses)@,
                r,
            ),
    {
        match (self, event) {
            (_, GradientToolMessage::Overlays) => self.on_overlays(tool_data, ctx, responses),
            (GradientToolFsmState::Ready, GradientToolMessage::DeleteStop) => self.on_delete_stop(
                tool_data,
                responses,
            ),
            (_, GradientToolMessage::InsertStop) => self.on_insert_stop(tool_data, ctx, responses),
            (GradientToolFsmState::Ready, GradientToolMessage::PointerDown) => self
                .on_pointer_down(tool_data, ctx, tool_options, responses),
            (
                GradientToolFsmState::Drawing,
                GradientToolMessage::PointerMove { constrain_axis },
            ) => self.on_pointer_move(constrain_axis, tool_data, ctx, responses),
            (_, GradientToolMessage::PointerOutsideViewport { .. }) => self.on_pointer_outside(
                tool_data,
                ctx,
                responses,
            ),
            (GradientToolFsmState::Drawing, GradientToolMessage::PointerUp) => self.on_pointer_up(
                tool_data,
                ctx,
                responses,
            ),
            (GradientToolFsmState::Drawing, GradientToolMessage::Abort) => {
                responses.push(ToolResponse::AbortTransaction);
                responses.push(ToolResponse::OverlayDraw);
                GradientToolFsmState::Ready
            },
            (_, GradientToolMessage::Abort) => GradientToolFsmState::Ready,
            _ => self,
        }
    }

    /// Publish the input hints for the current state.
    pub fn update_hints(&self, responses: &mut Vec<ToolResponse>)
        ensures
            final(responses)@ == old(responses)@.push(
                ToolResponse::UpdateHints { drawing: *self == GradientToolFsmState::Drawing },
            ),
    {
        let drawing = match self {
            GradientToolFsmState::Drawing => true,
            GradientToolFsmState::Ready => false,
        };
        responses.push(ToolResponse::UpdateHints { drawing });
    }

    /// Publish the default cursor.
    pub fn update_cursor(&self, responses: &mut Vec<ToolResponse>)
        ensures
            final(responses)@ == old(responses)@.push(ToolResponse::UpdateCursorDefault),
    {
        responses.push(ToolResponse::UpdateCursorDefault);
    }
}

/// The editor-event wiring the tool advertises: which message an external
/// abort maps to, and which message the overlay pass sends.
#[derive(Clone, Copy, Debug, PartialEq, Eq, Structural)]
pub struct EventToMessageMap {
    pub tool_abort: Option<GradientToolMessage>,
    pub overlay_provider: Option<GradientToolMessage>,
}

/// The index of the first layer with the given identity.
fn find_layer(layers: &Vec<Layer>, id: u64) -> (r: Option<usize>)
    ensures
        match r {
            Some(i) => i < layers@.len() && layers@[i as int].id == id && forall|j: int|
                0 <= j < i ==> (#[trigger] layers@[j]).id != id,
            None => forall|j: int| 0 <= j < layers@.len() ==> (#[trigger] layers@[j]).id != id,
        },
{
    let mut i: usize = 0;
    while i < layers.len()
        invariant
            i <= layers@.len(),
            forall|j: int| 0 <= j < i ==> (#[trigger] layers@[j]).id != id,
        decreases layers@.len() - i,
    {
        if layers[i].id == id {
            return Some(i);
        }
        i = i + 1;
    }
    None
}

/// The gradient tool: its state machine, working data, and options.
#[derive(Clone, Debug)]
pub struct GradientTool {
    pub fsm_state: GradientToolFsmState,
    pub data: GradientToolData,
    pub options: GradientOptions,
}

impl GradientTool {
    pub open spec fn wf(&self) -> bool {
        self.data.wf()
    }

    /// The event wiring: an external abort becomes an abort message, and
    /// the overlay pass asks for an overlay refresh.
    pub fn event_to_message_map(&self) -> (r: EventToMessageMap)
        ensures
            r.tool_abort == Some(GradientToolMessage::Abort),
            r.overlay_provider == Some(GradientToolMessage::Overlays),
    {
        EventToMessageMap {
            tool_abort: Some(GradientToolMessage::Abort),
            overlay_provider: Some(GradientToolMessage::Overlays),
        }
    }

    /// The kind of the selected gradient, if a session is active.
    pub fn selected_gradient(&self) -> (r: Option<GradientType>)
        ensures
            r == match self.data.selected_gradient {
                Some(sg) => Some(sg.gradient.gradient_type),
                None => None::<GradientType>,
            },
    {
        match &self.data.selected_gradient {
            Some(sg) => Some(sg.gradient.gradient_type),
            None => None,
        }
    }

    /// The tool's icon identifier.
    pub fn icon_name(&self) -> (r: &'static str)
        ensures
            r@ == "GeneralGradientTool"@,
    {
        "GeneralGradientTool"
    }

    /// The tool's tooltip text.
    pub fn tooltip(&self) -> (r: &'static str)
        ensures
            r@ == "Gradient Tool"@,
    {
        "Gradient Tool"
    }

    /// Which entry of the kind radio row is selected: the session's kind if
    /// one is active, else the tool option.
    pub fn layout(&self) -> (radio_index: u32)
        ensures
            radio_index == (if (match self.data.selected_gradient {
                Some(sg) => sg.gradient.gradient_type,
                None => self.options.gradient_type,
            }) == GradientType::Radial {
                1u32
            } else {
                0u32
            }),
    {
        let shown = match &self.data.selected_gradient {
            Some(sg) => sg.gradient.gradient_type,
            None => self.options.gradient_type,
        };
        if shown == GradientType::Radial {
            1
        } else {
            0
        }
    }

    /// Process one message: an options update changes the default kind and,
    /// when a session is active on a non-raster layer, retypes and re-pushes
    /// its fill immediately; every other message steps the state machine.
    pub fn process_message(
        &mut self,
        message: GradientToolMessage,
        ctx: &EditorContext,
        responses: &mut Vec<ToolResponse>,
    )
        requires
            old(self).wf(),
            ctx.wf(),
        ensures
            final(self).wf(),
            match message {
                GradientToolMessage::UpdateOptions(GradientOptionsUpdate::Type(t)) => {
                    &&& final(self).options.gradient_type == t
                    &&& final(self).fsm_state == old(self).fsm_state
                    &&& update_options_post(
                        t,
                        *ctx,
                        old(self).data,
                        final(self).data,
                        old(responses)@,
                        final(responses)@,
                    )
                },
                _ => final(self).options == old(self).options && transition_post(
                    old(self).fsm_state,
                    message,
                    *ctx,
                    old(self).options,
                    old(self).data,
                    final(self).data,
                    old(responses)@,
                    final(responses)@,
                    final(self).fsm_state,
                ),
            },
    {
        match message {
            GradientToolMessage::UpdateOptions(GradientOptionsUpdate::Type(t)) => {
                self.options.gradient_type = t;
                let have_session = match &self.data.selected_gradient {
                    Some(sg) => match sg.layer {
                        Some(_) => true,
                        None => false,
                    },
                    None => false,
                };
                if have_session {
                    let mut sg = match self.data.selected_gradient.take() {
                        Some(v) => v,
                        None => { return },
                    };
                    let id = match sg.layer {
                        Some(id) => id,
                        None => {
                            self.data.selected_gradient = Some(sg);
                            return ;
                        },
                    };
                    let found = find_layer(&ctx.layers, id);
                    let raster = match found {
                        Some(i) => ctx.layers[i].raster,
                        None => true,
                    };
                    proof {
                        if raster && first_layer_non_raster(ctx.layers@, id) {
                            let iw = choose|iw: int|
                                0 <= iw < ctx.layers@.len() && (#[trigger] ctx.layers@[iw]).id
                                    == id && !ctx.layers@[iw].raster && (forall|j: int|
                                    0 <= j < iw ==> (#[trigger] ctx.layers@[j]).id != id);
                            match found {
                                Some(i) => {
                                    assert(ctx.layers@[iw as int].id == id);
                                    assert(ctx.layers@[i as int].id == id);
                                    assert(iw == i);
                                    assert(false);
                                },
                                None => {
                                    assert(ctx.layers@[iw as int].id == id);
                                    assert(false);
                                },
                            }
                        }
                        if !raster {
                            let i = found.unwrap();
                            assert(forall|j: int|
                                0 <= j < i ==> (#[trigger] ctx.layers@[j]).id != id);
                            assert(first_layer_non_raster(ctx.layers@, id));
                        }
                    }
                    if !raster {
                        sg.gradient.gradient_type = t;
                        sg.render_gradient(responses);
                    }
                    self.data.selected_gradient = Some(sg);
                }
            },
            _ => {
                let next = self.fsm_state.transition(
                    message,
                    &mut self.data,
                    ctx,
                    &self.options,
                    responses,
                );
                self.fsm_state = next;
            },
        }
    }
}

} // verus!
