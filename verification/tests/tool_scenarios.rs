//! End-to-end scenarios through the interaction state machine: drawing a
//! gradient, angle-snapped drawing, double-click stop insertion, deleting
//! down to a solid fill, and raster immunity.

use gradient_tool::geom::{apply, inverse, Affine, Point};
use gradient_tool::gradient::{Color, Fill, Gradient, GradientType};
use gradient_tool::rat::{rat_eq, rat_int, rat_new, Rat};
use gradient_tool::tool::{
    EditorContext, GradientDragTarget, GradientOptions, GradientOptionsUpdate, GradientTool,
    GradientToolData, GradientToolFsmState, GradientToolMessage, Layer, SelectedGradient,
    ToolResponse,
};

const BLUE: Color = Color { red: 0, green: 0, blue: 255, alpha: 255 };
const GREEN: Color = Color { red: 0, green: 255, blue: 0, alpha: 255 };
fn pt(x: i64, y: i64) -> Point {
    Point::new(rat_int(x), rat_int(y))
}

fn approx(r: &Rat) -> f64 {
    r.num as f64 / r.den as f64
}

/// A rational within a billionth of the given float.
fn rat_from_f64(x: f64) -> Rat {
    rat_new((x * 1e9).round() as i64, 1_000_000_000)
}

fn rect_layer(id: u64) -> Layer {
    Layer {
        id,
        raster: false,
        selected: true,
        gradient: None,
        bbox_min: pt(-5, -3),
        bbox_max: pt(100, 100),
        to_viewport: Affine::identity(),
    }
}

fn ctx_with(layers: Vec<Layer>, clicked: Option<Layer>, mouse: Point) -> EditorContext {
    EditorContext {
        layers,
        clicked,
        mouse,
        snapped_mouse: None,
        pan_shift: None,
        primary_color: GREEN,
        secondary_color: BLUE,
    }
}

fn fresh_tool() -> GradientTool {
    GradientTool {
        fsm_state: GradientToolFsmState::Ready,
        data: GradientToolData { selected_gradient: None, drag_start: pt(0, 0) },
        options: GradientOptions { gradient_type: GradientType::Linear },
    }
}

fn no_fill_set(responses: &[ToolResponse]) -> bool {
    responses.iter().all(|r| !matches!(r, ToolResponse::FillSet { .. }))
}

#[test]
fn simple_draw() {
    let mut tool = fresh_tool();
    let mut responses: Vec<ToolResponse> = Vec::new();
    let layer = rect_layer(1);

    let down = ctx_with(vec![layer.clone()], Some(layer.clone()), pt(2, 3));
    tool.process_message(GradientToolMessage::PointerDown, &down, &mut responses);
    assert_eq!(tool.fsm_state, GradientToolFsmState::Drawing);

    let mv = ctx_with(vec![layer.clone()], Some(layer.clone()), pt(24, 4));
    tool.process_message(
        GradientToolMessage::PointerMove { constrain_axis: false },
        &mv,
        &mut responses,
    );
    tool.process_message(GradientToolMessage::PointerUp, &mv, &mut responses);
    assert_eq!(tool.fsm_state, GradientToolFsmState::Ready);

    let sg = tool.data.selected_gradient.as_ref().unwrap();
    // gradient goes from secondary color to primary color
    assert_eq!(sg.gradient.stops.len(), 2);
    assert_eq!(sg.gradient.stops[0].color, BLUE);
    assert_eq!(sg.gradient.stops[1].color, GREEN);
    assert!(rat_eq(&sg.gradient.stops[0].position, &rat_int(0)));
    assert!(rat_eq(&sg.gradient.stops[1].position, &rat_int(1)));
    // the transformed endpoints sit exactly under the drag
    let s = apply(&sg.transform, &sg.gradient.start).unwrap();
    let e = apply(&sg.transform, &sg.gradient.end).unwrap();
    assert!(rat_eq(&s.x, &rat_int(2)) && rat_eq(&s.y, &rat_int(3)));
    assert!(rat_eq(&e.x, &rat_int(24)) && rat_eq(&e.y, &rat_int(4)));
    // the updated fill was pushed
    assert!(responses.iter().any(|r| matches!(r, ToolResponse::FillSet { layer: 1, .. })));
}

#[test]
fn snap_simple_draw() {
    // the canvas is tilted 22.5 degrees; the drag runs 0,0 -> 24,4 with the
    // angle-snap modifier held, so the end lands 15 degrees from horizontal
    let tilt = 22.5f64.to_radians();
    let mut tool = fresh_tool();
    let mut responses: Vec<ToolResponse> = Vec::new();
    let mut layer = rect_layer(1);
    // a rational approximation of the tilt; the assertions below compare
    // viewport positions, where the tilt cancels exactly, so its grid can
    // be coarse
    let coarse = |x: f64| rat_new((x * 1000.0).round() as i64, 1000);
    layer.to_viewport = Affine {
        a: coarse(tilt.cos()),
        b: coarse(-tilt.sin()),
        c: coarse(tilt.sin()),
        d: coarse(tilt.cos()),
        tx: rat_int(0),
        ty: rat_int(0),
    };

    let down = ctx_with(vec![layer.clone()], Some(layer.clone()), pt(0, 0));
    tool.process_message(GradientToolMessage::PointerDown, &down, &mut responses);
    assert_eq!(tool.fsm_state, GradientToolFsmState::Drawing);

    // the angle-snapping collaborator: pivot on the non-dragged endpoint,
    // snap the direction to the nearest multiple of 15 degrees
    let anchor = tool.data.selected_gradient.as_ref().unwrap().rotation_anchor().unwrap();
    let (ax, ay) = (approx(&anchor.x), approx(&anchor.y));
    let (mx, my) = (24.0f64, 4.0f64);
    let (dx, dy) = (ax - mx, ay - my);
    let length = dx.hypot(dy);
    let step = 15.0f64.to_radians();
    let angle = (dy.atan2(dx) / step).round() * step;
    let snapped = Point::new(
        rat_from_f64(ax - length * angle.cos()),
        rat_from_f64(ay - length * angle.sin()),
    );

    let mut mv = ctx_with(vec![layer.clone()], Some(layer.clone()), pt(24, 4));
    mv.snapped_mouse = Some(snapped);
    tool.process_message(
        GradientToolMessage::PointerMove { constrain_axis: true },
        &mv,
        &mut responses,
    );

    let sg = tool.data.selected_gradient.as_ref().unwrap();
    let s = apply(&sg.transform, &sg.gradient.start).unwrap();
    let e = apply(&sg.transform, &sg.gradient.end).unwrap();
    assert!(approx(&s.x).abs() < 1e-6 && approx(&s.y).abs() < 1e-6);
    let expect = 15.0f64.to_radians();
    let got_len = (approx(&e.x) - approx(&s.x)).hypot(approx(&e.y) - approx(&s.y));
    assert!((got_len - (24.0f64).hypot(4.0)).abs() < 1e-5);
    let got_angle = (approx(&e.y) - approx(&s.y)).atan2(approx(&e.x) - approx(&s.x));
    assert!((got_angle - expect).abs() < 1e-5);
}

#[test]
fn double_click_insert_stop() {
    // a rectangle already carrying the 2-stop gradient drawn 0,0 -> 100,0
    let mut layer = rect_layer(1);
    let mut tool = fresh_tool();
    let mut responses: Vec<ToolResponse> = Vec::new();
    let down = ctx_with(vec![layer.clone()], Some(layer.clone()), pt(0, 0));
    tool.process_message(GradientToolMessage::PointerDown, &down, &mut responses);
    let mv = ctx_with(vec![layer.clone()], Some(layer.clone()), pt(100, 0));
    tool.process_message(
        GradientToolMessage::PointerMove { constrain_axis: false },
        &mv,
        &mut responses,
    );
    let drawn = tool.data.selected_gradient.as_ref().unwrap().gradient.clone();
    assert_eq!(drawn.stops.len(), 2);
    layer.gradient = Some(drawn);

    // the double-click arrives as an insert-stop event at the midpoint
    let mut tool2 = fresh_tool();
    let mut responses2: Vec<ToolResponse> = Vec::new();
    let click = ctx_with(vec![layer.clone()], Some(layer.clone()), pt(50, 0));
    tool2.process_message(GradientToolMessage::InsertStop, &click, &mut responses2);

    let sg = tool2.data.selected_gradient.as_ref().unwrap();
    assert_eq!(sg.gradient.stops.len(), 3);
    assert!(matches!(sg.dragging, GradientDragTarget::Step(_)));
    let near_half = sg.gradient.stops.iter().any(|s| (approx(&s.position) - 0.5).abs() < 0.1);
    assert!(
        near_half,
        "expected a stop near position 0.5, found: {:?}",
        sg.gradient.stops.iter().map(|s| approx(&s.position)).collect::<Vec<_>>()
    );
    assert!(responses2.iter().any(|r| matches!(r, ToolResponse::AddTransaction)));
    assert!(responses2.iter().any(|r| matches!(r, ToolResponse::FillSet { layer: 1, .. })));
}

#[test]
fn delete_stop_on_two_stop_gradient_becomes_solid() {
    let mut tool = fresh_tool();
    let mut responses: Vec<ToolResponse> = Vec::new();
    let layer = rect_layer(1);
    let down = ctx_with(vec![layer.clone()], Some(layer.clone()), pt(2, 3));
    tool.process_message(GradientToolMessage::PointerDown, &down, &mut responses);
    let mv = ctx_with(vec![layer.clone()], Some(layer.clone()), pt(24, 4));
    tool.process_message(
        GradientToolMessage::PointerMove { constrain_axis: false },
        &mv,
        &mut responses,
    );
    tool.process_message(GradientToolMessage::PointerUp, &mv, &mut responses);

    // the drag target is the end handle, so its stop (the primary color)
    // goes and the secondary color remains
    responses.clear();
    tool.process_message(GradientToolMessage::DeleteStop, &mv, &mut responses);
    assert!(responses.iter().any(|r| matches!(r, ToolResponse::AddTransaction)));
    assert!(responses.iter().any(|r| matches!(
        r,
        ToolResponse::FillSet { layer: 1, fill: Fill::Solid(c) } if *c == BLUE
    )));
    assert_eq!(tool.data.selected_gradient.as_ref().unwrap().gradient.stops.len(), 1);
}

#[test]
fn ignore_raster() {
    let mut tool = fresh_tool();
    let mut responses: Vec<ToolResponse> = Vec::new();
    let mut layer = rect_layer(1);
    layer.raster = true;
    let down = ctx_with(vec![layer.clone()], Some(layer.clone()), pt(2, 2));
    tool.process_message(GradientToolMessage::PointerDown, &down, &mut responses);
    assert_eq!(tool.fsm_state, GradientToolFsmState::Ready);
    assert!(tool.data.selected_gradient.is_none());
    // a transaction boundary begins on every press, a raster click included
    assert!(responses.iter().any(|r| matches!(r, ToolResponse::StartTransaction)));
    let mv = ctx_with(vec![layer.clone()], Some(layer.clone()), pt(4, 4));
    tool.process_message(
        GradientToolMessage::PointerMove { constrain_axis: false },
        &mv,
        &mut responses,
    );
    tool.process_message(GradientToolMessage::PointerUp, &mv, &mut responses);
    assert!(no_fill_set(&responses));
    assert!(tool.data.selected_gradient.is_none());
}

#[test]
fn options_update_retypes_live_session() {
    let mut tool = fresh_tool();
    let mut responses: Vec<ToolResponse> = Vec::new();
    let layer = rect_layer(1);
    let down = ctx_with(vec![layer.clone()], Some(layer.clone()), pt(2, 3));
    tool.process_message(GradientToolMessage::PointerDown, &down, &mut responses);
    responses.clear();
    tool.process_message(
        GradientToolMessage::UpdateOptions(GradientOptionsUpdate::Type(GradientType::Radial)),
        &down,
        &mut responses,
    );
    assert_eq!(tool.options.gradient_type, GradientType::Radial);
    assert_eq!(
        tool.data.selected_gradient.as_ref().unwrap().gradient.gradient_type,
        GradientType::Radial
    );
    assert!(responses.iter().any(|r| matches!(r, ToolResponse::FillSet { layer: 1, .. })));
    assert_eq!(tool.selected_gradient(), Some(GradientType::Radial));
}

#[test]
fn pointer_down_engages_nearby_handle() {
    // a layer already carrying a gradient whose end handle sits at (24, 4)
    let mut layer = rect_layer(1);
    let gst_inverse = {
        // gradient space spans the bounding box under the identity view
        let t = Affine {
            a: rat_int(105),
            b: rat_int(0),
            c: rat_int(0),
            d: rat_int(103),
            tx: rat_int(-5),
            ty: rat_int(-3),
        };
        inverse(&t).unwrap()
    };
    let start_gs = apply(&gst_inverse, &pt(2, 3)).unwrap();
    let end_gs = apply(&gst_inverse, &pt(24, 4)).unwrap();
    let g = Gradient::new(
        start_gs,
        BLUE,
        end_gs,
        GREEN,
        Affine::identity(),
        GradientType::Linear,
    );
    layer.gradient = Some(g);

    let mut tool = fresh_tool();
    let mut responses: Vec<ToolResponse> = Vec::new();
    // click 5 px from the end handle: inside the 12 px tolerance; stops are
    // tested before endpoints, so the boundary stop at that point wins
    let down = ctx_with(vec![layer.clone()], Some(layer.clone()), pt(27, 8));
    tool.process_message(GradientToolMessage::PointerDown, &down, &mut responses);
    assert_eq!(tool.fsm_state, GradientToolFsmState::Drawing);
    let sg = tool.data.selected_gradient.as_ref().unwrap();
    assert_eq!(sg.dragging, GradientDragTarget::Step(1));
    assert_eq!(sg.layer, Some(1));
    assert!(responses.iter().any(|r| matches!(r, ToolResponse::StartTransaction)));
}

#[test]
fn tool_metadata_and_layout_reflect_state() {
    let mut tool = fresh_tool();
    assert_eq!(tool.icon_name(), "GeneralGradientTool");
    assert_eq!(tool.tooltip(), "Gradient Tool");
    assert_eq!(tool.layout(), 0);
    tool.options.gradient_type = GradientType::Radial;
    assert_eq!(tool.layout(), 1);
    let mut responses: Vec<ToolResponse> = Vec::new();
    tool.fsm_state.update_hints(&mut responses);
    tool.fsm_state.update_cursor(&mut responses);
    assert!(matches!(responses[0], ToolResponse::UpdateHints { drawing: false }));
    assert!(matches!(responses[1], ToolResponse::UpdateCursorDefault));
}

#[test]
fn auto_pan_shifts_cached_transform_translation() {
    let mut tool = fresh_tool();
    let mut responses: Vec<ToolResponse> = Vec::new();
    let layer = rect_layer(1);
    let down = ctx_with(vec![layer.clone()], Some(layer.clone()), pt(2, 3));
    tool.process_message(GradientToolMessage::PointerDown, &down, &mut responses);
    let before = tool.data.selected_gradient.as_ref().unwrap().transform;

    let mut outside = ctx_with(vec![layer.clone()], Some(layer.clone()), pt(200, 3));
    outside.pan_shift = Some(pt(-10, 4));
    tool.process_message(
        GradientToolMessage::PointerOutsideViewport { constrain_axis: false },
        &outside,
        &mut responses,
    );
    let after = tool.data.selected_gradient.as_ref().unwrap().transform;
    let expected_tx = gradient_tool::rat::rat_add(&before.tx, &rat_int(-10)).unwrap();
    let expected_ty = gradient_tool::rat::rat_add(&before.ty, &rat_int(4)).unwrap();
    assert!(rat_eq(&after.tx, &expected_tx));
    assert!(rat_eq(&after.ty, &expected_ty));
    assert!(rat_eq(&after.a, &before.a));

    // outside the drag state, the same event only disarms auto-panning
    tool.process_message(GradientToolMessage::Abort, &outside, &mut responses);
    responses.clear();
    tool.process_message(
        GradientToolMessage::PointerOutsideViewport { constrain_axis: false },
        &outside,
        &mut responses,
    );
    assert!(matches!(responses[0], ToolResponse::StopAutoPan));
}

#[test]
fn abort_rolls_back_and_returns_to_ready() {
    let mut tool = fresh_tool();
    let mut responses: Vec<ToolResponse> = Vec::new();
    let layer = rect_layer(1);
    let down = ctx_with(vec![layer.clone()], Some(layer.clone()), pt(2, 3));
    tool.process_message(GradientToolMessage::PointerDown, &down, &mut responses);
    assert_eq!(tool.fsm_state, GradientToolFsmState::Drawing);
    responses.clear();
    tool.process_message(GradientToolMessage::Abort, &down, &mut responses);
    assert_eq!(tool.fsm_state, GradientToolFsmState::Ready);
    assert!(responses.iter().any(|r| matches!(r, ToolResponse::AbortTransaction)));
    assert!(responses.iter().any(|r| matches!(r, ToolResponse::OverlayDraw)));
}

#[test]
fn options_update_is_suppressed_on_raster_session() {
    // the session's layer has become raster in the snapshot: the default
    // kind still changes, but the session's gradient is left alone and no
    // fill update is pushed
    let mut raster = rect_layer(7);
    raster.raster = true;
    let mut tool = fresh_tool();
    tool.data.selected_gradient = Some(SelectedGradient {
        layer: Some(7),
        transform: Affine::identity(),
        gradient: Gradient::new(
            pt(0, 0),
            BLUE,
            pt(1, 1),
            GREEN,
            Affine::identity(),
            GradientType::Linear,
        ),
        dragging: GradientDragTarget::End,
    });
    let mut responses: Vec<ToolResponse> = Vec::new();
    let ctx = ctx_with(vec![raster.clone()], None, pt(0, 0));
    tool.process_message(
        GradientToolMessage::UpdateOptions(GradientOptionsUpdate::Type(GradientType::Radial)),
        &ctx,
        &mut responses,
    );
    assert_eq!(tool.options.gradient_type, GradientType::Radial);
    assert_eq!(
        tool.data.selected_gradient.as_ref().unwrap().gradient.gradient_type,
        GradientType::Linear
    );
    assert!(responses.is_empty());
}

#[test]
fn overlays_emit_interior_stop_marker_highlighted() {
    // a 3-stop gradient: the middle stop gets a marker, highlighted when
    // the session drags it
    let mut layer = rect_layer(1);
    let mut g = Gradient::new(
        pt(0, 0),
        BLUE,
        pt(100, 0),
        GREEN,
        Affine::identity(),
        GradientType::Linear,
    );
    g.insert_stop(&pt(52, 0), &layer.to_viewport).unwrap();
    assert_eq!(g.stops.len(), 3);
    let mut tool = fresh_tool();
    tool.data.selected_gradient = Some(SelectedGradient {
        layer: Some(1),
        transform: Affine::identity(),
        gradient: g.clone(),
        dragging: GradientDragTarget::Step(1),
    });
    layer.gradient = Some(g);
    let mut responses: Vec<ToolResponse> = Vec::new();
    let ctx = ctx_with(vec![layer.clone()], None, pt(0, 0));
    tool.process_message(GradientToolMessage::Overlays, &ctx, &mut responses);
    let handles: Vec<bool> = responses
        .iter()
        .filter_map(|r| match r {
            ToolResponse::OverlayHandle { selected, .. } => Some(*selected),
            _ => None,
        })
        .collect();
    // two endpoint handles and one interior marker, only the marker lit
    assert_eq!(handles, vec![false, false, true]);
}

#[test]
fn overlays_emit_line_and_handles() {
    let mut layer = rect_layer(1);
    let g = Gradient::new(
        pt(0, 0),
        BLUE,
        pt(1, 1),
        GREEN,
        Affine::identity(),
        GradientType::Linear,
    );
    layer.gradient = Some(g);
    let mut tool = fresh_tool();
    let mut responses: Vec<ToolResponse> = Vec::new();
    let ctx = ctx_with(vec![layer.clone()], None, pt(0, 0));
    tool.process_message(GradientToolMessage::Overlays, &ctx, &mut responses);
    let lines = responses.iter().filter(|r| matches!(r, ToolResponse::OverlayLine { .. })).count();
    let handles =
        responses.iter().filter(|r| matches!(r, ToolResponse::OverlayHandle { .. })).count();
    assert_eq!(lines, 1);
    // two endpoint handles; the boundary stops at 0 and 1 draw no marker
    assert_eq!(handles, 2);
    assert!(matches!(tool.fsm_state, GradientToolFsmState::Ready));
}

#[test]
fn raster_layers_never_receive_gradient_fills() {
    // even a full draw attempt over a raster-only document changes nothing
    let mut raster = rect_layer(7);
    raster.raster = true;
    let mut tool = fresh_tool();
    let mut responses: Vec<ToolResponse> = Vec::new();
    for (x, y) in [(2i64, 2i64), (4, 4)] {
        let ctx = ctx_with(vec![raster.clone()], Some(raster.clone()), pt(x, y));
        tool.process_message(GradientToolMessage::PointerDown, &ctx, &mut responses);
        tool.process_message(
            GradientToolMessage::PointerMove { constrain_axis: false },
            &ctx,
            &mut responses,
        );
        tool.process_message(GradientToolMessage::PointerUp, &ctx, &mut responses);
    }
    assert!(no_fill_set(&responses));
}
