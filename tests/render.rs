use processing::command::{Color, DrawCommand, Radii};
use processing::material::{AlphaMode, MaterialKey, Materialized};
use processing::render::{
    flush_draw_commands, DrawableKind, RenderState, Resources, TessellationMode,
};
use processing::scalar::Scalar;
use processing::transform::TransformOp;

fn s(v: f32) -> Scalar {
    Scalar::from_bits(v.to_bits())
}

fn color(r: f32, g: f32, b: f32, a: f32) -> Color {
    Color::rgba(s(r), s(g), s(b), s(a))
}

fn square(x: f32, y: f32, size: f32) -> DrawCommand {
    let zero = s(0.0);
    DrawCommand::Rect {
        x: s(x),
        y: s(y),
        w: s(size),
        h: s(size),
        radii: Radii { top_left: zero, top_right: zero, bottom_right: zero, bottom_left: zero },
    }
}

fn no_resources() -> Resources {
    Resources { images: vec![], geometries: vec![], materials: vec![] }
}

fn opaque() -> MaterialKey {
    MaterialKey::Color { transparent: false, background_image: None }
}

fn translucent() -> MaterialKey {
    MaterialKey::Color { transparent: true, background_image: None }
}

#[test]
fn same_fill_rects_make_one_drawable() {
    let mut state = RenderState::new();
    let cmds = vec![DrawCommand::NoStroke, square(0.0, 0.0, 5.0), square(10.0, 0.0, 5.0), square(20.0, 0.0, 5.0)];
    let plan = flush_draw_commands(&mut state, &cmds, &no_resources());
    assert_eq!(plan.drawables.len(), 1);
    assert_eq!(plan.drawables[0].shapes.len(), 3);
    assert_eq!(plan.drawables[0].kind, DrawableKind::Batch);
    assert_eq!(plan.drawables[0].material, opaque());
}

#[test]
fn fill_change_of_translucency_makes_two_drawables() {
    let mut state = RenderState::new();
    let cmds = vec![
        DrawCommand::NoStroke,
        square(0.0, 0.0, 5.0),
        DrawCommand::Fill(color(1.0, 0.0, 0.0, 0.5)),
        square(2.0, 2.0, 5.0),
    ];
    let plan = flush_draw_commands(&mut state, &cmds, &no_resources());
    assert_eq!(plan.drawables.len(), 2);
    assert_eq!(plan.drawables[0].material, opaque());
    assert_eq!(plan.drawables[1].material, translucent());
}

#[test]
fn overlapping_rects_keep_draw_order() {
    let mut state = RenderState::new();
    let cmds = vec![
        DrawCommand::NoStroke,
        square(0.0, 0.0, 10.0),
        DrawCommand::Fill(color(0.0, 1.0, 0.0, 0.5)),
        square(2.0, 2.0, 10.0),
        DrawCommand::Fill(color(0.0, 0.0, 1.0, 1.0)),
        square(4.0, 4.0, 10.0),
    ];
    let plan = flush_draw_commands(&mut state, &cmds, &no_resources());
    assert_eq!(plan.drawables.len(), 3);
    let offsets: Vec<f32> = plan.drawables.iter().map(|d| -(d.draw_index as f32 * 0.001)).collect();
    assert!(offsets[0] > offsets[1]);
    assert!(offsets[1] > offsets[2]);
    assert_eq!(plan.drawables[0].shapes[0].x, s(0.0));
    assert_eq!(plan.drawables[2].shapes[0].x, s(4.0));
}

#[test]
fn white_then_red_scenario() {
    let mut state = RenderState::new();
    state.reset();
    let white = color(1.0, 1.0, 1.0, 1.0);
    let red = color(1.0, 0.0, 0.0, 1.0);
    let cmds = vec![
        DrawCommand::Fill(white),
        square(0.0, 0.0, 10.0),
        DrawCommand::Fill(red),
        square(20.0, 20.0, 10.0),
    ];
    let plan = flush_draw_commands(&mut state, &cmds, &no_resources());
    // Both fills are opaque, so they share a material key: one batch, with the shapes in
    // the order they were recorded.
    assert_eq!(plan.drawables.len(), 1);
    let shapes = &plan.drawables[0].shapes;
    assert_eq!(shapes.len(), 4);
    assert_eq!(shapes[0].color, white);
    assert_eq!(shapes[0].mode, TessellationMode::Fill);
    assert_eq!(shapes[1].color, Color::black());
    assert_eq!(shapes[1].mode, TessellationMode::Stroke(s(1.0)));
    assert_eq!(shapes[2].color, red);
    assert_eq!(shapes[2].x, s(20.0));
}

#[test]
fn white_then_translucent_red_scenario() {
    let mut state = RenderState::new();
    let white = color(1.0, 1.0, 1.0, 1.0);
    let red = color(1.0, 0.0, 0.0, 0.5);
    let cmds = vec![
        DrawCommand::NoStroke,
        DrawCommand::Fill(white),
        square(0.0, 0.0, 10.0),
        DrawCommand::Fill(red),
        square(20.0, 20.0, 10.0),
    ];
    let plan = flush_draw_commands(&mut state, &cmds, &no_resources());
    assert_eq!(plan.drawables.len(), 2);
    assert_eq!(plan.drawables[0].shapes[0].color, white);
    assert_eq!(plan.drawables[1].shapes[0].color, red);
    assert!(plan.drawables[1].draw_index > plan.drawables[0].draw_index);
    assert_eq!(plan.drawables[0].material, opaque());
    assert_eq!(plan.drawables[1].material, translucent());
}

#[test]
fn pushed_translation_applies_to_one_rect() {
    let mut state = RenderState::new();
    let cmds = vec![
        DrawCommand::PushMatrix,
        DrawCommand::Translate { x: s(100.0), y: s(0.0) },
        square(0.0, 0.0, 10.0),
        DrawCommand::PopMatrix,
        square(0.0, 0.0, 10.0),
    ];
    let plan = flush_draw_commands(&mut state, &cmds, &no_resources());
    assert_eq!(plan.drawables.len(), 2);
    assert_eq!(
        plan.drawables[0].transform,
        vec![TransformOp::Translate { x: s(100.0), y: s(0.0), z: s(0.0) }]
    );
    assert!(plan.drawables[1].transform.is_empty());
    assert_eq!(plan.drawables[0].shapes[0].x, s(0.0));
    assert_eq!(plan.drawables[1].shapes[0].x, s(0.0));
}

#[test]
fn state_persists_and_log_replays_in_order() {
    let mut state = RenderState::new();
    let cmds = vec![DrawCommand::NoFill, DrawCommand::StrokeWeight(s(4.0)), square(0.0, 0.0, 1.0)];
    let plan = flush_draw_commands(&mut state, &cmds, &no_resources());
    assert_eq!(state.fill_color, None);
    assert_eq!(state.stroke_weight, s(4.0));
    assert_eq!(plan.drawables.len(), 1);
    assert_eq!(plan.drawables[0].shapes.len(), 1);
    assert_eq!(plan.drawables[0].shapes[0].mode, TessellationMode::Stroke(s(4.0)));
    state.reset();
    assert_eq!(state.fill_color, Some(Color::white()));
    assert_eq!(state.stroke_color, Some(Color::black()));
}

#[test]
fn missing_handles_are_skipped() {
    let mut state = RenderState::new();
    let res = Resources { images: vec![7], geometries: vec![9], materials: vec![11] };
    let cmds = vec![
        DrawCommand::Geometry(1),
        DrawCommand::BackgroundImage(2),
        DrawCommand::Material(3),
        DrawCommand::Geometry(9),
        DrawCommand::BackgroundImage(7),
        DrawCommand::Material(11),
        square(0.0, 0.0, 1.0),
    ];
    let plan = flush_draw_commands(&mut state, &cmds, &res);
    assert_eq!(plan.skipped, vec![0, 1, 2]);
    assert_eq!(plan.drawables.len(), 3);
    assert_eq!(plan.drawables[0].kind, DrawableKind::Geometry(9));
    assert_eq!(
        plan.drawables[1].kind,
        DrawableKind::Background { color: Color::white(), image: Some(7) }
    );
    assert_eq!(plan.drawables[2].material, MaterialKey::Custom(11));
    assert_eq!(state.material_key, MaterialKey::Custom(11));
}

#[test]
fn meshes_and_backgrounds_stand_alone() {
    let mut state = RenderState::new();
    let cmds = vec![
        square(0.0, 0.0, 1.0),
        DrawCommand::BackgroundColor(color(0.0, 0.0, 0.0, 1.0)),
        square(0.0, 0.0, 1.0),
        DrawCommand::Box { width: s(1.0), height: s(2.0), depth: s(3.0) },
        DrawCommand::Sphere { radius: s(1.0), sectors: 8, stacks: 4 },
        square(0.0, 0.0, 1.0),
    ];
    let plan = flush_draw_commands(&mut state, &cmds, &no_resources());
    assert_eq!(plan.drawables.len(), 6);
    for (i, d) in plan.drawables.iter().enumerate() {
        assert_eq!(d.draw_index, i as u64);
    }
    assert_eq!(plan.drawables[1].shapes.len(), 0);
    assert!(matches!(plan.drawables[3].kind, DrawableKind::Box { .. }));
    assert!(matches!(plan.drawables[4].kind, DrawableKind::Sphere { sectors: 8, stacks: 4, .. }));
}

#[test]
fn keys_materialize() {
    match translucent().to_material() {
        Materialized::Create(d) => {
            assert!(d.unlit);
            assert_eq!(d.alpha_mode, AlphaMode::Blend);
            assert_eq!(d.texture, None);
        }
        Materialized::Existing(_) => panic!("a color key creates a material"),
    }
    match (MaterialKey::Color { transparent: false, background_image: Some(4) }).to_material() {
        Materialized::Create(d) => {
            assert_eq!(d.alpha_mode, AlphaMode::Opaque);
            assert_eq!(d.texture, Some(4));
        }
        Materialized::Existing(_) => panic!("a color key creates a material"),
    }
    assert_eq!(MaterialKey::Custom(5).to_material(), Materialized::Existing(5));
}

#[test]
fn transparency_follows_alpha() {
    assert!(!color(1.0, 1.0, 1.0, 1.0).is_transparent());
    assert!(color(1.0, 1.0, 1.0, 0.99).is_transparent());
    assert!(color(1.0, 1.0, 1.0, -0.0).is_transparent());
    assert!(!color(1.0, 1.0, 1.0, 2.0).is_transparent());
    assert!(!color(1.0, 1.0, 1.0, f32::NAN).is_transparent());
    assert!(color(1.0, 1.0, 1.0, f32::NEG_INFINITY).is_transparent());
}
