use processing::scalar::Scalar;
use processing::transform::{TransformOp, TransformStack};
use std::f32::consts::PI;

const EPSILON: f32 = 1e-5;

fn approx_eq(a: f32, b: f32) -> bool {
    (a - b).abs() < EPSILON
}

fn sc(v: f32) -> Scalar {
    Scalar::from_bits(v.to_bits())
}

fn f(v: Scalar) -> f32 {
    f32::from_bits(v.bits)
}

/// Maps a point of the local frame to the canvas: the last delta applies first.
fn transform_point_2d(stack: &TransformStack, x: f32, y: f32) -> (f32, f32) {
    let mut p = (x, y);
    for op in stack.current().iter().rev() {
        p = match *op {
            TransformOp::Translate { x, y, .. } => (p.0 + f(x), p.1 + f(y)),
            TransformOp::RotateZ { angle } => {
                let (sin, cos) = f(angle).sin_cos();
                (p.0 * cos - p.1 * sin, p.0 * sin + p.1 * cos)
            }
            TransformOp::Scale { x, y, .. } => (p.0 * f(x), p.1 * f(y)),
            TransformOp::ShearX { angle } => (p.0 + f(angle).tan() * p.1, p.1),
            TransformOp::ShearY { angle } => (p.0, p.1 + f(angle).tan() * p.0),
            _ => panic!("not a planar operation"),
        };
    }
    p
}

#[test]
fn test_identity() {
    let stack = TransformStack::new();
    let (x, y) = transform_point_2d(&stack, 10.0, 20.0);
    assert!(approx_eq(x, 10.0));
    assert!(approx_eq(y, 20.0));
}

#[test]
fn test_translate() {
    let mut stack = TransformStack::new();
    stack.translate(sc(100.0), sc(50.0));
    let (x, y) = transform_point_2d(&stack, 10.0, 20.0);
    assert!(approx_eq(x, 110.0));
    assert!(approx_eq(y, 70.0));
}

#[test]
fn test_scale() {
    let mut stack = TransformStack::new();
    stack.scale(sc(2.0), sc(3.0));
    let (x, y) = transform_point_2d(&stack, 10.0, 10.0);
    assert!(approx_eq(x, 20.0));
    assert!(approx_eq(y, 30.0));
}

#[test]
fn test_rotate_90() {
    let mut stack = TransformStack::new();
    stack.rotate(sc(PI / 2.0));
    let (x, y) = transform_point_2d(&stack, 10.0, 0.0);
    assert!(approx_eq(x, 0.0));
    assert!(approx_eq(y, 10.0));
}

#[test]
fn test_push_pop() {
    let mut stack = TransformStack::new();
    stack.translate(sc(100.0), sc(100.0));
    stack.push();
    stack.translate(sc(50.0), sc(50.0));

    let (x, y) = transform_point_2d(&stack, 0.0, 0.0);
    assert!(approx_eq(x, 150.0));
    assert!(approx_eq(y, 150.0));

    stack.pop();

    let (x, y) = transform_point_2d(&stack, 0.0, 0.0);
    assert!(approx_eq(x, 100.0));
    assert!(approx_eq(y, 100.0));
}

#[test]
fn test_pop_empty_is_noop() {
    let mut stack = TransformStack::new();
    stack.translate(sc(50.0), sc(50.0));
    stack.pop();
    let (x, y) = transform_point_2d(&stack, 0.0, 0.0);
    assert!(approx_eq(x, 50.0));
    assert!(approx_eq(y, 50.0));
}

#[test]
fn translation_from_identity_is_the_offset() {
    let mut stack = TransformStack::new();
    stack.rotate(sc(1.0));
    stack.reset();
    stack.translate(sc(-3.5), sc(7.0));
    assert_eq!(
        stack.current(),
        vec![TransformOp::Translate { x: sc(-3.5), y: sc(7.0), z: sc(0.0) }]
    );
    let (x, y) = transform_point_2d(&stack, 0.0, 0.0);
    assert!(approx_eq(x, -3.5));
    assert!(approx_eq(y, 7.0));
}

#[test]
fn push_translate_pop_restores_the_origin() {
    let mut stack = TransformStack::new();
    stack.push();
    stack.translate(sc(12.0), sc(-4.0));
    stack.pop();
    assert!(stack.current().is_empty());
    let (x, y) = transform_point_2d(&stack, 0.0, 0.0);
    assert!(approx_eq(x, 0.0));
    assert!(approx_eq(y, 0.0));
}

#[test]
fn deltas_apply_in_the_local_frame() {
    let mut stack = TransformStack::new();
    stack.translate(sc(10.0), sc(0.0));
    stack.scale(sc(2.0), sc(2.0));
    stack.shear_x(sc(0.0));
    stack.shear_y(sc(0.0));
    let (x, y) = transform_point_2d(&stack, 1.0, 1.0);
    assert!(approx_eq(x, 12.0));
    assert!(approx_eq(y, 2.0));
    stack.scale_uniform(sc(0.5));
    assert_eq!(stack.current().len(), 5);
}
