use processing::canvas::Canvases;
use processing::codec::TextureFormat;
use processing::command::DrawCommand;
use processing::error::ProcessingError;
use processing::render::Resources;
use processing::scalar::Scalar;

fn empty_resources() -> Resources {
    Resources { images: vec![], geometries: vec![], materials: vec![] }
}

#[test]
fn recording_on_one_canvas_leaves_another_alone() {
    let mut canvases = Canvases::new();
    let a = canvases.create(100, 100, TextureFormat::Rgba16Float);
    let b = canvases.create(50, 50, TextureFormat::Rgba16Float);
    assert_ne!(a, b);
    canvases.record(a, DrawCommand::NoFill).unwrap();
    canvases.record(a, DrawCommand::Translate { x: Scalar::one(), y: Scalar::zero() }).unwrap();
    let (plan_b, _) = canvases.flush(b, &empty_resources()).unwrap();
    assert!(plan_b.drawables.is_empty());
    let (plan_a, retired) = canvases.flush(a, &empty_resources()).unwrap();
    assert!(plan_a.drawables.is_empty());
    assert!(retired.is_empty());
}

#[test]
fn unknown_canvases_are_errors() {
    let mut canvases = Canvases::new();
    assert_eq!(canvases.record(3, DrawCommand::NoFill), Err(ProcessingError::GraphicsNotFound));
    assert_eq!(canvases.begin_draw(0), Err(ProcessingError::GraphicsNotFound));
    assert!(matches!(canvases.flush(0, &empty_resources()), Err(ProcessingError::GraphicsNotFound)));
    assert!(canvases.can_create());
    let a = canvases.create(10, 10, TextureFormat::Rgba8Unorm);
    assert_eq!(canvases.destroy(a), Ok(()));
    assert_eq!(canvases.destroy(a), Err(ProcessingError::GraphicsNotFound));
    assert_eq!(canvases.resize(a, 5, 5), Err(ProcessingError::GraphicsNotFound));
    assert_eq!(canvases.set_transient(a, vec![1]), Err(ProcessingError::GraphicsNotFound));
}

#[test]
fn flush_drains_the_log_and_retires_last_frame() {
    let mut canvases = Canvases::new();
    let a = canvases.create(10, 10, TextureFormat::Rgba8Unorm);
    canvases.begin_draw(a).unwrap();
    canvases.record(a, DrawCommand::BackgroundColor(processing::command::Color::black())).unwrap();
    let (plan, retired) = canvases.flush(a, &empty_resources()).unwrap();
    assert_eq!(plan.drawables.len(), 1);
    assert!(retired.is_empty());
    canvases.set_transient(a, vec![42, 43]).unwrap();
    let (plan, retired) = canvases.flush(a, &empty_resources()).unwrap();
    assert!(plan.drawables.is_empty());
    assert_eq!(retired, vec![42, 43]);
    canvases.resize(a, 20, 30).unwrap();
}
