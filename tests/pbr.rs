use processing::command::Color;
use processing::error::ProcessingError;
use processing::material::AlphaMode;
use processing::pbr::{property_of, set_property, MaterialValue, PbrMaterial, PbrProperty};
use processing::scalar::Scalar;

fn scalar(v: f32) -> Scalar {
    Scalar::from_bits(v.to_bits())
}

fn material() -> PbrMaterial {
    PbrMaterial {
        base_color: Color::white(),
        metallic: scalar(0.0),
        perceptual_roughness: scalar(0.5),
        reflectance: scalar(0.5),
        emissive: Color::black(),
        unlit: false,
        double_sided: false,
        alpha_mode: AlphaMode::Opaque,
    }
}

#[test]
fn properties_by_name() {
    assert_eq!(property_of("color"), Some(PbrProperty::BaseColor));
    assert_eq!(property_of("base_color"), Some(PbrProperty::BaseColor));
    assert_eq!(property_of("perceptual_roughness"), Some(PbrProperty::Roughness));
    assert_eq!(property_of("alpha_mode"), Some(PbrProperty::AlphaMode));
    assert_eq!(property_of("shininess"), None);
}

#[test]
fn setting_properties() {
    let mut m = material();
    set_property(&mut m, "metallic", &MaterialValue::Float(scalar(0.75))).unwrap();
    assert_eq!(m.metallic, scalar(0.75));
    set_property(&mut m, "roughness", &MaterialValue::Float(scalar(0.25))).unwrap();
    assert_eq!(m.perceptual_roughness, scalar(0.25));
    set_property(&mut m, "color", &MaterialValue::Float4([scalar(1.0), scalar(0.0), scalar(0.0), scalar(1.0)])).unwrap();
    assert_eq!(m.base_color, Color::rgba(scalar(1.0), scalar(0.0), scalar(0.0), scalar(1.0)));
    set_property(&mut m, "unlit", &MaterialValue::Float(scalar(0.6))).unwrap();
    assert!(m.unlit);
    set_property(&mut m, "unlit", &MaterialValue::Float(scalar(0.5))).unwrap();
    assert!(!m.unlit);
    set_property(&mut m, "alpha_mode", &MaterialValue::Int(1)).unwrap();
    assert_eq!(m.alpha_mode, AlphaMode::Mask(scalar(0.5)));
    set_property(&mut m, "alpha_mode", &MaterialValue::Int(5)).unwrap();
    assert_eq!(m.alpha_mode, AlphaMode::Multiply);
}

#[test]
fn bad_names_and_values_change_nothing() {
    let mut m = material();
    assert_eq!(
        set_property(&mut m, "shininess", &MaterialValue::Float(scalar(1.0))),
        Err(ProcessingError::UnknownMaterialProperty("shininess".to_string()))
    );
    assert!(matches!(
        set_property(&mut m, "metallic", &MaterialValue::Int(1)),
        Err(ProcessingError::InvalidArgument(_))
    ));
    assert!(matches!(
        set_property(&mut m, "alpha_mode", &MaterialValue::Int(6)),
        Err(ProcessingError::InvalidArgument(_))
    ));
    assert_eq!(m, material());
}
