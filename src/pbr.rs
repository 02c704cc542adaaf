//! Setting the properties of a lit material by name.
use vstd::prelude::*;
use vstd::string::StringSliceAdditionalSpecFns;
use crate::command::Color;
use crate::error::{invalid_argument, ProcessingError};
use crate::material::AlphaMode;
use crate::scalar::{spec_lt, Scalar, HALF_BITS};

verus! {

/// A value handed to a material property.
#[derive(Clone, Copy, Debug, PartialEq)]
pub enum MaterialValue {
    Float(Scalar),
    Float2([Scalar; 2]),
    Float3([Scalar; 3]),
    Float4([Scalar; 4]),
    Int(i32),
    Int2([i32; 2]),
    Int3([i32; 3]),
    Int4([i32; 4]),
    UInt(u32),
    Mat4([Scalar; 16]),
    Texture(u64),
}

/// The settable properties of a lit material.
#[derive(Clone, Copy, Debug, PartialEq, Eq, Structural, Hash)]
pub struct PbrMaterial {
    /// sRGB.
    pub base_color: Color,
    pub metallic: Scalar,
    pub perceptual_roughness: Scalar,
    pub reflectance: Scalar,
    /// Linear RGBA.
    pub emissive: Color,
    pub unlit: bool,
    pub double_sided: bool,
    pub alpha_mode: AlphaMode,
}

#[derive(Clone, Copy, Debug, PartialEq, Eq, Structural, Hash)]
pub enum PbrProperty {
    BaseColor,
    Metallic,
    Roughness,
    Reflectance,
    Emissive,
    Unlit,
    DoubleSided,
    AlphaMode,
}

/// The property a name stands for; some properties have two names.
pub open spec fn spec_property(name: Seq<u8>) -> Option<PbrProperty> {
    if name == "base_color".spec_bytes() || name == "color".spec_bytes() {
        Some(PbrProperty::BaseColor)
    } else if name == "metallic".spec_bytes() {
        Some(PbrProperty::Metallic)
    } else if name == "roughness".spec_bytes() || name == "perceptual_roughness".spec_bytes() {
        Some(PbrProperty::Roughness)
    } else if name == "reflectance".spec_bytes() {
        Some(PbrProperty::Reflectance)
    } else if name == "emissive".spec_bytes() {
        Some(PbrProperty::Emissive)
    } else if name == "unlit".spec_bytes() {
        Some(PbrProperty::Unlit)
    } else if name == "double_sided".spec_bytes() {
        Some(PbrProperty::DoubleSided)
    } else if name == "alpha_mode".spec_bytes() {
        Some(PbrProperty::AlphaMode)
    } else {
        None
    }
}

/// The blend mode with the given number, counted in declaration order; the mask cutoff is
/// one half.
pub open spec fn spec_alpha_mode(v: i32) -> Option<AlphaMode> {
    if v == 0 {
        Some(AlphaMode::Opaque)
    } else if v == 1 {
        Some(AlphaMode::Mask(Scalar { bits: HALF_BITS }))
    } else if v == 2 {
        Some(AlphaMode::Blend)
    } else if v == 3 {
        Some(AlphaMode::Premultiplied)
    } else if v == 4 {
        Some(AlphaMode::Add)
    } else if v == 5 {
        Some(AlphaMode::Multiply)
    } else {
        None
    }
}

/// A flag set from a float is on when the float exceeds one half.
pub open spec fn spec_flag(v: Scalar) -> bool {
    spec_lt(HALF_BITS, v.bits)
}

/// The material after setting a property, or `None` when the value has the wrong shape
/// for it (or names no blend mode).
pub open spec fn spec_set(m: PbrMaterial, p: PbrProperty, v: MaterialValue) -> Option<PbrMaterial> {
    match (p, v) {
        (PbrProperty::BaseColor, MaterialValue::Float4(c)) => Some(
            PbrMaterial { base_color: Color { r: c[0], g: c[1], b: c[2], a: c[3] }, ..m },
        ),
        (PbrProperty::Metallic, MaterialValue::Float(x)) => Some(PbrMaterial { metallic: x, ..m }),
        (PbrProperty::Roughness, MaterialValue::Float(x)) => Some(
            PbrMaterial { perceptual_roughness: x, ..m },
        ),
        (PbrProperty::Reflectance, MaterialValue::Float(x)) => Some(
            PbrMaterial { reflectance: x, ..m },
        ),
        (PbrProperty::Emissive, MaterialValue::Float4(c)) => Some(
            PbrMaterial { emissive: Color { r: c[0], g: c[1], b: c[2], a: c[3] }, ..m },
        ),
        (PbrProperty::Unlit, MaterialValue::Float(x)) => Some(
            PbrMaterial { unlit: spec_flag(x), ..m },
        ),
        (PbrProperty::DoubleSided, MaterialValue::Float(x)) => Some(
            PbrMaterial { double_sided: spec_flag(x), ..m },
        ),
        (PbrProperty::AlphaMode, MaterialValue::Int(x)) => match spec_alpha_mode(x) {
            Some(a) => Some(PbrMaterial { alpha_mode: a, ..m }),
            None => None,
        },
        _ => None,
    }
}

fn bytes_eq(a: &[u8], b: &[u8]) -> (r: bool)
    ensures
        r == (a@ == b@),
{
    if a.len() != b.len() {
        return false;
    }
    let mut i: usize = 0;
    while i < a.len()
        invariant
            a@.len() == b@.len(),
            i <= a@.len(),
            forall|k: int| 0 <= k < i ==> a@[k] == b@[k],
        decreases a@.len() - i,
    {
        if a[i] != b[i] {
            return false;
        }
        i = i + 1;
    }
    proof {
        assert(a@ =~= b@);
    }
    true
}

fn name_is(name: &str, lit: &str) -> (r: bool)
    ensures
        r == (name.spec_bytes() == lit.spec_bytes()),
{
    bytes_eq(name.as_bytes(), lit.as_bytes())
}

/// The property that a name stands for.
pub fn property_of(name: &str) -> (r: Option<PbrProperty>)
    ensures
        r == spec_property(name.spec_bytes()),
{
    if name_is(name, "base_color") || name_is(name, "color") {
        Some(PbrProperty::BaseColor)
    } else if name_is(name, "metallic") {
        Some(PbrProperty::Metallic)
    } else if name_is(name, "roughness") || name_is(name, "perceptual_roughness") {
        Some(PbrProperty::Roughness)
    } else if name_is(name, "reflectance") {
        Some(PbrProperty::Reflectance)
    } else if name_is(name, "emissive") {
        Some(PbrProperty::Emissive)
    } else if name_is(name, "unlit") {
        Some(PbrProperty::Unlit)
    } else if name_is(name, "double_sided") {
        Some(PbrProperty::DoubleSided)
    } else if name_is(name, "alpha_mode") {
        Some(PbrProperty::AlphaMode)
    } else {
        None
    }
}

fn alpha_mode_of(v: i32) -> (r: Option<AlphaMode>)
    ensures
        r == spec_alpha_mode(v),
{
    match v {
        0 => Some(AlphaMode::Opaque),
        1 => Some(AlphaMode::Mask(Scalar::from_bits(HALF_BITS))),
        2 => Some(AlphaMode::Blend),
        3 => Some(AlphaMode::Premultiplied),
        4 => Some(AlphaMode::Add),
        5 => Some(AlphaMode::Multiply),
        _ => None,
    }
}

/// Sets a property of a lit material by name. An unknown name, or a value of the wrong
/// shape, is an error and leaves the material as it was.
pub fn set_property(material: &mut PbrMaterial, name: &str, value: &MaterialValue) -> (r: Result<
    (),
    ProcessingError,
>)
    ensures
        spec_property(name.spec_bytes()) is None ==> (r matches Err(
            ProcessingError::UnknownMaterialProperty(s),
        ) && s@ == name@ && *final(material) == *old(material)),
        spec_property(name.spec_bytes()) matches Some(p) ==> match spec_set(
            *old(material),
            p,
            *value,
        ) {
            Some(m) => r is Ok && *final(material) == m,
            None => r matches Err(ProcessingError::InvalidArgument(_)) && *final(material) == *old(
                material,
            ),
        },
{
    let prop = match property_of(name) {
        Some(p) => p,
        None => {
            return Err(ProcessingError::UnknownMaterialProperty(name.to_owned()));
        },
    };
    match (prop, *value) {
        (PbrProperty::BaseColor, MaterialValue::Float4(c)) => {
            material.base_color = Color { r: c[0], g: c[1], b: c[2], a: c[3] };
        },
        (PbrProperty::Metallic, MaterialValue::Float(x)) => {
            material.metallic = x;
        },
        (PbrProperty::Roughness, MaterialValue::Float(x)) => {
            material.perceptual_roughness = x;
        },
        (PbrProperty::Reflectance, MaterialValue::Float(x)) => {
            material.reflectance = x;
        },
        (PbrProperty::Emissive, MaterialValue::Float4(c)) => {
            material.emissive = Color { r: c[0], g: c[1], b: c[2], a: c[3] };
        },
        (PbrProperty::Unlit, MaterialValue::Float(x)) => {
            material.unlit = Scalar::from_bits(HALF_BITS).lt(x);
        },
        (PbrProperty::DoubleSided, MaterialValue::Float(x)) => {
            material.double_sided = Scalar::from_bits(HALF_BITS).lt(x);
        },
        (PbrProperty::AlphaMode, MaterialValue::Int(x)) => {
            match alpha_mode_of(x) {
                Some(a) => material.alpha_mode = a,
                None => {
                    return Err(invalid_argument("unknown alpha_mode value"));
                },
            }
        },
        _ => {
            return Err(invalid_argument("value has the wrong shape for this property"));
        },
    }
    Ok(())
}

} // verus!
