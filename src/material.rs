//! Material keys: what a batch would be rendered with, before any GPU resource exists.
use vstd::prelude::*;
use crate::scalar::Scalar;

verus! {

/// An 8-bit RGBA value.
#[derive(Clone, Copy, Debug, PartialEq, Eq, Structural, Hash)]
pub struct Rgba8 {
    pub r: u8,
    pub g: u8,
    pub b: u8,
    pub a: u8,
}

/// Describes the material of a batch. Two keys are equal when all their fields are, and a
/// batch only takes geometry whose key equals its own.
#[derive(Clone, Copy, Debug, PartialEq, Eq, Structural, Hash)]
pub enum MaterialKey {
    /// An unlit material tinted white; colors come from the vertices.
    Color { transparent: bool, background_image: Option<u64> },
    /// A lit material; channels are fractions of 255.
    Pbr { albedo: Rgba8, roughness: u8, metallic: u8, emissive: Rgba8 },
    /// A material created elsewhere, used as it is.
    Custom(u64),
}

#[derive(Clone, Copy, Debug, PartialEq, Eq, Structural, Hash)]
pub enum AlphaMode {
    Opaque,
    /// Fragments below the cutoff alpha are discarded.
    Mask(Scalar),
    Blend,
    Premultiplied,
    Add,
    Multiply,
}

/// What to create for a key that names no existing material. Fractions are of 255; `None`
/// leaves the renderer's default.
#[derive(Clone, Copy, Debug, PartialEq, Eq, Structural, Hash)]
pub struct MaterialDescriptor {
    pub base_color: Rgba8,
    pub unlit: bool,
    pub cull_back_faces: bool,
    pub texture: Option<u64>,
    pub alpha_mode: AlphaMode,
    pub roughness: Option<u8>,
    pub metallic: Option<u8>,
    pub emissive: Option<Rgba8>,
}

/// The outcome of materialising a key: a material to create, or one that exists.
#[derive(Clone, Copy, Debug, PartialEq, Eq, Structural, Hash)]
pub enum Materialized {
    Create(MaterialDescriptor),
    Existing(u64),
}

pub open spec fn opaque_white() -> Rgba8 {
    Rgba8 { r: 255, g: 255, b: 255, a: 255 }
}

pub open spec fn spec_materialize(key: MaterialKey) -> Materialized {
    match key {
        MaterialKey::Color { transparent, background_image } => Materialized::Create(
            MaterialDescriptor {
                base_color: opaque_white(),
                unlit: true,
                cull_back_faces: false,
                texture: background_image,
                alpha_mode: if transparent {
                    AlphaMode::Blend
                } else {
                    AlphaMode::Opaque
                },
                roughness: None,
                metallic: None,
                emissive: None,
            },
        ),
        MaterialKey::Pbr { albedo, roughness, metallic, emissive } => Materialized::Create(
            MaterialDescriptor {
                base_color: albedo,
                unlit: false,
                cull_back_faces: false,
                texture: None,
                alpha_mode: AlphaMode::Opaque,
                roughness: Some(roughness),
                metallic: Some(metallic),
                emissive: Some(emissive),
            },
        ),
        MaterialKey::Custom(handle) => Materialized::Existing(handle),
    }
}

/// The key of the default paint material: opaque, untextured.
pub open spec fn default_key() -> MaterialKey {
    MaterialKey::Color { transparent: false, background_image: None }
}

/// The key for one shape pass painted with a color of the given translucency: a color
/// material keeps its texture and takes the pass's translucency; other materials are used
/// as they are.
pub open spec fn spec_pass_key(material: MaterialKey, transparent: bool) -> MaterialKey {
    match material {
        MaterialKey::Color { background_image, .. } => MaterialKey::Color {
            transparent,
            background_image,
        },
        _ => material,
    }
}

impl MaterialKey {
    pub fn default_key() -> (r: MaterialKey)
        ensures
            r == default_key(),
    {
        MaterialKey::Color { transparent: false, background_image: None }
    }

    /// Turns the key into a material: a descriptor of one to create, or, for a custom key,
    /// the referenced material unchanged.
    pub fn to_material(&self) -> (r: Materialized)
        ensures
            r == spec_materialize(*self),
    {
        match *self {
            MaterialKey::Color { transparent, background_image } => {
                let alpha_mode = if transparent {
                    AlphaMode::Blend
                } else {
                    AlphaMode::Opaque
                };
                Materialized::Create(
                    MaterialDescriptor {
                        base_color: Rgba8 { r: 255, g: 255, b: 255, a: 255 },
                        unlit: true,
                        cull_back_faces: false,
                        texture: background_image,
                        alpha_mode,
                        roughness: None,
                        metallic: None,
                        emissive: None,
                    },
                )
            },
            MaterialKey::Pbr { albedo, roughness, metallic, emissive } => Materialized::Create(
                MaterialDescriptor {
                    base_color: albedo,
                    unlit: false,
                    cull_back_faces: false,
                    texture: None,
                    alpha_mode: AlphaMode::Opaque,
                    roughness: Some(roughness),
                    metallic: Some(metallic),
                    emissive: Some(emissive),
                },
            ),
            MaterialKey::Custom(handle) => Materialized::Existing(handle),
        }
    }

    pub fn pass_key(self, transparent: bool) -> (r: MaterialKey)
        ensures
            r == spec_pass_key(self, transparent),
    {
        match self {
            MaterialKey::Color { background_image, .. } => MaterialKey::Color {
                transparent,
                background_image,
            },
            _ => self,
        }
    }
}

} // verus!
