//! The library's error type.
use vstd::prelude::*;

verus! {

/// Every failure of the library is one of these; nothing panics.
#[derive(Clone, Debug, PartialEq, Eq)]
pub enum ProcessingError {
    AppAccess,
    SurfaceNotFound,
    InvalidWindowHandle,
    ImageNotFound,
    UnsupportedTextureFormat,
    InvalidArgument(String),
    GraphicsNotFound,
    InvalidEntity,
    GeometryNotFound,
    LayoutNotFound,
    TransformNotFound,
    MaterialNotFound,
    UnknownMaterialProperty(String),
}

/// An `InvalidArgument` error carrying a fixed description.
pub fn invalid_argument(detail: &str) -> (e: ProcessingError)
    ensures
        e matches ProcessingError::InvalidArgument(s) && s@ == detail@,
{
    ProcessingError::InvalidArgument(detail.to_owned())
}

} // verus!
