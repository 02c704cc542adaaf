//! Draw commands and the per-canvas command log.
use vstd::prelude::*;
use crate::scalar::{spec_lt, Scalar, ONE_BITS};

verus! {

/// A paint color: sRGB channels and alpha, as binary32 values.
#[derive(Clone, Copy, Debug, PartialEq, Eq, Structural, Hash)]
pub struct Color {
    pub r: Scalar,
    pub g: Scalar,
    pub b: Scalar,
    pub a: Scalar,
}

/// A color draws translucent when its alpha is below one.
pub open spec fn spec_is_transparent(c: Color) -> bool {
    spec_lt(c.a.bits, ONE_BITS)
}

pub open spec fn white() -> Color {
    Color {
        r: Scalar { bits: ONE_BITS },
        g: Scalar { bits: ONE_BITS },
        b: Scalar { bits: ONE_BITS },
        a: Scalar { bits: ONE_BITS },
    }
}

pub open spec fn black() -> Color {
    Color {
        r: Scalar { bits: 0 },
        g: Scalar { bits: 0 },
        b: Scalar { bits: 0 },
        a: Scalar { bits: ONE_BITS },
    }
}

impl Color {
    pub fn rgba(r: Scalar, g: Scalar, b: Scalar, a: Scalar) -> (c: Color)
        ensures
            c == (Color { r, g, b, a }),
    {
        Color { r, g, b, a }
    }

    pub fn white() -> (c: Color)
        ensures
            c == white(),
    {
        Color { r: Scalar::one(), g: Scalar::one(), b: Scalar::one(), a: Scalar::one() }
    }

    pub fn black() -> (c: Color)
        ensures
            c == black(),
    {
        Color { r: Scalar::zero(), g: Scalar::zero(), b: Scalar::zero(), a: Scalar::one() }
    }

    pub fn is_transparent(self) -> (r: bool)
        ensures
            r == spec_is_transparent(self),
    {
        self.a.lt(Scalar::one())
    }
}

/// Corner radii of a rectangle: top left, top right, bottom right, bottom left.
#[derive(Clone, Copy, Debug, PartialEq, Eq, Structural, Hash)]
pub struct Radii {
    pub top_left: Scalar,
    pub top_right: Scalar,
    pub bottom_right: Scalar,
    pub bottom_left: Scalar,
}

/// One recorded drawing operation. Handles name images, geometries and materials owned
/// elsewhere.
#[derive(Clone, Copy, Debug, PartialEq, Eq, Structural, Hash)]
pub enum DrawCommand {
    BackgroundColor(Color),
    BackgroundImage(u64),
    Fill(Color),
    NoFill,
    StrokeColor(Color),
    NoStroke,
    StrokeWeight(Scalar),
    Rect { x: Scalar, y: Scalar, w: Scalar, h: Scalar, radii: Radii },
    PushMatrix,
    PopMatrix,
    ResetMatrix,
    Translate { x: Scalar, y: Scalar },
    Rotate { angle: Scalar },
    Scale { x: Scalar, y: Scalar },
    ShearX { angle: Scalar },
    ShearY { angle: Scalar },
    Geometry(u64),
    Box { width: Scalar, height: Scalar, depth: Scalar },
    Sphere { radius: Scalar, sectors: u32, stacks: u32 },
    Material(u64),
}

/// The ordered, append-only log of commands awaiting the next flush.
pub struct CommandBuffer {
    pub commands: Vec<DrawCommand>,
}

impl CommandBuffer {
    pub fn new() -> (r: CommandBuffer)
        ensures
            r.commands@ == Seq::<DrawCommand>::empty(),
    {
        CommandBuffer { commands: Vec::new() }
    }

    pub fn push(&mut self, cmd: DrawCommand)
        ensures
            final(self).commands@ == old(self).commands@.push(cmd),
    {
        self.commands.push(cmd);
    }

    pub fn clear(&mut self)
        ensures
            final(self).commands@ == Seq::<DrawCommand>::empty(),
    {
        self.commands.clear();
    }

    /// Hands out the recorded commands and leaves the log empty.
    pub fn take(&mut self) -> (r: Vec<DrawCommand>)
        ensures
            r@ == old(self).commands@,
            final(self).commands@ == Seq::<DrawCommand>::empty(),
    {
        let mut out: Vec<DrawCommand> = Vec::new();
        std::mem::swap(&mut out, &mut self.commands);
        out
    }
}

} // verus!
