//! Small pieces of retained geometry: topologies, attribute formats and identifiers, and
//! vertex layouts.
use vstd::prelude::*;
use vstd::string::StringSliceAdditionalSpecFns;

verus! {

#[derive(Clone, Copy, Debug, PartialEq, Eq, Structural, Hash)]
pub enum Topology {
    PointList,
    LineList,
    LineStrip,
    TriangleList,
    TriangleStrip,
}

impl Topology {
    /// The topology with the given number; numbers run from 0 in declaration order.
    pub fn from_u8(value: u8) -> (r: Option<Topology>)
        ensures
            value == 0 ==> r == Some(Topology::PointList),
            value == 1 ==> r == Some(Topology::LineList),
            value == 2 ==> r == Some(Topology::LineStrip),
            value == 3 ==> r == Some(Topology::TriangleList),
            value == 4 ==> r == Some(Topology::TriangleStrip),
            value > 4 ==> r is None,
    {
        match value {
            0 => Some(Topology::PointList),
            1 => Some(Topology::LineList),
            2 => Some(Topology::LineStrip),
            3 => Some(Topology::TriangleList),
            4 => Some(Topology::TriangleStrip),
            _ => None,
        }
    }
}

/// The component count of a custom vertex attribute.
#[derive(Clone, Copy, Debug, PartialEq, Eq, Structural, Hash)]
pub enum AttributeFormat {
    Float,
    Float2,
    Float3,
    Float4,
}

impl AttributeFormat {
    /// The format with the given number of components.
    pub fn from_u8(value: u8) -> (r: Option<AttributeFormat>)
        ensures
            value == 1 ==> r == Some(AttributeFormat::Float),
            value == 2 ==> r == Some(AttributeFormat::Float2),
            value == 3 ==> r == Some(AttributeFormat::Float3),
            value == 4 ==> r == Some(AttributeFormat::Float4),
            value == 0 || value > 4 ==> r is None,
    {
        match value {
            1 => Some(AttributeFormat::Float),
            2 => Some(AttributeFormat::Float2),
            3 => Some(AttributeFormat::Float3),
            4 => Some(AttributeFormat::Float4),
            _ => None,
        }
    }
}

pub const FNV1A_OFFSET_BASIS: u64 = 0xcbf29ce484222325;

pub const FNV1A_PRIME: u64 = 0x100000001b3;

/// The 64-bit FNV-1a hash of a byte string.
pub open spec fn fnv1a(bytes: Seq<u8>) -> u64
    decreases bytes.len(),
{
    if bytes.len() == 0 {
        FNV1A_OFFSET_BASIS
    } else {
        ((fnv1a(bytes.drop_last()) ^ (bytes.last() as u64)) as nat * FNV1A_PRIME as nat
            % 0x1_0000_0000_0000_0000) as u64
    }
}

/// The identifier of a vertex attribute: the FNV-1a hash of its name's bytes.
pub fn hash_attr_name(s: &str) -> (r: u64)
    ensures
        r == fnv1a(s.spec_bytes()),
{
    let bytes = s.as_bytes();
    let mut hash: u64 = FNV1A_OFFSET_BASIS;
    let mut i: usize = 0;
    while i < bytes.len()
        invariant
            i <= bytes@.len(),
            hash == fnv1a(bytes@.take(i as int)),
        decreases bytes@.len() - i,
    {
        proof {
            let t = bytes@.take(i + 1);
            assert(t.drop_last() =~= bytes@.take(i as int));
            assert(t.last() == bytes@[i as int]);
        }
        hash = hash ^ (bytes[i] as u64);
        hash = hash.wrapping_mul(FNV1A_PRIME);
        i = i + 1;
    }
    proof {
        assert(bytes@.take(i as int) =~= bytes@);
    }
    hash
}

/// The attributes that each vertex of a geometry carries, in order, without repeats.
pub struct VertexLayout {
    attributes: Vec<u64>,
}

impl VertexLayout {
    pub closed spec fn view_attributes(&self) -> Seq<u64> {
        self.attributes@
    }

    pub fn new() -> (r: VertexLayout)
        ensures
            r.view_attributes() == Seq::<u64>::empty(),
    {
        VertexLayout { attributes: Vec::new() }
    }

    pub fn with_attributes(attrs: Vec<u64>) -> (r: VertexLayout)
        ensures
            r.view_attributes() == attrs@,
    {
        VertexLayout { attributes: attrs }
    }

    pub fn attributes(&self) -> (r: &[u64])
        ensures
            r@ == self.view_attributes(),
    {
        self.attributes.as_slice()
    }

    /// Appends an attribute unless the layout has it already.
    pub fn push(&mut self, attr: u64)
        ensures
            old(self).view_attributes().contains(attr) ==> final(self).view_attributes()
                == old(self).view_attributes(),
            !old(self).view_attributes().contains(attr) ==> final(self).view_attributes()
                == old(self).view_attributes().push(attr),
    {
        if !self.has_attribute(attr) {
            self.attributes.push(attr);
        }
    }

    pub fn has_attribute(&self, attr: u64) -> (r: bool)
        ensures
            r == self.view_attributes().contains(attr),
    {
        let mut i: usize = 0;
        while i < self.attributes.len()
            invariant
                i <= self.attributes@.len(),
                forall|k: int| 0 <= k < i ==> self.attributes@[k] != attr,
            decreases self.attributes@.len() - i,
        {
            if self.attributes[i] == attr {
                return true;
            }
            i = i + 1;
        }
        false
    }
}

} // verus!
