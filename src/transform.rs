//! The transform stack.
//!
//! A transform is recorded as the sequence of delta operations composed onto the identity,
//! each right-multiplied (`current * delta`), so that every delta applies in the local frame
//! set up by the ones before it. Two transforms compare equal when they hold the same
//! operations; the matrix a sequence stands for is evaluated where the geometry is built.
use vstd::prelude::*;
use crate::scalar::Scalar;

verus! {

/// One delta transform.
#[derive(Clone, Copy, Debug, PartialEq, Eq, Structural, Hash)]
pub enum TransformOp {
    Translate { x: Scalar, y: Scalar, z: Scalar },
    RotateX { angle: Scalar },
    RotateY { angle: Scalar },
    RotateZ { angle: Scalar },
    /// A rotation about an axis, which is normalised when the transform is evaluated.
    RotateAxis { angle: Scalar, x: Scalar, y: Scalar, z: Scalar },
    Scale { x: Scalar, y: Scalar, z: Scalar },
    /// `x += tan(angle) * y`.
    ShearX { angle: Scalar },
    /// `y += tan(angle) * x`.
    ShearY { angle: Scalar },
}

/// The current transform and the saved ones, most recent last.
pub struct TransformStack {
    current: Vec<TransformOp>,
    stack: Vec<Vec<TransformOp>>,
}

pub struct TransformStackView {
    pub current: Seq<TransformOp>,
    pub saved: Seq<Seq<TransformOp>>,
}

impl View for TransformStack {
    type V = TransformStackView;

    closed spec fn view(&self) -> TransformStackView {
        TransformStackView {
            current: self.current@,
            saved: self.stack@.map_values(|v: Vec<TransformOp>| v@),
        }
    }
}

pub open spec fn spec_push(v: TransformStackView) -> TransformStackView {
    TransformStackView { current: v.current, saved: v.saved.push(v.current) }
}

pub open spec fn spec_pop(v: TransformStackView) -> TransformStackView {
    if v.saved.len() == 0 {
        v
    } else {
        TransformStackView { current: v.saved.last(), saved: v.saved.drop_last() }
    }
}

pub open spec fn spec_reset(v: TransformStackView) -> TransformStackView {
    TransformStackView { current: seq![], saved: v.saved }
}

pub open spec fn spec_apply(v: TransformStackView, op: TransformOp) -> TransformStackView {
    TransformStackView { current: v.current.push(op), saved: v.saved }
}

pub open spec fn translation(x: Scalar, y: Scalar) -> TransformOp {
    TransformOp::Translate { x, y, z: Scalar { bits: 0 } }
}

/// Copies a transform.
pub fn copy_ops(ops: &Vec<TransformOp>) -> (r: Vec<TransformOp>)
    ensures
        r@ == ops@,
{
    let r = ops.clone();
    proof {
        assert(r@ =~= ops@);
    }
    r
}

/// Whether two transforms hold the same operations.
pub fn same_ops(a: &Vec<TransformOp>, b: &Vec<TransformOp>) -> (r: bool)
    ensures
        r == (a@ == b@),
{
    if a.len() != b.len() {
        return false;
    }
    let mut i: usize = 0;
    while i < a.len()
        invariant
            a@.len() == b@.len(),
            i <= a@.len(),
            forall|k: int| 0 <= k < i ==> a@[k] == b@[k],
        decreases a@.len() - i,
    {
        if a[i] != b[i] {
            return false;
        }
        i = i + 1;
    }
    proof {
        assert(a@ =~= b@);
    }
    true
}

impl TransformStack {
    pub fn new() -> (r: TransformStack)
        ensures
            r@.current == Seq::<TransformOp>::empty(),
            r@.saved == Seq::<Seq<TransformOp>>::empty(),
    {
        let r = TransformStack { current: Vec::new(), stack: Vec::new() };
        proof {
            assert(r@.saved =~= Seq::<Seq<TransformOp>>::empty());
        }
        r
    }

    /// The composed transform.
    pub fn current(&self) -> (r: Vec<TransformOp>)
        ensures
            r@ == self@.current,
    {
        copy_ops(&self.current)
    }

    /// Saves the current transform.
    pub fn push(&mut self)
        ensures
            final(self)@ == spec_push(old(self)@),
    {
        let c = copy_ops(&self.current);
        self.stack.push(c);
        proof {
            assert(self@.saved =~= old(self)@.saved.push(old(self)@.current));
        }
    }

    /// Restores the most recently saved transform; with nothing saved, does nothing.
    pub fn pop(&mut self)
        ensures
            final(self)@ == spec_pop(old(self)@),
    {
        if let Some(t) = self.stack.pop() {
            self.current = t;
            proof {
                assert(self@.saved =~= old(self)@.saved.drop_last());
            }
        }
    }

    /// Sets the current transform to the identity; saved transforms stay.
    pub fn reset(&mut self)
        ensures
            final(self)@ == spec_reset(old(self)@),
    {
        self.current = Vec::new();
        proof {
            assert(self@.current =~= Seq::<TransformOp>::empty());
        }
    }

    /// Composes a delta onto the current transform.
    pub fn apply(&mut self, op: TransformOp)
        ensures
            final(self)@ == spec_apply(old(self)@, op),
    {
        self.current.push(op);
    }

    pub fn translate(&mut self, x: Scalar, y: Scalar)
        ensures
            final(self)@ == spec_apply(old(self)@, translation(x, y)),
    {
        self.translate_3d(x, y, Scalar::zero());
    }

    pub fn translate_3d(&mut self, x: Scalar, y: Scalar, z: Scalar)
        ensures
            final(self)@ == spec_apply(old(self)@, TransformOp::Translate { x, y, z }),
    {
        self.apply(TransformOp::Translate { x, y, z });
    }

    /// Rotation about the Z axis.
    pub fn rotate(&mut self, angle: Scalar)
        ensures
            final(self)@ == spec_apply(old(self)@, TransformOp::RotateZ { angle }),
    {
        self.rotate_z(angle);
    }

    pub fn rotate_x(&mut self, angle: Scalar)
        ensures
            final(self)@ == spec_apply(old(self)@, TransformOp::RotateX { angle }),
    {
        self.apply(TransformOp::RotateX { angle });
    }

    pub fn rotate_y(&mut self, angle: Scalar)
        ensures
            final(self)@ == spec_apply(old(self)@, TransformOp::RotateY { angle }),
    {
        self.apply(TransformOp::RotateY { angle });
    }

    pub fn rotate_z(&mut self, angle: Scalar)
        ensures
            final(self)@ == spec_apply(old(self)@, TransformOp::RotateZ { angle }),
    {
        self.apply(TransformOp::RotateZ { angle });
    }

    pub fn rotate_axis(&mut self, angle: Scalar, x: Scalar, y: Scalar, z: Scalar)
        ensures
            final(self)@ == spec_apply(old(self)@, TransformOp::RotateAxis { angle, x, y, z }),
    {
        self.apply(TransformOp::RotateAxis { angle, x, y, z });
    }

    pub fn scale_uniform(&mut self, s: Scalar)
        ensures
            final(self)@ == spec_apply(
                old(self)@,
                TransformOp::Scale { x: s, y: s, z: Scalar { bits: crate::scalar::ONE_BITS } },
            ),
    {
        self.scale(s, s);
    }

    pub fn scale(&mut self, sx: Scalar, sy: Scalar)
        ensures
            final(self)@ == spec_apply(
                old(self)@,
                TransformOp::Scale { x: sx, y: sy, z: Scalar { bits: crate::scalar::ONE_BITS } },
            ),
    {
        self.scale_3d(sx, sy, Scalar::one());
    }

    pub fn scale_3d(&mut self, sx: Scalar, sy: Scalar, sz: Scalar)
        ensures
            final(self)@ == spec_apply(old(self)@, TransformOp::Scale { x: sx, y: sy, z: sz }),
    {
        self.apply(TransformOp::Scale { x: sx, y: sy, z: sz });
    }

    pub fn shear_x(&mut self, angle: Scalar)
        ensures
            final(self)@ == spec_apply(old(self)@, TransformOp::ShearX { angle }),
    {
        self.apply(TransformOp::ShearX { angle });
    }

    pub fn shear_y(&mut self, angle: Scalar)
        ensures
            final(self)@ == spec_apply(old(self)@, TransformOp::ShearY { angle }),
    {
        self.apply(TransformOp::ShearY { angle });
    }
}

/// Saving, composing any delta and restoring gives back the stack as it was; restoring with
/// nothing saved changes nothing; a translation composed onto the identity is that
/// translation alone.
pub proof fn lemma_transform_stack_laws(v: TransformStackView, op: TransformOp, x: Scalar, y: Scalar)
    ensures
        spec_pop(spec_apply(spec_push(v), op)) == v,
        v.saved.len() == 0 ==> spec_pop(v) == v,
        spec_apply(spec_reset(v), translation(x, y)).current == seq![translation(x, y)],
{
    assert(spec_push(v).saved.push(v.current).drop_last() =~= spec_push(v).saved);
    assert(v.saved.push(v.current).drop_last() =~= v.saved);
    assert(Seq::<TransformOp>::empty().push(translation(x, y)) =~= seq![translation(x, y)]);
}

} // verus!
