//! Transform vocabulary: exact fractional values, elementary transforms
//! produced by curve evaluation, and the ordered transform steps that the
//! composer emits for a host renderer.

use vstd::prelude::*;

verus! {

/// An exact rational value: `num / den`, with `den != 0`.
///
/// Curve evaluation interpolates integer keyframe values linearly; the result
/// is an exact fraction rather than a rounded quotient.
#[derive(Clone, Copy, Debug, PartialEq, Eq, Structural)]
pub struct Fraction {
    pub num: i128,
    pub den: i64,
}

impl Fraction {
    /// A fraction is meaningful only with a non-zero denominator.
    pub open spec fn wf(self) -> bool {
        self.den != 0
    }

    /// Whether this fraction equals the integer `v`.
    pub open spec fn equals_int(self, v: int) -> bool {
        self.num == v * self.den
    }

    /// The fraction `v / 1`.
    pub open spec fn spec_whole(v: int) -> Fraction {
        Fraction { num: v as i128, den: 1 }
    }

    /// Builds the fraction `v / 1`.
    pub fn whole(v: i32) -> (r: Fraction)
        ensures
            r == Self::spec_whole(v as int),
            r.wf(),
            r.equals_int(v as int),
    {
        Fraction { num: v as i128, den: 1 }
    }
}

/// One of the three rotation axes an attribute curve can drive.
#[derive(Clone, Copy, Debug, PartialEq, Eq, Structural)]
pub enum Axis {
    X,
    Y,
    Z,
}

/// What evaluating one curve at one time yields: a single-axis rotation by an
/// exact number of degrees, or the identity transform.
#[derive(Clone, Copy, Debug, PartialEq, Eq, Structural)]
pub enum ElementaryTransform {
    Identity,
    Rotation { axis: Axis, degrees: Fraction },
}

impl ElementaryTransform {
    /// Every fraction carried by an elementary transform has a non-zero
    /// denominator.
    pub open spec fn wf(self) -> bool {
        match self {
            ElementaryTransform::Identity => true,
            ElementaryTransform::Rotation { axis, degrees } => degrees.wf(),
        }
    }
}

/// Three opaque 32-bit scalar codes, carried through untouched.
///
/// Base transform components come from the host in a 32-bit scalar encoding
/// that this library never computes with; the host decodes them again when it
/// builds the final matrix.
#[derive(Clone, Copy, Debug, PartialEq, Eq, Structural)]
pub struct Vec3Code {
    pub x: u32,
    pub y: u32,
    pub z: u32,
}

/// An instance's static base transform: a point first scales, then rotates
/// (intrinsic X-Y-Z Euler angles, in radians), then translates.
#[derive(Clone, Copy, Debug, PartialEq, Eq, Structural)]
pub struct BaseTransform {
    pub scale: Vec3Code,
    pub rotation: Vec3Code,
    pub translation: Vec3Code,
}

/// One step of a composed transform. A host renderer folds the steps of a
/// plan in order, each step applied after the running product.
#[derive(Clone, Copy, Debug, PartialEq, Eq, Structural)]
pub enum TransformStep {
    /// A no-op step, from a curve that evaluated to the identity.
    Hold,
    /// A rotation about one axis by an exact number of degrees.
    Rotate { axis: Axis, degrees: Fraction },
    /// Scaling by the three decoded scalar components.
    Scale { factors: Vec3Code },
    /// An intrinsic X-Y-Z Euler rotation by three decoded radian components.
    RotateEuler { radians: Vec3Code },
    /// Translation by the three decoded scalar components.
    Translate { offset: Vec3Code },
}

/// The step a single elementary transform contributes to a plan.
pub open spec fn step_of(e: ElementaryTransform) -> TransformStep {
    match e {
        ElementaryTransform::Identity => TransformStep::Hold,
        ElementaryTransform::Rotation { axis, degrees } => TransformStep::Rotate {
            axis,
            degrees,
        },
    }
}

/// The composed plan: every elementary transform in order, then the base
/// transform as scale, Euler rotation, translation.
pub open spec fn spec_compose(elems: Seq<ElementaryTransform>, base: BaseTransform) -> Seq<
    TransformStep,
> {
    elems.map_values(|e: ElementaryTransform| step_of(e)) + seq![
        TransformStep::Scale { factors: base.scale },
        TransformStep::RotateEuler { radians: base.rotation },
        TransformStep::Translate { offset: base.translation },
    ]
}

/// Appends the composed plan for `elems` and `base` to `out`: each elementary
/// transform in order, then the base transform's scale, rotation and
/// translation. Composition order is load-bearing: animation steps come
/// first, the base transform last.
pub fn compose(elems: &Vec<ElementaryTransform>, base: &BaseTransform, out: &mut Vec<
    TransformStep,
>)
    ensures
        final(out)@ == old(out)@ + spec_compose(elems@, *base),
{
    let ghost prior = out@;
    let mut i: usize = 0;
    while i < elems.len()
        invariant
            i <= elems.len(),
            out@ == prior + elems@.take(i as int).map_values(
                |e: ElementaryTransform| step_of(e),
            ),
        decreases elems.len() - i,
    {
        out.push(step_of_exec(elems[i]));
        proof {
            assert(elems@.take(i + 1 as int).drop_last() =~= elems@.take(i as int));
            assert(elems@.take(i + 1 as int).map_values(
                |e: ElementaryTransform| step_of(e),
            ) =~= elems@.take(i as int).map_values(|e: ElementaryTransform| step_of(e)).push(
                step_of(elems@[i as int]),
            ));
        }
        i = i + 1;
    }
    proof {
        assert(elems@.take(elems@.len() as int) =~= elems@);
    }
    out.push(TransformStep::Scale { factors: base.scale });
    out.push(TransformStep::RotateEuler { radians: base.rotation });
    out.push(TransformStep::Translate { offset: base.translation });
    proof {
        assert(out@ =~= prior + spec_compose(elems@, *base));
    }
}

/// Executable twin of [`step_of`].
pub fn step_of_exec(e: ElementaryTransform) -> (r: TransformStep)
    ensures
        r == step_of(e),
{
    match e {
        ElementaryTransform::Identity => TransformStep::Hold,
        ElementaryTransform::Rotation { axis, degrees } => TransformStep::Rotate {
            axis,
            degrees,
        },
    }
}

} // verus!
