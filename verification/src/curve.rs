//! Attribute curves and their evaluation.
//!
//! A curve is an attribute tag plus an ordered sequence of keyframe rows.
//! Evaluating a curve at an elapsed time reduces the time by the loop period
//! (if any), brackets it between two keyframe rows by a forward scan in
//! stored order, interpolates the row values linearly, and maps the tagged
//! attribute to an elementary transform. Rotation attributes yield a rotation
//! by the interpolated value in degrees; every other attribute yields the
//! identity transform.

use vstd::prelude::*;
use crate::transform::{Axis, ElementaryTransform, Fraction};

verus! {

/// One keyframe row: a time and a value, in integer units chosen by the
/// caller.
#[derive(Clone, Copy, Debug, PartialEq, Eq, Structural)]
pub struct Keyframe {
    pub time: i32,
    pub value: i32,
}

/// The attribute a curve drives: one of six elementary-transform kinds, or an
/// unknown tag byte carried through from the source asset.
#[derive(Clone, Copy, Debug, PartialEq, Eq, Structural)]
pub enum CurveAttribute {
    PositionX,
    PositionY,
    PositionZ,
    RotationX,
    RotationY,
    RotationZ,
    Unknown(u8),
}

/// An attribute curve: a tag and its keyframe rows in stored order.
#[derive(Debug)]
pub struct Curve {
    pub attribute: CurveAttribute,
    pub rows: Vec<Keyframe>,
}

/// The mathematical model of a curve.
pub struct CurveModel {
    pub attribute: CurveAttribute,
    pub rows: Seq<Keyframe>,
}

impl View for Curve {
    type V = CurveModel;

    open spec fn view(&self) -> CurveModel {
        CurveModel { attribute: self.attribute, rows: self.rows@ }
    }
}

/// The rotation axis a curve attribute drives, if any. Position attributes
/// currently drive no axis: they yield the identity transform, a documented
/// behavior of the source engine rather than an oversight of this crate.
pub open spec fn axis_of(a: CurveAttribute) -> Option<Axis> {
    match a {
        CurveAttribute::RotationX => Some(Axis::X),
        CurveAttribute::RotationY => Some(Axis::Y),
        CurveAttribute::RotationZ => Some(Axis::Z),
        _ => None,
    }
}

/// The remainder of `a` by `b` under the sign convention of the host
/// language's native remainder operator: the result takes the dividend's
/// sign. `trunc_rem(-3, 10)` is `-3`, not `7`.
pub open spec fn trunc_rem(a: int, b: int) -> int
    recommends
        b != 0,
{
    if a >= 0 {
        abs(a) % abs(b)
    } else {
        -(abs(a) % abs(b))
    }
}

/// The absolute value of `a`.
pub open spec fn abs(a: int) -> int {
    if a >= 0 {
        a
    } else {
        -a
    }
}

/// The time a curve is actually sampled at: the elapsed time reduced by the
/// loop period when one is given. A period of zero is treated as no loop, a
/// defensive definition for an input whose reduction is not meaningful.
/// The reduction keeps the dividend's sign: a negative elapsed time stays
/// negative, it does not wrap into the period.
pub open spec fn spec_effective(at: int, period: Option<int>) -> int {
    match period {
        None => at,
        Some(p) => if p == 0 {
            at
        } else {
            trunc_rem(at, p)
        },
    }
}

/// Executable twin of [`spec_effective`].
pub fn effective_time(at: i64, period: Option<i64>) -> (r: i64)
    ensures
        r as int == spec_effective(
            at as int,
            match period {
                Some(p) => Some(p as int),
                None => None,
            },
        ),
{
    match period {
        None => at,
        Some(p) => {
            if p == 0 {
                at
            } else {
                match at.checked_rem(p) {
                    Some(r) => r,
                    None => 0,
                }
            }
        },
    }
}

/// The index of the first row in stored order whose time is at most `t`.
pub open spec fn first_at_most(rows: Seq<Keyframe>, t: int) -> Option<int>
    decreases rows.len(),
{
    if rows.len() == 0 {
        None
    } else if rows[0].time <= t {
        Some(0)
    } else {
        match first_at_most(rows.drop_first(), t) {
            Some(i) => Some(i + 1),
            None => None,
        }
    }
}

/// The index of the first row in stored order whose time is at least `t`.
pub open spec fn first_at_least(rows: Seq<Keyframe>, t: int) -> Option<int>
    decreases rows.len(),
{
    if rows.len() == 0 {
        None
    } else if rows[0].time >= t {
        Some(0)
    } else {
        match first_at_least(rows.drop_first(), t) {
            Some(i) => Some(i + 1),
            None => None,
        }
    }
}

/// `first_at_most` returns the index of a qualifying row that no earlier row
/// precedes.
pub proof fn lemma_first_at_most_some(rows: Seq<Keyframe>, t: int, i: int)
    requires
        0 <= i < rows.len(),
        rows[i].time <= t,
        forall|j: int| 0 <= j < i ==> !(rows[j].time <= t),
    ensures
        first_at_most(rows, t) == Some(i),
    decreases rows.len(),
{
    if i > 0 {
        lemma_first_at_most_some(rows.drop_first(), t, i - 1);
    }
}

/// When no row's time is at most `t`, `first_at_most` returns nothing.
pub proof fn lemma_first_at_most_none(rows: Seq<Keyframe>, t: int)
    requires
        forall|j: int| 0 <= j < rows.len() ==> !(rows[j].time <= t),
    ensures
        first_at_most(rows, t) == None::<int>,
    decreases rows.len(),
{
    if rows.len() > 0 {
        lemma_first_at_most_none(rows.drop_first(), t);
    }
}

/// `first_at_least` returns the index of a qualifying row that no earlier row
/// precedes.
pub proof fn lemma_first_at_least_some(rows: Seq<Keyframe>, t: int, i: int)
    requires
        0 <= i < rows.len(),
        rows[i].time >= t,
        forall|j: int| 0 <= j < i ==> !(rows[j].time >= t),
    ensures
        first_at_least(rows, t) == Some(i),
    decreases rows.len(),
{
    if i > 0 {
        lemma_first_at_least_some(rows.drop_first(), t, i - 1);
    }
}

/// When no row's time is at least `t`, `first_at_least` returns nothing.
pub proof fn lemma_first_at_least_none(rows: Seq<Keyframe>, t: int)
    requires
        forall|j: int| 0 <= j < rows.len() ==> !(rows[j].time >= t),
    ensures
        first_at_least(rows, t) == None::<int>,
    decreases rows.len(),
{
    if rows.len() > 0 {
        lemma_first_at_least_none(rows.drop_first(), t);
    }
}

/// The bracket start: the first row in stored order whose time is at most the
/// effective time, or the first row overall if none qualifies.
pub open spec fn start_index(rows: Seq<Keyframe>, eff: int) -> int {
    match first_at_most(rows, eff) {
        Some(i) => i,
        None => 0,
    }
}

/// The bracket end: the first row in stored order whose time is at least the
/// effective time, or the last row overall if none qualifies.
pub open spec fn end_index(rows: Seq<Keyframe>, eff: int) -> int {
    match first_at_least(rows, eff) {
        Some(i) => i,
        None => rows.len() - 1,
    }
}

/// Finds the bracket start row by a forward scan in stored order.
pub fn start_row(rows: &Vec<Keyframe>, eff: i64) -> (i: usize)
    requires
        rows@.len() > 0,
    ensures
        i as int == start_index(rows@, eff as int),
        i < rows@.len(),
{
    let mut j: usize = 0;
    while j < rows.len()
        invariant
            0 <= j <= rows@.len(),
            forall|k: int| 0 <= k < j ==> !(rows@[k].time <= eff),
        decreases rows@.len() - j,
    {
        if rows[j].time as i64 <= eff {
            proof {
                lemma_first_at_most_some(rows@, eff as int, j as int);
            }
            return j;
        }
        j = j + 1;
    }
    proof {
        lemma_first_at_most_none(rows@, eff as int);
    }
    0
}

/// Finds the bracket end row by a forward scan in stored order.
pub fn end_row(rows: &Vec<Keyframe>, eff: i64) -> (i: usize)
    requires
        rows@.len() > 0,
    ensures
        i as int == end_index(rows@, eff as int),
        i < rows@.len(),
{
    let mut j: usize = 0;
    while j < rows.len()
        invariant
            0 <= j <= rows@.len(),
            forall|k: int| 0 <= k < j ==> !(rows@[k].time >= eff),
        decreases rows@.len() - j,
    {
        if rows[j].time as i64 >= eff {
            proof {
                lemma_first_at_least_some(rows@, eff as int, j as int);
            }
            return j;
        }
        j = j + 1;
    }
    proof {
        lemma_first_at_least_none(rows@, eff as int);
    }
    rows.len() - 1
}

/// The interpolated value of the bracketed rows at the effective time, as an
/// exact fraction: the linear blend
/// `(start.value * (end.time - eff) + end.value * (eff - start.time))` over
/// `(end.time - start.time)`. When both bracket rows share one time, the
/// blend would divide by zero; the start row's value is returned instead.
pub open spec fn spec_interpolate(rows: Seq<Keyframe>, eff: int) -> Fraction
    recommends
        rows.len() > 0,
{
    let s = rows[start_index(rows, eff)];
    let e = rows[end_index(rows, eff)];
    if s.time == e.time {
        Fraction::spec_whole(s.value as int)
    } else {
        Fraction {
            num: (s.value * (e.time - eff) + e.value * (eff - s.time)) as i128,
            den: (e.time - s.time) as i64,
        }
    }
}

/// What evaluating a curve at an elapsed time yields. A curve with fewer than
/// two rows admits no interpolation and yields the identity transform, as
/// does every non-rotation attribute.
pub open spec fn spec_evaluate(c: CurveModel, at: int, period: Option<int>) -> ElementaryTransform {
    if c.rows.len() < 2 {
        ElementaryTransform::Identity
    } else {
        match axis_of(c.attribute) {
            None => ElementaryTransform::Identity,
            Some(axis) => ElementaryTransform::Rotation {
                axis,
                degrees: spec_interpolate(c.rows, spec_effective(at, period)),
            },
        }
    }
}

/// Bounds products of an interpolation: row fields fit in 32 bits and the
/// effective time in 64, so every intermediate fits comfortably in 128.
proof fn lemma_interpolation_fits(v: int, d: int)
    requires
        -0x8000_0000 <= v < 0x8000_0000,
        -0x2_0000_0000_0000_0000 <= d <= 0x2_0000_0000_0000_0000,
    ensures
        -0x1_0000_0000_0000_0000_0000_0000 <= v * d <= 0x1_0000_0000_0000_0000_0000_0000,
{
    assert(-0x1_0000_0000_0000_0000_0000_0000 <= v * d <= 0x1_0000_0000_0000_0000_0000_0000)
        by (nonlinear_arith)
        requires
            -0x8000_0000 <= v < 0x8000_0000,
            -0x2_0000_0000_0000_0000 <= d <= 0x2_0000_0000_0000_0000,
    ;
}

/// Evaluates one curve at the elapsed time `at`, reduced by `loop_period`
/// when one is given, into one elementary transform.
pub fn evaluate(curve: &Curve, at: i64, loop_period: Option<i64>) -> (r: ElementaryTransform)
    ensures
        r == spec_evaluate(
            curve@,
            at as int,
            match loop_period {
                Some(p) => Some(p as int),
                None => None::<int>,
            },
        ),
        r.wf(),
{
    if curve.rows.len() < 2 {
        return ElementaryTransform::Identity;
    }
    let axis = match curve.attribute {
        CurveAttribute::RotationX => Axis::X,
        CurveAttribute::RotationY => Axis::Y,
        CurveAttribute::RotationZ => Axis::Z,
        _ => {
            return ElementaryTransform::Identity;
        },
    };
    let eff = effective_time(at, loop_period);
    let si = start_row(&curve.rows, eff);
    let ei = end_row(&curve.rows, eff);
    let s = curve.rows[si];
    let e = curve.rows[ei];
    let degrees = if s.time == e.time {
        Fraction::whole(s.value)
    } else {
        proof {
            lemma_interpolation_fits(s.value as int, e.time - eff);
            lemma_interpolation_fits(e.value as int, eff - s.time);
        }
        Fraction {
            num: (s.value as i128) * ((e.time as i128) - (eff as i128)) + (e.value as i128) * ((
            eff as i128) - (s.time as i128)),
            den: (e.time as i64) - (s.time as i64),
        }
    };
    ElementaryTransform::Rotation { axis, degrees }
}

/// The models of a sequence of curves, in order.
pub open spec fn curves_view(s: Seq<Curve>) -> Seq<CurveModel> {
    s.map_values(|c: Curve| c@)
}

/// Copies a row vector.
pub fn clone_rows(rows: &Vec<Keyframe>) -> (r: Vec<Keyframe>)
    ensures
        r@ == rows@,
{
    let mut r: Vec<Keyframe> = Vec::new();
    let mut i: usize = 0;
    while i < rows.len()
        invariant
            0 <= i <= rows@.len(),
            r@ == rows@.take(i as int),
        decreases rows@.len() - i,
    {
        r.push(rows[i]);
        proof {
            assert(rows@.take(i + 1 as int) =~= rows@.take(i as int).push(rows@[i as int]));
        }
        i = i + 1;
    }
    proof {
        assert(rows@.take(rows@.len() as int) =~= rows@);
    }
    r
}

/// Copies a curve vector; the copy has the same model.
pub fn clone_curves(curves: &Vec<Curve>) -> (r: Vec<Curve>)
    ensures
        curves_view(r@) == curves_view(curves@),
{
    let mut r: Vec<Curve> = Vec::new();
    let mut i: usize = 0;
    while i < curves.len()
        invariant
            0 <= i <= curves@.len(),
            r@.len() == i,
            forall|k: int| 0 <= k < i ==> #[trigger] r@[k]@ == curves@[k]@,
        decreases curves@.len() - i,
    {
        let c = &curves[i];
        r.push(Curve { attribute: c.attribute, rows: clone_rows(&c.rows) });
        i = i + 1;
    }
    proof {
        assert(curves_view(r@) =~= curves_view(curves@));
    }
    r
}

/// Whether the rows' times are strictly increasing in stored order.
pub open spec fn strictly_increasing_times(rows: Seq<Keyframe>) -> bool {
    forall|i: int, j: int| 0 <= i < j < rows.len() ==> rows[i].time < rows[j].time
}

/// Exact-keyframe law: on rows with strictly increasing times, interpolating
/// at a time equal to one of the keyframe times yields exactly that
/// keyframe's value.
pub proof fn lemma_exact_keyframe(rows: Seq<Keyframe>, k: int)
    requires
        rows.len() > 0,
        strictly_increasing_times(rows),
        0 <= k < rows.len(),
    ensures
        spec_interpolate(rows, rows[k].time as int).wf(),
        spec_interpolate(rows, rows[k].time as int).equals_int(rows[k].value as int),
{
    let t = rows[k].time as int;
    lemma_first_at_most_some(rows, t, 0);
    lemma_first_at_least_some(rows, t, k);
    assert(start_index(rows, t) == 0);
    assert(end_index(rows, t) == k);
    if k == 0 {
        assert(spec_interpolate(rows, t) == Fraction::spec_whole(rows[0].value as int));
    } else {
        let s = rows[0];
        let e = rows[k];
        assert(s.time < e.time);
        let f = spec_interpolate(rows, t);
        lemma_interpolation_fits(s.value as int, e.time - t);
        lemma_interpolation_fits(e.value as int, t - s.time);
        assert(f.num == s.value * (e.time - t) + e.value * (t - s.time));
        assert(s.value * (e.time - t) == 0) by (nonlinear_arith)
            requires
                t == e.time,
        ;
        assert(f.den == e.time - s.time);
        assert(f.num == e.value * (e.time - s.time));
    }
}

/// Exact-keyframe law at the transform level: evaluating a rotation-tagged
/// curve with strictly increasing times, without a loop period, at one of its
/// keyframe times yields a rotation by exactly that keyframe's value.
pub proof fn lemma_exact_keyframe_transform(c: CurveModel, k: int, axis: Axis)
    requires
        c.rows.len() >= 2,
        strictly_increasing_times(c.rows),
        0 <= k < c.rows.len(),
        axis_of(c.attribute) == Some(axis),
    ensures
        spec_evaluate(c, c.rows[k].time as int, None) matches ElementaryTransform::Rotation {
            axis: a,
            degrees,
        } && a == axis && degrees.equals_int(c.rows[k].value as int),
{
    lemma_exact_keyframe(c.rows, k);
}

/// Loop-equivalence law: with a positive loop period `p` and a non-negative
/// elapsed time `t`, evaluating at `t` and at `t + k * p` yields the same
/// elementary transform for every non-negative integer `k`. (A negative
/// elapsed time is reduced with the dividend's sign and is not equivalent to
/// its wrapped counterpart.)
pub proof fn lemma_loop_equivalence(c: CurveModel, t: int, p: int, k: int)
    requires
        p > 0,
        t >= 0,
        k >= 0,
    ensures
        spec_evaluate(c, t + k * p, Some(p)) == spec_evaluate(c, t, Some(p)),
{
    assert(k * p >= 0) by (nonlinear_arith)
        requires
            p > 0,
            k >= 0,
    ;
    vstd::arithmetic::div_mod::lemma_mod_multiples_vanish(k, t, p);
    assert(spec_effective(t + k * p, Some(p)) == spec_effective(t, Some(p)));
}

/// Degenerate-curve law: a curve with fewer than two keyframe rows yields the
/// identity transform at every time.
pub proof fn lemma_degenerate_curve(c: CurveModel, at: int, period: Option<int>)
    requires
        c.rows.len() < 2,
    ensures
        spec_evaluate(c, at, period) == ElementaryTransform::Identity,
{
}

/// Non-rotation law: a curve whose attribute drives no rotation axis yields
/// the identity transform at every time, the source engine's documented
/// current behavior for position and unknown attributes.
pub proof fn lemma_non_rotation_identity(c: CurveModel, at: int, period: Option<int>)
    requires
        axis_of(c.attribute) == None::<Axis>,
    ensures
        spec_evaluate(c, at, period) == ElementaryTransform::Identity,
{
}

} // verus!
