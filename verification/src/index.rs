//! The animation index: built once from the scene's sections, then queried
//! per frame.
//!
//! Construction walks, for every instance of every section, every timeline of
//! that section: the timeline's association table names the anchors that
//! apply to the instance, the anchors name transform references, and those
//! resolve — transitively, through the combined node lookup — to model
//! animations, each paired with its optional curve set. A timeline that
//! produced at least one pair replaces the instance's previous index entry;
//! the last processed timeline wins. An instance with no pairs is absent from
//! the index.

use vstd::prelude::*;
use std::collections::HashMap;
use crate::curve::{clone_curves, curves_view, evaluate, spec_evaluate, Curve, CurveModel};
use crate::graph::{
    find_anchor, find_curve_set, find_transform_ref, resolve_id_list, spec_find_anchor,
    spec_find_curve_set, spec_find_transform_ref, spec_resolve_list, ModelAnimationNode,
    TimelineNode,
};
use crate::transform::{compose, spec_compose, BaseTransform, ElementaryTransform, TransformStep};

verus! {

broadcast use vstd::std_specs::hash::group_hash_axioms;

/// One entry of a timeline's association table: the named instance and the
/// lookup key of the anchor that applies to it.
#[derive(Clone, Copy, Debug, PartialEq, Eq, Structural)]
pub struct Association {
    pub instance_id: i32,
    pub anchor_key: i32,
}

/// One animation timeline: its node graph and its association table.
#[derive(Debug)]
pub struct Timeline {
    pub nodes: Vec<TimelineNode>,
    pub associations: Vec<Association>,
}

/// One scene section: the ids of its placed instances, in stored order, and
/// its timelines.
#[derive(Debug)]
pub struct Section {
    pub instance_ids: Vec<u32>,
    pub timelines: Vec<Timeline>,
}

/// One placed instance: its id and its static base transform.
#[derive(Clone, Copy, Debug, PartialEq, Eq, Structural)]
pub struct Instance {
    pub id: u32,
    pub transform: BaseTransform,
}

/// One resolved animation for an instance: a model animation and its curve
/// set's curves, when the referenced curve set exists.
#[derive(Debug)]
pub struct AnimationBinding {
    pub animation: ModelAnimationNode,
    pub curves: Option<Vec<Curve>>,
}

/// The mathematical model of a binding.
pub struct BindingModel {
    pub animation: ModelAnimationNode,
    pub curves: Option<Seq<CurveModel>>,
}

impl View for AnimationBinding {
    type V = BindingModel;

    open spec fn view(&self) -> BindingModel {
        BindingModel {
            animation: self.animation,
            curves: match self.curves {
                Some(cs) => Some(curves_view(cs@)),
                None => None,
            },
        }
    }
}

/// The models of a sequence of bindings, in order.
pub open spec fn bindings_view(s: Seq<AnimationBinding>) -> Seq<BindingModel> {
    s.map_values(|b: AnimationBinding| b@)
}

/// The traversal depth the resolver grants a timeline: one unit per node, so
/// that every acyclic reference chain completes and only cycles are cut.
pub open spec fn spec_fuel(nodes: Seq<TimelineNode>) -> nat {
    nodes.len()
}

/// The model animations one transform-reference id contributes: nothing if
/// the id resolves to no transform reference, otherwise the transitive
/// resolution of that reference's animation ids.
pub open spec fn spec_anims_of_tref_id(nodes: Seq<TimelineNode>, id: u16, fuel: nat) -> Seq<
    ModelAnimationNode,
> {
    match spec_find_transform_ref(nodes, id) {
        Some(t) => spec_resolve_list(nodes, t.animation_ids@, fuel),
        None => Seq::empty(),
    }
}

/// The model animations a list of transform-reference ids contributes, in id
/// order.
pub open spec fn spec_anims_of_tref_ids(nodes: Seq<TimelineNode>, ids: Seq<u16>, fuel: nat) -> Seq<
    ModelAnimationNode,
>
    decreases ids.len(),
{
    if ids.len() == 0 {
        Seq::empty()
    } else {
        spec_anims_of_tref_id(nodes, ids[0], fuel) + spec_anims_of_tref_ids(
            nodes,
            ids.drop_first(),
            fuel,
        )
    }
}

/// The model animations one association contributes: nothing unless it names
/// the instance and its key finds an anchor; otherwise whatever the anchor's
/// transform references resolve to.
pub open spec fn spec_anims_of_assoc(
    nodes: Seq<TimelineNode>,
    a: Association,
    instance_id: u32,
    fuel: nat,
) -> Seq<ModelAnimationNode> {
    if a.instance_id as u32 == instance_id {
        match spec_find_anchor(nodes, a.anchor_key as u16) {
            Some(anchor) => spec_anims_of_tref_ids(nodes, anchor.transform_ref_ids@, fuel),
            None => Seq::empty(),
        }
    } else {
        Seq::empty()
    }
}

/// The model animations a timeline's association table contributes for one
/// instance, in table order.
pub open spec fn spec_anims_of_assocs(
    nodes: Seq<TimelineNode>,
    assocs: Seq<Association>,
    instance_id: u32,
    fuel: nat,
) -> Seq<ModelAnimationNode>
    decreases assocs.len(),
{
    if assocs.len() == 0 {
        Seq::empty()
    } else {
        spec_anims_of_assoc(nodes, assocs[0], instance_id, fuel) + spec_anims_of_assocs(
            nodes,
            assocs.drop_first(),
            instance_id,
            fuel,
        )
    }
}

/// The binding one resolved model animation records: the animation and, when
/// its referenced curve set exists, that curve set's curves.
pub open spec fn spec_binding_of(nodes: Seq<TimelineNode>, m: ModelAnimationNode) -> BindingModel {
    BindingModel {
        animation: m,
        curves: match spec_find_curve_set(nodes, m.curve_set_id as u16) {
            Some(cs) => Some(curves_view(cs.curves@)),
            None => None,
        },
    }
}

/// Every binding a timeline resolves for one instance, in resolution order.
pub open spec fn spec_timeline_bindings(tl: Timeline, instance_id: u32) -> Seq<BindingModel> {
    spec_anims_of_assocs(
        tl.nodes@,
        tl.associations@,
        instance_id,
        spec_fuel(tl.nodes@),
    ).map_values(|m: ModelAnimationNode| spec_binding_of(tl.nodes@, m))
}

/// The index after one timeline is processed for one instance: a timeline
/// that resolved at least one binding replaces the instance's entry, one that
/// resolved none leaves the index unchanged.
pub open spec fn spec_apply_timeline(
    m: Map<u32, Seq<BindingModel>>,
    tl: Timeline,
    instance_id: u32,
) -> Map<u32, Seq<BindingModel>> {
    let bs = spec_timeline_bindings(tl, instance_id);
    if bs.len() > 0 {
        m.insert(instance_id, bs)
    } else {
        m
    }
}

/// The index after every timeline of a section is processed for one instance,
/// in timeline order.
pub open spec fn spec_fold_timelines(
    m: Map<u32, Seq<BindingModel>>,
    tls: Seq<Timeline>,
    instance_id: u32,
) -> Map<u32, Seq<BindingModel>>
    decreases tls.len(),
{
    if tls.len() == 0 {
        m
    } else {
        spec_fold_timelines(spec_apply_timeline(m, tls[0], instance_id), tls.drop_first(), instance_id)
    }
}

/// The index after a section's timelines are processed for each listed
/// instance, in instance order.
pub open spec fn spec_fold_instances(
    m: Map<u32, Seq<BindingModel>>,
    ids: Seq<u32>,
    tls: Seq<Timeline>,
) -> Map<u32, Seq<BindingModel>>
    decreases ids.len(),
{
    if ids.len() == 0 {
        m
    } else {
        spec_fold_instances(spec_fold_timelines(m, tls, ids[0]), ids.drop_first(), tls)
    }
}

/// The index after every section is processed, in section order.
pub open spec fn spec_fold_sections(
    m: Map<u32, Seq<BindingModel>>,
    sections: Seq<Section>,
) -> Map<u32, Seq<BindingModel>>
    decreases sections.len(),
{
    if sections.len() == 0 {
        m
    } else {
        spec_fold_sections(
            spec_fold_instances(m, sections[0].instance_ids@, sections[0].timelines@),
            sections.drop_first(),
        )
    }
}

/// The whole animation index a scene determines: deterministic in the
/// sections alone.
pub open spec fn spec_build(sections: Seq<Section>) -> Map<u32, Seq<BindingModel>> {
    spec_fold_sections(Map::empty(), sections)
}

/// Appends the model animations contributed by one anchor's transform
/// references.
fn anims_of_tref_ids(
    nodes: &Vec<TimelineNode>,
    ids: &Vec<u16>,
    fuel: usize,
    out: &mut Vec<ModelAnimationNode>,
)
    ensures
        final(out)@ == old(out)@ + spec_anims_of_tref_ids(nodes@, ids@, fuel as nat),
{
    proof {
        assert(ids@.skip(0) =~= ids@);
    }
    let mut i: usize = 0;
    while i < ids.len()
        invariant
            0 <= i <= ids@.len(),
            old(out)@ + spec_anims_of_tref_ids(nodes@, ids@, fuel as nat) == out@
                + spec_anims_of_tref_ids(nodes@, ids@.skip(i as int), fuel as nat),
        decreases ids@.len() - i,
    {
        let ghost before = out@;
        match find_transform_ref(nodes, ids[i]) {
            Some(t) => {
                resolve_id_list(nodes, &t.animation_ids, fuel, out);
            },
            None => {},
        }
        proof {
            assert(ids@.skip(i as int).drop_first() =~= ids@.skip(i + 1));
            assert(ids@.skip(i as int)[0] == ids@[i as int]);
            assert(before + (spec_anims_of_tref_id(nodes@, ids@[i as int], fuel as nat)
                + spec_anims_of_tref_ids(nodes@, ids@.skip(i + 1), fuel as nat)) =~= (before
                + spec_anims_of_tref_id(nodes@, ids@[i as int], fuel as nat))
                + spec_anims_of_tref_ids(nodes@, ids@.skip(i + 1), fuel as nat));
            assert(out@ == before + spec_anims_of_tref_id(nodes@, ids@[i as int], fuel as nat));
        }
        i = i + 1;
    }
    proof {
        assert(ids@.skip(ids@.len() as int) =~= Seq::<u16>::empty());
        assert(final(out)@ =~= old(out)@ + spec_anims_of_tref_ids(nodes@, ids@, fuel as nat));
    }
}

/// Appends the model animations a timeline's association table resolves for
/// one instance.
fn anims_of_assocs(
    nodes: &Vec<TimelineNode>,
    assocs: &Vec<Association>,
    instance_id: u32,
    fuel: usize,
    out: &mut Vec<ModelAnimationNode>,
)
    ensures
        final(out)@ == old(out)@ + spec_anims_of_assocs(
            nodes@,
            assocs@,
            instance_id,
            fuel as nat,
        ),
{
    proof {
        assert(assocs@.skip(0) =~= assocs@);
    }
    let mut i: usize = 0;
    while i < assocs.len()
        invariant
            0 <= i <= assocs@.len(),
            old(out)@ + spec_anims_of_assocs(nodes@, assocs@, instance_id, fuel as nat) == out@
                + spec_anims_of_assocs(nodes@, assocs@.skip(i as int), instance_id, fuel as nat),
        decreases assocs@.len() - i,
    {
        let ghost before = out@;
        let a = assocs[i];
        if #[verifier::truncate] (a.instance_id as u32) == instance_id {
            match find_anchor(nodes, #[verifier::truncate] (a.anchor_key as u16)) {
                Some(anchor) => {
                    anims_of_tref_ids(nodes, &anchor.transform_ref_ids, fuel, out);
                },
                None => {},
            }
        }
        proof {
            assert(assocs@.skip(i as int).drop_first() =~= assocs@.skip(i + 1));
            assert(assocs@.skip(i as int)[0] == assocs@[i as int]);
            assert(before + (spec_anims_of_assoc(nodes@, assocs@[i as int], instance_id, fuel as nat)
                + spec_anims_of_assocs(nodes@, assocs@.skip(i + 1), instance_id, fuel as nat))
                =~= (before + spec_anims_of_assoc(nodes@, assocs@[i as int], instance_id, fuel as nat))
                + spec_anims_of_assocs(nodes@, assocs@.skip(i + 1), instance_id, fuel as nat));
            assert(out@ == before + spec_anims_of_assoc(
                nodes@,
                assocs@[i as int],
                instance_id,
                fuel as nat,
            ));
        }
        i = i + 1;
    }
    proof {
        assert(assocs@.skip(assocs@.len() as int) =~= Seq::<Association>::empty());
        assert(final(out)@ =~= old(out)@ + spec_anims_of_assocs(
            nodes@,
            assocs@,
            instance_id,
            fuel as nat,
        ));
    }
}

/// Resolves every binding one timeline holds for one instance, in resolution
/// order.
pub fn timeline_bindings(tl: &Timeline, instance_id: u32) -> (r: Vec<AnimationBinding>)
    ensures
        bindings_view(r@) == spec_timeline_bindings(*tl, instance_id),
{
    let mut anims: Vec<ModelAnimationNode> = Vec::new();
    anims_of_assocs(&tl.nodes, &tl.associations, instance_id, tl.nodes.len(), &mut anims);
    let ghost spec_anims = spec_anims_of_assocs(
        tl.nodes@,
        tl.associations@,
        instance_id,
        spec_fuel(tl.nodes@),
    );
    let mut r: Vec<AnimationBinding> = Vec::new();
    let mut i: usize = 0;
    while i < anims.len()
        invariant
            0 <= i <= anims@.len(),
            anims@ == spec_anims,
            r@.len() == i,
            forall|k: int|
                0 <= k < i ==> #[trigger] r@[k]@ == spec_binding_of(tl.nodes@, spec_anims[k]),
        decreases anims@.len() - i,
    {
        let m = anims[i];
        let curves = match find_curve_set(&tl.nodes, #[verifier::truncate] (m.curve_set_id as u16)) {
            Some(cs) => Some(clone_curves(&cs.curves)),
            None => None,
        };
        r.push(AnimationBinding { animation: m, curves });
        i = i + 1;
    }
    proof {
        assert(bindings_view(r@) =~= spec_timeline_bindings(*tl, instance_id));
    }
    r
}

/// The model of a stored index table.
pub open spec fn model_of(m: Map<u32, Vec<AnimationBinding>>) -> Map<u32, Seq<BindingModel>> {
    m.map_values(|v: Vec<AnimationBinding>| bindings_view(v@))
}

/// Inserting a stored entry and inserting its model commute.
proof fn lemma_model_insert(m: Map<u32, Vec<AnimationBinding>>, k: u32, v: Vec<AnimationBinding>)
    ensures
        model_of(m.insert(k, v)) == model_of(m).insert(k, bindings_view(v@)),
{
    assert(model_of(m.insert(k, v)) =~= model_of(m).insert(k, bindings_view(v@)));
}

/// The animation index: instance id to resolved bindings, built once from the
/// scene's sections and read-only afterward.
#[derive(Debug)]
pub struct AnimationController {
    inner: HashMap<u32, Vec<AnimationBinding>>,
}

impl View for AnimationController {
    type V = Map<u32, Seq<BindingModel>>;

    closed spec fn view(&self) -> Map<u32, Seq<BindingModel>> {
        model_of(self.inner@)
    }
}

/// The first instance in stored order whose id is `id`.
pub open spec fn spec_find_instance(instances: Seq<Instance>, id: u32) -> Option<Instance>
    decreases instances.len(),
{
    if instances.len() == 0 {
        None
    } else if instances[0].id == id {
        Some(instances[0])
    } else {
        spec_find_instance(instances.drop_first(), id)
    }
}

/// `spec_find_instance` returns the match that no earlier match precedes.
pub proof fn lemma_find_instance_some(instances: Seq<Instance>, id: u32, i: int)
    requires
        0 <= i < instances.len(),
        instances[i].id == id,
        forall|j: int| 0 <= j < i ==> instances[j].id != id,
    ensures
        spec_find_instance(instances, id) == Some(instances[i]),
    decreases instances.len(),
{
    if i > 0 {
        lemma_find_instance_some(instances.drop_first(), id, i - 1);
    }
}

/// When no instance carries the id, `spec_find_instance` returns nothing.
pub proof fn lemma_find_instance_none(instances: Seq<Instance>, id: u32)
    requires
        forall|j: int| 0 <= j < instances.len() ==> instances[j].id != id,
    ensures
        spec_find_instance(instances, id) == None::<Instance>,
    decreases instances.len(),
{
    if instances.len() > 0 {
        lemma_find_instance_none(instances.drop_first(), id);
    }
}

/// Finds the first instance in stored order whose id is `id`.
pub fn find_instance(instances: &Vec<Instance>, id: u32) -> (r: Option<Instance>)
    ensures
        r == spec_find_instance(instances@, id),
{
    let mut j: usize = 0;
    while j < instances.len()
        invariant
            0 <= j <= instances@.len(),
            forall|k: int| 0 <= k < j ==> instances@[k].id != id,
        decreases instances@.len() - j,
    {
        if instances[j].id == id {
            proof {
                lemma_find_instance_some(instances@, id, j as int);
            }
            return Some(instances[j]);
        }
        j = j + 1;
    }
    proof {
        lemma_find_instance_none(instances@, id);
    }
    None
}

/// The elementary transforms one curve sequence contributes, each curve
/// evaluated at `at` with the loop period `period`.
pub open spec fn spec_curves_elems(cs: Seq<CurveModel>, at: int, period: int) -> Seq<
    ElementaryTransform,
>
    decreases cs.len(),
{
    if cs.len() == 0 {
        Seq::empty()
    } else {
        seq![spec_evaluate(cs[0], at, Some(period))] + spec_curves_elems(
            cs.drop_first(),
            at,
            period,
        )
    }
}

/// The elementary transforms one binding contributes: each curve of its curve
/// set, evaluated with the model animation's duration as loop period; a
/// binding without a curve set contributes nothing.
pub open spec fn spec_binding_elems(b: BindingModel, at: int) -> Seq<ElementaryTransform> {
    match b.curves {
        Some(cs) => spec_curves_elems(cs, at, b.animation.duration as int),
        None => Seq::empty(),
    }
}

/// The elementary transforms an index entry contributes, in binding order.
pub open spec fn spec_entry_elems(bs: Seq<BindingModel>, at: int) -> Seq<ElementaryTransform>
    decreases bs.len(),
{
    if bs.len() == 0 {
        Seq::empty()
    } else {
        spec_binding_elems(bs[0], at) + spec_entry_elems(bs.drop_first(), at)
    }
}

/// The transform plan `animate` writes for a found instance: the instance's
/// index entry — or no bindings, when the index holds none — evaluated at
/// `at` and composed with the instance's base transform.
pub open spec fn spec_animate(
    index: Map<u32, Seq<BindingModel>>,
    instances: Seq<Instance>,
    instance_id: u32,
    at: int,
) -> Seq<TransformStep>
    recommends
        spec_find_instance(instances, instance_id) is Some,
{
    let inst = spec_find_instance(instances, instance_id)->Some_0;
    let bindings = if index.contains_key(instance_id) {
        index[instance_id]
    } else {
        Seq::empty()
    };
    spec_compose(spec_entry_elems(bindings, at), inst.transform)
}

/// Determinism law: the index is a function of the sections alone — two
/// indices built from equal sections are equal.
pub proof fn lemma_build_deterministic(
    sections: Seq<Section>,
    a: Map<u32, Seq<BindingModel>>,
    b: Map<u32, Seq<BindingModel>>,
)
    requires
        a == spec_build(sections),
        b == spec_build(sections),
    ensures
        a == b,
{
}

/// The non-empty binding lists the timelines of one sequence resolve for one
/// instance, in processing order.
pub open spec fn spec_nonempty_results(tls: Seq<Timeline>, id: u32) -> Seq<Seq<BindingModel>>
    decreases tls.len(),
{
    if tls.len() == 0 {
        Seq::empty()
    } else {
        let head = spec_timeline_bindings(tls[0], id);
        let rest = spec_nonempty_results(tls.drop_first(), id);
        if head.len() > 0 {
            seq![head] + rest
        } else {
            rest
        }
    }
}

/// Overwrite law: processing a sequence of timelines for one instance leaves
/// the index entry equal to the result of the last timeline that resolved
/// anything — never a union — and leaves the whole index untouched when no
/// timeline resolved anything.
pub proof fn lemma_last_timeline_wins(
    m: Map<u32, Seq<BindingModel>>,
    tls: Seq<Timeline>,
    id: u32,
)
    ensures
        ({
            let rs = spec_nonempty_results(tls, id);
            let folded = spec_fold_timelines(m, tls, id);
            &&& rs.len() > 0 ==> folded.contains_key(id) && folded[id] == rs.last()
            &&& rs.len() == 0 ==> folded == m
        }),
    decreases tls.len(),
{
    if tls.len() > 0 {
        let head = spec_timeline_bindings(tls[0], id);
        let rest = tls.drop_first();
        let m1 = spec_apply_timeline(m, tls[0], id);
        lemma_last_timeline_wins(m1, rest, id);
        let rs = spec_nonempty_results(tls, id);
        let rs_rest = spec_nonempty_results(rest, id);
        if head.len() > 0 {
            assert(rs == seq![head] + rs_rest);
            if rs_rest.len() > 0 {
                assert(rs.last() == rs_rest.last());
            } else {
                assert(rs.last() == head);
                assert(m1 == m.insert(id, head));
            }
        }
    }
}

/// Overwrite law for exactly two timelines: when both resolve animations for
/// the same instance, the entry after both are processed equals the later
/// timeline's result.
pub proof fn lemma_overwrite_two_timelines(
    m: Map<u32, Seq<BindingModel>>,
    first: Timeline,
    second: Timeline,
    id: u32,
)
    requires
        spec_timeline_bindings(first, id).len() > 0,
        spec_timeline_bindings(second, id).len() > 0,
    ensures
        spec_fold_timelines(m, seq![first, second], id).contains_key(id),
        spec_fold_timelines(m, seq![first, second], id)[id] == spec_timeline_bindings(second, id),
{
    let tls = seq![first, second];
    assert(tls.drop_first() =~= seq![second]);
    assert(seq![second].drop_first() =~= Seq::<Timeline>::empty());
    let m1 = spec_apply_timeline(m, first, id);
    let m2 = spec_apply_timeline(m1, second, id);
    assert(tls[0] == first);
    assert(seq![second][0] == second);
    assert(spec_fold_timelines(m, tls, id) == spec_fold_timelines(m1, seq![second], id));
    assert(spec_fold_timelines(m1, seq![second], id) == spec_fold_timelines(
        m2,
        Seq::<Timeline>::empty(),
        id,
    ));
    assert(m2 == m1.insert(id, spec_timeline_bindings(second, id)));
}

/// Fallback law: a placed instance without an index entry is still animated
/// successfully, and its plan is its base transform alone — scale, Euler
/// rotation, translation — at every time.
pub proof fn lemma_animate_without_entry(
    index: Map<u32, Seq<BindingModel>>,
    instances: Seq<Instance>,
    instance_id: u32,
    at: int,
    inst: Instance,
)
    requires
        !index.contains_key(instance_id),
        spec_find_instance(instances, instance_id) == Some(inst),
    ensures
        spec_animate(index, instances, instance_id, at) == seq![
            TransformStep::Scale { factors: inst.transform.scale },
            TransformStep::RotateEuler { radians: inst.transform.rotation },
            TransformStep::Translate { offset: inst.transform.translation },
        ],
{
    assert(spec_entry_elems(Seq::empty(), at) == Seq::<ElementaryTransform>::empty());
    assert(spec_animate(index, instances, instance_id, at) =~= seq![
        TransformStep::Scale { factors: inst.transform.scale },
        TransformStep::RotateEuler { radians: inst.transform.rotation },
        TransformStep::Translate { offset: inst.transform.translation },
    ]);
}

/// Appends the elementary transforms one binding contributes at time `at`.
fn binding_elems(b: &AnimationBinding, at: i64, out: &mut Vec<ElementaryTransform>)
    ensures
        final(out)@ == old(out)@ + spec_binding_elems(b@, at as int),
{
    match &b.curves {
        None => {},
        Some(cs) => {
            let ghost models = curves_view(cs@);
            proof {
                assert(models.skip(0) =~= models);
            }
            let mut l: usize = 0;
            while l < cs.len()
                invariant
                    0 <= l <= cs@.len(),
                    models == curves_view(cs@),
                    old(out)@ + spec_curves_elems(models, at as int, b.animation.duration as int)
                        == out@ + spec_curves_elems(
                        models.skip(l as int),
                        at as int,
                        b.animation.duration as int,
                    ),
                decreases cs@.len() - l,
            {
                let e = evaluate(&cs[l], at, Some(b.animation.duration as i64));
                out.push(e);
                proof {
                    assert(models.skip(l as int).drop_first() =~= models.skip(l + 1));
                    assert(models.skip(l as int)[0] == cs@[l as int]@);
                }
                l = l + 1;
            }
            proof {
                assert(models.skip(cs@.len() as int) =~= Seq::<CurveModel>::empty());
            }
        },
    }
    proof {
        assert(final(out)@ =~= old(out)@ + spec_binding_elems(b@, at as int));
    }
}

/// Appends the elementary transforms a whole index entry contributes.
fn entry_elems(bs: &Vec<AnimationBinding>, at: i64, out: &mut Vec<ElementaryTransform>)
    ensures
        final(out)@ == old(out)@ + spec_entry_elems(bindings_view(bs@), at as int),
{
    let ghost models = bindings_view(bs@);
    proof {
        assert(models.skip(0) =~= models);
    }
    let mut k: usize = 0;
    while k < bs.len()
        invariant
            0 <= k <= bs@.len(),
            models == bindings_view(bs@),
            old(out)@ + spec_entry_elems(models, at as int) == out@ + spec_entry_elems(
                models.skip(k as int),
                at as int,
            ),
        decreases bs@.len() - k,
    {
        let ghost before = out@;
        binding_elems(&bs[k], at, out);
        proof {
            assert(models.skip(k as int).drop_first() =~= models.skip(k + 1));
            assert(models.skip(k as int)[0] == bs@[k as int]@);
            assert(before + (spec_binding_elems(bs@[k as int]@, at as int) + spec_entry_elems(
                models.skip(k + 1),
                at as int,
            )) =~= (before + spec_binding_elems(bs@[k as int]@, at as int)) + spec_entry_elems(
                models.skip(k + 1),
                at as int,
            ));
        }
        k = k + 1;
    }
    proof {
        assert(models.skip(bs@.len() as int) =~= Seq::<BindingModel>::empty());
        assert(final(out)@ =~= old(out)@ + spec_entry_elems(models, at as int));
    }
}

impl AnimationController {
    /// Builds the animation index from the scene's sections: for every
    /// instance of every section, in stored order, every timeline of that
    /// section is resolved, and a timeline with at least one binding
    /// replaces the instance's entry — the last processed timeline wins.
    /// Returns nothing when no instance resolved any animation.
    pub fn new(sections: &Vec<Section>) -> (r: Option<AnimationController>)
        ensures
            match r {
                Some(c) => c@ == spec_build(sections@) && spec_build(sections@) != Map::<
                    u32,
                    Seq<BindingModel>,
                >::empty(),
                None => spec_build(sections@) == Map::<u32, Seq<BindingModel>>::empty(),
            },
    {
        let mut inner: HashMap<u32, Vec<AnimationBinding>> = HashMap::new();
        proof {
            assert(model_of(inner@) =~= Map::<u32, Seq<BindingModel>>::empty());
            assert(sections@.skip(0) =~= sections@);
        }
        let mut i: usize = 0;
        while i < sections.len()
            invariant
                0 <= i <= sections@.len(),
                vstd::std_specs::hash::obeys_key_model::<u32>(),
                vstd::std_specs::hash::builds_valid_hashers::<std::hash::RandomState>(),
                spec_fold_sections(model_of(inner@), sections@.skip(i as int)) == spec_build(
                    sections@,
                ),
            decreases sections@.len() - i,
        {
            let sec = &sections[i];
            let ghost ids = sec.instance_ids@;
            let ghost tls = sec.timelines@;
            proof {
                assert(sections@.skip(i as int).drop_first() =~= sections@.skip(i + 1));
                assert(sections@.skip(i as int)[0] == sections@[i as int]);
                assert(ids.skip(0) =~= ids);
            }
            let mut j: usize = 0;
            while j < sec.instance_ids.len()
                invariant
                    0 <= j <= ids.len(),
                    ids == sec.instance_ids@,
                    tls == sec.timelines@,
                    vstd::std_specs::hash::obeys_key_model::<u32>(),
                    vstd::std_specs::hash::builds_valid_hashers::<std::hash::RandomState>(),
                    spec_fold_sections(
                        spec_fold_instances(model_of(inner@), ids.skip(j as int), tls),
                        sections@.skip(i + 1),
                    ) == spec_build(sections@),
                decreases ids.len() - j,
            {
                let id = sec.instance_ids[j];
                proof {
                    assert(ids.skip(j as int).drop_first() =~= ids.skip(j + 1));
                    assert(ids.skip(j as int)[0] == ids[j as int]);
                    assert(tls.skip(0) =~= tls);
                }
                let mut k: usize = 0;
                while k < sec.timelines.len()
                    invariant
                        0 <= k <= tls.len(),
                        ids == sec.instance_ids@,
                        tls == sec.timelines@,
                        id == ids[j as int],
                        0 <= j < ids.len(),
                        vstd::std_specs::hash::obeys_key_model::<u32>(),
                        vstd::std_specs::hash::builds_valid_hashers::<std::hash::RandomState>(),
                        spec_fold_sections(
                            spec_fold_instances(
                                spec_fold_timelines(model_of(inner@), tls.skip(k as int), id),
                                ids.skip(j + 1),
                                tls,
                            ),
                            sections@.skip(i + 1),
                        ) == spec_build(sections@),
                    decreases tls.len() - k,
                {
                    let ghost before = model_of(inner@);
                    let bs = timeline_bindings(&sec.timelines[k], id);
                    if bs.len() > 0 {
                        proof {
                            lemma_model_insert(inner@, id, bs);
                        }
                        inner.insert(id, bs);
                    }
                    proof {
                        assert(tls.skip(k as int).drop_first() =~= tls.skip(k + 1));
                        assert(tls.skip(k as int)[0] == tls[k as int]);
                        assert(model_of(inner@) == spec_apply_timeline(before, tls[k as int], id));
                    }
                    k = k + 1;
                }
                proof {
                    assert(tls.skip(tls.len() as int) =~= Seq::<Timeline>::empty());
                }
                j = j + 1;
            }
            proof {
                assert(ids.skip(ids.len() as int) =~= Seq::<u32>::empty());
            }
            i = i + 1;
        }
        proof {
            assert(sections@.skip(sections@.len() as int) =~= Seq::<Section>::empty());
            assert(model_of(inner@) == spec_build(sections@));
        }
        if inner.is_empty() {
            proof {
                assert(model_of(inner@) =~= Map::<u32, Seq<BindingModel>>::empty());
            }
            None
        } else {
            proof {
                let k = inner@.dom().choose();
                assert(inner@.dom().contains(k));
                assert(model_of(inner@).contains_key(k));
            }
            Some(AnimationController { inner })
        }
    }

    /// Resolves the final transform plan for one instance at elapsed time
    /// `at`. Returns whether the instance exists: with an unknown id nothing
    /// is written; otherwise the plan — the instance's resolved animations
    /// evaluated at `at`, then its base transform — replaces `out`'s
    /// contents. An instance without an index entry gets its base transform
    /// alone.
    pub fn animate(
        &self,
        instances: &Vec<Instance>,
        instance_id: u32,
        at: i64,
        out: &mut Vec<TransformStep>,
    ) -> (found: bool)
        ensures
            found == (spec_find_instance(instances@, instance_id) is Some),
            !found ==> *final(out) == *old(out),
            found ==> final(out)@ == spec_animate(self@, instances@, instance_id, at as int),
    {
        broadcast use vstd::std_specs::hash::group_hash_axioms;

        let inst = match find_instance(instances, instance_id) {
            Some(inst) => inst,
            None => {
                return false;
            },
        };
        let mut elems: Vec<ElementaryTransform> = Vec::new();
        match self.inner.get(&instance_id) {
            Some(bs) => {
                proof {
                    assert(self.inner@.contains_key(instance_id));
                    assert(self@.contains_key(instance_id));
                    assert(self@[instance_id] == bindings_view(bs@));
                }
                entry_elems(bs, at, &mut elems);
            },
            None => {
                proof {
                    assert(!self.inner@.contains_key(instance_id));
                    assert(!self@.contains_key(instance_id));
                }
            },
        }
        out.clear();
        compose(&elems, &inst.transform, out);
        true
    }
}

} // verus!
