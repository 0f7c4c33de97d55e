//! The timeline graph: typed animation-description nodes and the lookups and
//! reference resolution that walk them.
//!
//! Node ids are scoped to their own variant's namespace: an anchor and a
//! transform reference may share an id without colliding. Every lookup is a
//! forward scan that returns the first match in stored order; an id that
//! resolves to nothing contributes nothing, it is never an error.

use vstd::prelude::*;
use crate::curve::Curve;

verus! {

/// An anchor node: associates instances with transform references. The `key`
/// is the lookup value named by a timeline's association table, distinct from
/// the node's own id.
#[derive(Debug)]
pub struct AnchorNode {
    pub id: u16,
    pub key: u16,
    pub transform_ref_ids: Vec<u16>,
}

/// A transform-reference node: points at further animation-description nodes.
#[derive(Debug)]
pub struct TransformRefNode {
    pub id: u16,
    pub animation_ids: Vec<u16>,
}

/// A model-animation node: a loop duration, in the caller's integer time
/// units, and a reference to one curve set.
#[derive(Clone, Copy, Debug, PartialEq, Eq, Structural)]
pub struct ModelAnimationNode {
    pub id: u16,
    pub duration: i32,
    pub curve_set_id: i32,
}

/// A curve-set node: an ordered collection of attribute curves.
#[derive(Debug)]
pub struct CurveSetNode {
    pub id: u16,
    pub curves: Vec<Curve>,
}

/// One node of a timeline graph. Node kinds that play no part in animation
/// resolution are carried as `Other`.
#[derive(Debug)]
pub enum TimelineNode {
    Anchor(AnchorNode),
    TransformRef(TransformRefNode),
    ModelAnimation(ModelAnimationNode),
    CurveSet(CurveSetNode),
    Other,
}


/// Whether a node is an anchor whose lookup key is `key`.
pub open spec fn anchor_matches(node: TimelineNode, key: u16) -> bool {
    node matches TimelineNode::Anchor(a) && a.key == key
}

/// Whether a node is a transform reference whose id is `id`.
pub open spec fn transform_ref_matches(node: TimelineNode, id: u16) -> bool {
    node matches TimelineNode::TransformRef(t) && t.id == id
}

/// Whether a node is a curve set whose id is `id`.
pub open spec fn curve_set_matches(node: TimelineNode, id: u16) -> bool {
    node matches TimelineNode::CurveSet(c) && c.id == id
}

/// The first anchor in stored order whose lookup key is `key`.
pub open spec fn spec_find_anchor(nodes: Seq<TimelineNode>, key: u16) -> Option<AnchorNode>
    decreases nodes.len(),
{
    if nodes.len() == 0 {
        None
    } else if anchor_matches(nodes[0], key) {
        Some(nodes[0]->Anchor_0)
    } else {
        spec_find_anchor(nodes.drop_first(), key)
    }
}

/// The first transform reference in stored order whose id is `id`.
pub open spec fn spec_find_transform_ref(nodes: Seq<TimelineNode>, id: u16) -> Option<
    TransformRefNode,
>
    decreases nodes.len(),
{
    if nodes.len() == 0 {
        None
    } else if transform_ref_matches(nodes[0], id) {
        Some(nodes[0]->TransformRef_0)
    } else {
        spec_find_transform_ref(nodes.drop_first(), id)
    }
}

/// The first curve set in stored order whose id is `id`.
pub open spec fn spec_find_curve_set(nodes: Seq<TimelineNode>, id: u16) -> Option<CurveSetNode>
    decreases nodes.len(),
{
    if nodes.len() == 0 {
        None
    } else if curve_set_matches(nodes[0], id) {
        Some(nodes[0]->CurveSet_0)
    } else {
        spec_find_curve_set(nodes.drop_first(), id)
    }
}

/// Whether the combined lookup counts this node as carrying `id`: anchors,
/// transform references and model animations take part, each in its own id
/// namespace; curve sets and other nodes do not.
pub open spec fn node_carries_id(node: TimelineNode, id: u16) -> bool {
    match node {
        TimelineNode::Anchor(a) => a.id == id,
        TimelineNode::TransformRef(t) => t.id == id,
        TimelineNode::ModelAnimation(m) => m.id == id,
        _ => false,
    }
}

/// The combined polymorphic lookup: the first node in stored order that is an
/// anchor, transform reference or model animation with id `id`.
pub open spec fn spec_find_node(nodes: Seq<TimelineNode>, id: u16) -> Option<TimelineNode>
    decreases nodes.len(),
{
    if nodes.len() == 0 {
        None
    } else if node_carries_id(nodes[0], id) {
        Some(nodes[0])
    } else {
        spec_find_node(nodes.drop_first(), id)
    }
}

/// `spec_find_anchor` returns the match that no earlier match precedes.
pub proof fn lemma_find_anchor_some(nodes: Seq<TimelineNode>, key: u16, i: int)
    requires
        0 <= i < nodes.len(),
        anchor_matches(nodes[i], key),
        forall|j: int|
            0 <= j < i ==> !anchor_matches(nodes[j], key),
    ensures
        spec_find_anchor(nodes, key) == Some(nodes[i]->Anchor_0),
    decreases nodes.len(),
{
    if i > 0 {
        lemma_find_anchor_some(nodes.drop_first(), key, i - 1);
    }
}

/// When no anchor carries the key, `spec_find_anchor` returns nothing.
pub proof fn lemma_find_anchor_none(nodes: Seq<TimelineNode>, key: u16)
    requires
        forall|j: int|
            0 <= j < nodes.len() ==> !anchor_matches(nodes[j], key),
    ensures
        spec_find_anchor(nodes, key) == None::<AnchorNode>,
    decreases nodes.len(),
{
    if nodes.len() > 0 {
        lemma_find_anchor_none(nodes.drop_first(), key);
    }
}

/// `spec_find_transform_ref` returns the match that no earlier match
/// precedes.
pub proof fn lemma_find_transform_ref_some(nodes: Seq<TimelineNode>, id: u16, i: int)
    requires
        0 <= i < nodes.len(),
        transform_ref_matches(nodes[i], id),
        forall|j: int|
            0 <= j < i ==> !transform_ref_matches(nodes[j], id),
    ensures
        spec_find_transform_ref(nodes, id) == Some(nodes[i]->TransformRef_0),
    decreases nodes.len(),
{
    if i > 0 {
        lemma_find_transform_ref_some(nodes.drop_first(), id, i - 1);
    }
}

/// When no transform reference carries the id, `spec_find_transform_ref`
/// returns nothing.
pub proof fn lemma_find_transform_ref_none(nodes: Seq<TimelineNode>, id: u16)
    requires
        forall|j: int|
            0 <= j < nodes.len() ==> !transform_ref_matches(nodes[j], id),
    ensures
        spec_find_transform_ref(nodes, id) == None::<TransformRefNode>,
    decreases nodes.len(),
{
    if nodes.len() > 0 {
        lemma_find_transform_ref_none(nodes.drop_first(), id);
    }
}

/// `spec_find_curve_set` returns the match that no earlier match precedes.
pub proof fn lemma_find_curve_set_some(nodes: Seq<TimelineNode>, id: u16, i: int)
    requires
        0 <= i < nodes.len(),
        curve_set_matches(nodes[i], id),
        forall|j: int|
            0 <= j < i ==> !curve_set_matches(nodes[j], id),
    ensures
        spec_find_curve_set(nodes, id) == Some(nodes[i]->CurveSet_0),
    decreases nodes.len(),
{
    if i > 0 {
        lemma_find_curve_set_some(nodes.drop_first(), id, i - 1);
    }
}

/// When no curve set carries the id, `spec_find_curve_set` returns nothing.
pub proof fn lemma_find_curve_set_none(nodes: Seq<TimelineNode>, id: u16)
    requires
        forall|j: int|
            0 <= j < nodes.len() ==> !curve_set_matches(nodes[j], id),
    ensures
        spec_find_curve_set(nodes, id) == None::<CurveSetNode>,
    decreases nodes.len(),
{
    if nodes.len() > 0 {
        lemma_find_curve_set_none(nodes.drop_first(), id);
    }
}

/// `spec_find_node` returns the match that no earlier match precedes.
pub proof fn lemma_find_node_some(nodes: Seq<TimelineNode>, id: u16, i: int)
    requires
        0 <= i < nodes.len(),
        node_carries_id(nodes[i], id),
        forall|j: int| 0 <= j < i ==> !node_carries_id(nodes[j], id),
    ensures
        spec_find_node(nodes, id) == Some(nodes[i]),
    decreases nodes.len(),
{
    if i > 0 {
        lemma_find_node_some(nodes.drop_first(), id, i - 1);
    }
}

/// When no node carries the id, `spec_find_node` returns nothing.
pub proof fn lemma_find_node_none(nodes: Seq<TimelineNode>, id: u16)
    requires
        forall|j: int| 0 <= j < nodes.len() ==> !node_carries_id(nodes[j], id),
    ensures
        spec_find_node(nodes, id) == None::<TimelineNode>,
    decreases nodes.len(),
{
    if nodes.len() > 0 {
        lemma_find_node_none(nodes.drop_first(), id);
    }
}

/// Finds the first anchor in stored order whose lookup key is `key`.
pub fn find_anchor<'a>(nodes: &'a Vec<TimelineNode>, key: u16) -> (r: Option<&'a AnchorNode>)
    ensures
        match r {
            Some(a) => spec_find_anchor(nodes@, key) == Some(*a),
            None => spec_find_anchor(nodes@, key) == None::<AnchorNode>,
        },
{
    let mut j: usize = 0;
    while j < nodes.len()
        invariant
            0 <= j <= nodes@.len(),
            forall|k: int|
                0 <= k < j ==> !anchor_matches(nodes@[k], key),
        decreases nodes@.len() - j,
    {
        match &nodes[j] {
            TimelineNode::Anchor(a) => {
                if a.key == key {
                    proof {
                        lemma_find_anchor_some(nodes@, key, j as int);
                    }
                    return Some(a);
                }
            },
            _ => {},
        }
        j = j + 1;
    }
    proof {
        lemma_find_anchor_none(nodes@, key);
    }
    None
}

/// Finds the first transform reference in stored order whose id is `id`.
pub fn find_transform_ref<'a>(nodes: &'a Vec<TimelineNode>, id: u16) -> (r: Option<
    &'a TransformRefNode,
>)
    ensures
        match r {
            Some(t) => spec_find_transform_ref(nodes@, id) == Some(*t),
            None => spec_find_transform_ref(nodes@, id) == None::<TransformRefNode>,
        },
{
    let mut j: usize = 0;
    while j < nodes.len()
        invariant
            0 <= j <= nodes@.len(),
            forall|k: int|
                0 <= k < j ==> !transform_ref_matches(nodes@[k], id),
        decreases nodes@.len() - j,
    {
        match &nodes[j] {
            TimelineNode::TransformRef(t) => {
                if t.id == id {
                    proof {
                        lemma_find_transform_ref_some(nodes@, id, j as int);
                    }
                    return Some(t);
                }
            },
            _ => {},
        }
        j = j + 1;
    }
    proof {
        lemma_find_transform_ref_none(nodes@, id);
    }
    None
}

/// Finds the first curve set in stored order whose id is `id`.
pub fn find_curve_set<'a>(nodes: &'a Vec<TimelineNode>, id: u16) -> (r: Option<&'a CurveSetNode>)
    ensures
        match r {
            Some(c) => spec_find_curve_set(nodes@, id) == Some(*c),
            None => spec_find_curve_set(nodes@, id) == None::<CurveSetNode>,
        },
{
    let mut j: usize = 0;
    while j < nodes.len()
        invariant
            0 <= j <= nodes@.len(),
            forall|k: int|
                0 <= k < j ==> !curve_set_matches(nodes@[k], id),
        decreases nodes@.len() - j,
    {
        match &nodes[j] {
            TimelineNode::CurveSet(c) => {
                if c.id == id {
                    proof {
                        lemma_find_curve_set_some(nodes@, id, j as int);
                    }
                    return Some(c);
                }
            },
            _ => {},
        }
        j = j + 1;
    }
    proof {
        lemma_find_curve_set_none(nodes@, id);
    }
    None
}

/// Finds the first node in stored order that is an anchor, transform
/// reference or model animation with id `id`: the combined polymorphic
/// lookup over the three namespaces that animation references may point into.
pub fn find_node<'a>(nodes: &'a Vec<TimelineNode>, id: u16) -> (r: Option<&'a TimelineNode>)
    ensures
        match r {
            Some(n) => spec_find_node(nodes@, id) == Some(*n),
            None => spec_find_node(nodes@, id) == None::<TimelineNode>,
        },
{
    let mut j: usize = 0;
    while j < nodes.len()
        invariant
            0 <= j <= nodes@.len(),
            forall|k: int| 0 <= k < j ==> !node_carries_id(nodes@[k], id),
        decreases nodes@.len() - j,
    {
        let node = &nodes[j];
        let hit = match node {
            TimelineNode::Anchor(a) => a.id == id,
            TimelineNode::TransformRef(t) => t.id == id,
            TimelineNode::ModelAnimation(m) => m.id == id,
            _ => false,
        };
        if hit {
            proof {
                lemma_find_node_some(nodes@, id, j as int);
            }
            return Some(node);
        }
        j = j + 1;
    }
    proof {
        lemma_find_node_none(nodes@, id);
    }
    None
}

/// The model animations that the id `id` resolves to: a model-animation hit
/// is terminal, an anchor or transform-reference hit is traversed through its
/// referenced ids, and anything else contributes nothing. The fuel bounds the
/// traversal depth; a chain longer than the node count can only arise from a
/// reference cycle, which contributes nothing past the cut.
pub open spec fn spec_resolve(nodes: Seq<TimelineNode>, id: u16, fuel: nat) -> Seq<
    ModelAnimationNode,
>
    decreases fuel, 0int,
{
    if fuel == 0 {
        Seq::empty()
    } else {
        match spec_find_node(nodes, id) {
            None => Seq::empty(),
            Some(node) => match node {
                TimelineNode::ModelAnimation(m) => seq![m],
                TimelineNode::TransformRef(t) => spec_resolve_list(
                    nodes,
                    t.animation_ids@,
                    (fuel - 1) as nat,
                ),
                TimelineNode::Anchor(a) => spec_resolve_list(
                    nodes,
                    a.transform_ref_ids@,
                    (fuel - 1) as nat,
                ),
                _ => Seq::empty(),
            },
        }
    }
}

/// The model animations that a list of ids resolves to, in id order.
pub open spec fn spec_resolve_list(nodes: Seq<TimelineNode>, ids: Seq<u16>, fuel: nat) -> Seq<
    ModelAnimationNode,
>
    decreases fuel, ids.len(),
{
    if ids.len() == 0 {
        Seq::empty()
    } else {
        spec_resolve(nodes, ids[0], fuel) + spec_resolve_list(nodes, ids.drop_first(), fuel)
    }
}

/// Appends to `out` the model animations that `id` resolves to.
pub fn resolve_animations(
    nodes: &Vec<TimelineNode>,
    id: u16,
    fuel: usize,
    out: &mut Vec<ModelAnimationNode>,
)
    ensures
        final(out)@ == old(out)@ + spec_resolve(nodes@, id, fuel as nat),
    decreases fuel, 0int,
{
    if fuel == 0 {
        return ;
    }
    match find_node(nodes, id) {
        None => {},
        Some(node) => match node {
            TimelineNode::ModelAnimation(m) => {
                out.push(*m);
                proof {
                    assert(out@ =~= old(out)@ + spec_resolve(nodes@, id, fuel as nat));
                }
            },
            TimelineNode::TransformRef(t) => {
                resolve_id_list(nodes, &t.animation_ids, fuel - 1, out);
            },
            TimelineNode::Anchor(a) => {
                resolve_id_list(nodes, &a.transform_ref_ids, fuel - 1, out);
            },
            _ => {},
        },
    }
    proof {
        assert(out@ =~= old(out)@ + spec_resolve(nodes@, id, fuel as nat));
    }
}

/// Appends to `out` the model animations that each id in `ids` resolves to,
/// in id order.
pub fn resolve_id_list(
    nodes: &Vec<TimelineNode>,
    ids: &Vec<u16>,
    fuel: usize,
    out: &mut Vec<ModelAnimationNode>,
)
    ensures
        final(out)@ == old(out)@ + spec_resolve_list(nodes@, ids@, fuel as nat),
    decreases fuel, 1int,
{
    proof {
        assert(ids@.skip(0) =~= ids@);
    }
    let mut i: usize = 0;
    while i < ids.len()
        invariant
            0 <= i <= ids@.len(),
            old(out)@ + spec_resolve_list(nodes@, ids@, fuel as nat) == out@ + spec_resolve_list(
                nodes@,
                ids@.skip(i as int),
                fuel as nat,
            ),
        decreases ids@.len() - i,
    {
        let ghost before = out@;
        resolve_animations(nodes, ids[i], fuel, out);
        proof {
            assert(ids@.skip(i as int).drop_first() =~= ids@.skip(i + 1));
            assert(ids@.skip(i as int)[0] == ids@[i as int]);
            assert(before + (spec_resolve(nodes@, ids@[i as int], fuel as nat)
                + spec_resolve_list(nodes@, ids@.skip(i + 1), fuel as nat)) =~= (before
                + spec_resolve(nodes@, ids@[i as int], fuel as nat)) + spec_resolve_list(
                nodes@,
                ids@.skip(i + 1),
                fuel as nat,
            ));
        }
        i = i + 1;
    }
    proof {
        assert(ids@.skip(ids@.len() as int) =~= Seq::<u16>::empty());
        assert(out@ =~= old(out)@ + spec_resolve_list(nodes@, ids@, fuel as nat));
    }
}

} // verus!
