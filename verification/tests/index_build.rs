use ffxiv_scene::curve::{Curve, CurveAttribute, Keyframe};
use ffxiv_scene::graph::{
    find_anchor, find_curve_set, find_node, find_transform_ref, resolve_animations, AnchorNode,
    CurveSetNode, ModelAnimationNode, TimelineNode, TransformRefNode,
};
use ffxiv_scene::index::{timeline_bindings, AnimationController, Instance, Section, Timeline};
use ffxiv_scene::index::Association;
use ffxiv_scene::transform::{Axis, BaseTransform, TransformStep, Vec3Code};

fn anchor(id: u16, key: u16, refs: Vec<u16>) -> TimelineNode {
    TimelineNode::Anchor(AnchorNode { id, key, transform_ref_ids: refs })
}

fn tref(id: u16, anim_ids: Vec<u16>) -> TimelineNode {
    TimelineNode::TransformRef(TransformRefNode { id, animation_ids: anim_ids })
}

fn anim(id: u16, duration: i32, curve_set_id: i32) -> TimelineNode {
    TimelineNode::ModelAnimation(ModelAnimationNode { id, duration, curve_set_id })
}

fn curve_set(id: u16, curves: Vec<Curve>) -> TimelineNode {
    TimelineNode::CurveSet(CurveSetNode { id, curves })
}

fn rot_curve(axis_tag: CurveAttribute, rows: Vec<(i32, i32)>) -> Curve {
    Curve {
        attribute: axis_tag,
        rows: rows.into_iter().map(|(time, value)| Keyframe { time, value }).collect(),
    }
}

fn one_axis_timeline(instance_id: i32, axis_tag: CurveAttribute, duration: i32) -> Timeline {
    Timeline {
        nodes: vec![
            anchor(1, 5, vec![2]),
            tref(2, vec![3]),
            anim(3, duration, 4),
            curve_set(4, vec![rot_curve(axis_tag, vec![(0, 0), (10, 90)])]),
        ],
        associations: vec![Association { instance_id, anchor_key: 5 }],
    }
}

fn zero_base() -> BaseTransform {
    let one = 1.0f32.to_bits();
    let zero = 0.0f32.to_bits();
    BaseTransform {
        scale: Vec3Code { x: one, y: one, z: one },
        rotation: Vec3Code { x: zero, y: zero, z: zero },
        translation: Vec3Code { x: zero, y: zero, z: zero },
    }
}

#[test]
fn lookup_returns_first_match_in_stored_order() {
    let nodes = vec![
        anchor(1, 5, vec![10]),
        anchor(2, 5, vec![20]),
        tref(1, vec![30]),
        curve_set(1, vec![]),
    ];
    let a = find_anchor(&nodes, 5).expect("anchor");
    assert_eq!(a.id, 1);
    assert_eq!(a.transform_ref_ids, vec![10]);
    assert!(find_anchor(&nodes, 6).is_none());
    let t = find_transform_ref(&nodes, 1).expect("transform ref");
    assert_eq!(t.animation_ids, vec![30]);
    let c = find_curve_set(&nodes, 1).expect("curve set");
    assert_eq!(c.curves.len(), 0);
}

#[test]
fn lookups_use_separate_id_namespaces() {
    // An anchor and a transform reference may share an id without collision.
    let nodes = vec![anchor(7, 5, vec![]), tref(7, vec![1]), anim(7, 0, -1)];
    assert_eq!(find_transform_ref(&nodes, 7).expect("tref").animation_ids, vec![1]);
    // The combined lookup takes the first node in stored order among the
    // three kinds carrying the id.
    match find_node(&nodes, 7).expect("node") {
        TimelineNode::Anchor(a) => assert_eq!(a.key, 5),
        other => panic!("expected the anchor to win the combined lookup, got {:?}", other),
    }
}

#[test]
fn resolution_is_transitive_through_references() {
    let nodes = vec![tref(1, vec![2]), tref(2, vec![3]), anim(3, 60, 9)];
    let mut out: Vec<ModelAnimationNode> = Vec::new();
    resolve_animations(&nodes, 1, nodes.len(), &mut out);
    assert_eq!(out.len(), 1);
    assert_eq!(out[0].id, 3);
    assert_eq!(out[0].duration, 60);
}

#[test]
fn resolution_cuts_reference_cycles() {
    let nodes = vec![tref(1, vec![2]), tref(2, vec![1]), anim(3, 60, 9)];
    let mut out: Vec<ModelAnimationNode> = Vec::new();
    resolve_animations(&nodes, 1, nodes.len(), &mut out);
    assert_eq!(out.len(), 0);
}

#[test]
fn timeline_bindings_pair_animations_with_curve_sets() {
    let tl = one_axis_timeline(7, CurveAttribute::RotationY, 10);
    let bindings = timeline_bindings(&tl, 7);
    assert_eq!(bindings.len(), 1);
    assert_eq!(bindings[0].animation.id, 3);
    assert_eq!(bindings[0].animation.duration, 10);
    let curves = bindings[0].curves.as_ref().expect("curve set");
    assert_eq!(curves.len(), 1);
    assert_eq!(curves[0].rows.len(), 2);
    // An unrelated instance resolves nothing.
    assert_eq!(timeline_bindings(&tl, 8).len(), 0);
}

#[test]
fn timeline_bindings_keep_animation_with_missing_curve_set() {
    let tl = Timeline {
        nodes: vec![anchor(1, 5, vec![2]), tref(2, vec![3]), anim(3, 10, 99)],
        associations: vec![Association { instance_id: 7, anchor_key: 5 }],
    };
    let bindings = timeline_bindings(&tl, 7);
    assert_eq!(bindings.len(), 1);
    assert!(bindings[0].curves.is_none());
}

#[test]
fn controller_is_none_when_nothing_resolves() {
    let sections = vec![Section {
        instance_ids: vec![7],
        timelines: vec![Timeline { nodes: vec![], associations: vec![] }],
    }];
    assert!(AnimationController::new(&sections).is_none());
}

#[test]
fn unknown_instance_returns_not_found_and_writes_nothing() {
    let sections = vec![Section {
        instance_ids: vec![7],
        timelines: vec![one_axis_timeline(7, CurveAttribute::RotationY, 10)],
    }];
    let controller = AnimationController::new(&sections).expect("controller");
    let instances = vec![Instance { id: 7, transform: zero_base() }];
    let sentinel = TransformStep::Hold;
    let mut out = vec![sentinel];
    let found = controller.animate(&instances, 999, 5, &mut out);
    assert!(!found);
    assert_eq!(out, vec![sentinel]);
}

#[test]
fn later_timeline_overwrites_earlier_entry() {
    // Two timelines in one section both resolve animations for instance 7:
    // the entry is the later timeline's result, never a union of both.
    let sections = vec![Section {
        instance_ids: vec![7],
        timelines: vec![
            one_axis_timeline(7, CurveAttribute::RotationY, 10),
            one_axis_timeline(7, CurveAttribute::RotationZ, 10),
        ],
    }];
    let controller = AnimationController::new(&sections).expect("controller");
    let instances = vec![Instance { id: 7, transform: zero_base() }];
    let mut out: Vec<TransformStep> = Vec::new();
    assert!(controller.animate(&instances, 7, 5, &mut out));
    // One rotation step from the surviving curve, then the three base steps.
    assert_eq!(out.len(), 4);
    match out[0] {
        TransformStep::Rotate { axis, degrees } => {
            assert_eq!(axis, Axis::Z);
            assert_eq!(degrees.num, 45 * degrees.den as i128);
        },
        ref other => panic!("expected the later timeline's rotation, got {:?}", other),
    }
}

#[test]
fn later_section_overwrites_earlier_entry() {
    // The same instance id placed in two sections: the later section's
    // timeline result wins, exactly as within one section.
    let sections = vec![
        Section {
            instance_ids: vec![7],
            timelines: vec![one_axis_timeline(7, CurveAttribute::RotationY, 10)],
        },
        Section {
            instance_ids: vec![7],
            timelines: vec![one_axis_timeline(7, CurveAttribute::RotationX, 10)],
        },
    ];
    let controller = AnimationController::new(&sections).expect("controller");
    let instances = vec![Instance { id: 7, transform: zero_base() }];
    let mut out: Vec<TransformStep> = Vec::new();
    assert!(controller.animate(&instances, 7, 5, &mut out));
    assert_eq!(out.len(), 4);
    match out[0] {
        TransformStep::Rotate { axis, .. } => assert_eq!(axis, Axis::X),
        ref other => panic!("expected the later section's rotation, got {:?}", other),
    }
}

#[test]
fn construction_is_deterministic() {
    let build = || {
        let sections = vec![Section {
            instance_ids: vec![7, 9],
            timelines: vec![
                one_axis_timeline(7, CurveAttribute::RotationY, 10),
                one_axis_timeline(9, CurveAttribute::RotationX, 20),
            ],
        }];
        AnimationController::new(&sections).expect("controller")
    };
    let a = build();
    let b = build();
    let instances = vec![
        Instance { id: 7, transform: zero_base() },
        Instance { id: 9, transform: zero_base() },
    ];
    for id in [7u32, 9u32] {
        for at in [0i64, 5, 15, -3] {
            let mut out_a: Vec<TransformStep> = Vec::new();
            let mut out_b: Vec<TransformStep> = Vec::new();
            assert!(a.animate(&instances, id, at, &mut out_a));
            assert!(b.animate(&instances, id, at, &mut out_b));
            assert_eq!(out_a, out_b);
        }
    }
}
