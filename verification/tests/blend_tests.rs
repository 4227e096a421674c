use skeletal_animation::animation::{AnimationClip, AnimationSample, SQT};
use skeletal_animation::blend_tree::{
    BlendParams, BlendTreeNode, BlendTreeNodeDef, ClipLibrary,
};
use skeletal_animation::debug_draw::{draw_skeleton, DebugCommand};
use skeletal_animation::math::{Matrix4, Quaternion, Vector3};
use skeletal_animation::skeleton::{Joint, Skeleton};
use skeletal_animation::AnimationError;

const ONE: i64 = 65536;

fn pose(tx: i64, ty: i64, tz: i64) -> SQT {
    SQT {
        translation: Vector3 { x: tx, y: ty, z: tz },
        scale: ONE,
        rotation: Quaternion { w: ONE, x: 0, y: 0, z: 0 },
    }
}

fn one_joint_clip(translations: Vec<Vector3>, rate: i64) -> AnimationClip {
    let samples: Vec<AnimationSample> = translations
        .into_iter()
        .map(|t| AnimationSample {
            local_poses: vec![SQT {
                translation: t,
                scale: ONE,
                rotation: Quaternion { w: ONE, x: 0, y: 0, z: 0 },
            }],
        })
        .collect();
    AnimationClip::new(samples, rate).unwrap()
}

fn zero() -> Vector3 {
    Vector3 { x: 0, y: 0, z: 0 }
}

#[test]
fn clip_node_delegates_to_clip() {
    let mut lib = ClipLibrary::new();
    lib.add_clip(
        "walk".to_string(),
        one_joint_clip(vec![zero(), Vector3 { x: ONE, y: 0, z: 0 }], ONE),
    );
    let tree =
        BlendTreeNode::from_def(BlendTreeNodeDef::ClipNode("walk".to_string()), &lib).unwrap();
    let params = BlendParams::new();
    let mut out = vec![pose(0, 0, 0)];
    tree.get_output_pose(&lib, ONE / 2, &params, &mut out).unwrap();
    assert_eq!(out[0].translation, Vector3 { x: ONE / 2, y: 0, z: 0 });
}

#[test]
fn evaluation_accepts_longer_buffer_and_keeps_tail() {
    // A buffer longer than the joint count gets its prefix written and
    // its tail left untouched, matching direct clip sampling.
    let mut lib = ClipLibrary::new();
    lib.add_clip(
        "walk".to_string(),
        one_joint_clip(vec![zero(), Vector3 { x: ONE, y: 0, z: 0 }], ONE),
    );
    let tree =
        BlendTreeNode::from_def(BlendTreeNodeDef::ClipNode("walk".to_string()), &lib).unwrap();
    let params = BlendParams::new();
    let sentinel = pose(9 * ONE, 9 * ONE, 9 * ONE);
    let mut out = vec![pose(0, 0, 0), sentinel];
    tree.get_output_pose(&lib, ONE / 2, &params, &mut out).unwrap();
    assert_eq!(out[0].translation, Vector3 { x: ONE / 2, y: 0, z: 0 });
    assert_eq!(out[1], sentinel);
    // Direct sampling of the same clip agrees on the same buffer.
    let mut direct = vec![pose(0, 0, 0), sentinel];
    lib.get(0)
        .get_interpolated_poses_at_time(ONE / 2, &mut direct)
        .unwrap();
    assert_eq!(out, direct);
}

#[test]
fn draw_skeleton_accepts_longer_pose_buffer() {
    let skeleton = Skeleton::new(vec![Joint { name: "root".to_string(), parent_index: None }])
        .unwrap();
    let id = Matrix4 {
        m00: ONE, m01: 0, m02: 0, m03: 0,
        m10: 0, m11: ONE, m12: 0, m13: 0,
        m20: 0, m21: 0, m22: ONE, m23: 0,
        m30: 0, m31: 0, m32: 0, m33: ONE,
    };
    let cmds = draw_skeleton(&skeleton, &vec![id, id, id], false).unwrap();
    assert_eq!(cmds.len(), 3);
    assert_eq!(
        draw_skeleton(&skeleton, &vec![], false).err(),
        Some(AnimationError::LengthMismatch)
    );
}

#[test]
fn from_def_reports_missing_clip() {
    let lib = ClipLibrary::new();
    let def = BlendTreeNodeDef::LerpNode(
        Box::new(BlendTreeNodeDef::ClipNode("a".to_string())),
        Box::new(BlendTreeNodeDef::ClipNode("b".to_string())),
        "w".to_string(),
    );
    assert!(matches!(
        BlendTreeNode::from_def(def, &lib),
        Err(AnimationError::MissingClip)
    ));
}

#[test]
fn evaluation_reports_missing_parameter() {
    let mut lib = ClipLibrary::new();
    lib.add_clip("a".to_string(), one_joint_clip(vec![zero()], ONE));
    lib.add_clip("b".to_string(), one_joint_clip(vec![zero()], ONE));
    let def = BlendTreeNodeDef::LerpNode(
        Box::new(BlendTreeNodeDef::ClipNode("a".to_string())),
        Box::new(BlendTreeNodeDef::ClipNode("b".to_string())),
        "w".to_string(),
    );
    let tree = BlendTreeNode::from_def(def, &lib).unwrap();
    let params = BlendParams::new();
    let mut out = vec![pose(0, 0, 0)];
    assert_eq!(
        tree.get_output_pose(&lib, 0, &params, &mut out),
        Err(AnimationError::MissingParameter)
    );
}

#[test]
fn evaluation_reports_buffer_joint_mismatch() {
    let mut lib = ClipLibrary::new();
    lib.add_clip("a".to_string(), one_joint_clip(vec![zero()], ONE));
    let tree =
        BlendTreeNode::from_def(BlendTreeNodeDef::ClipNode("a".to_string()), &lib).unwrap();
    let params = BlendParams::new();
    let mut out: Vec<SQT> = vec![];
    assert_eq!(
        tree.get_output_pose(&lib, 0, &params, &mut out),
        Err(AnimationError::LengthMismatch)
    );
}

#[test]
fn blend_weight_extrapolation_can_overflow() {
    let mut lib = ClipLibrary::new();
    lib.add_clip("a".to_string(), one_joint_clip(vec![zero()], ONE));
    lib.add_clip(
        "b".to_string(),
        one_joint_clip(vec![Vector3 { x: 1099511627776, y: 0, z: 0 }], ONE),
    );
    let def = BlendTreeNodeDef::LerpNode(
        Box::new(BlendTreeNodeDef::ClipNode("a".to_string())),
        Box::new(BlendTreeNodeDef::ClipNode("b".to_string())),
        "w".to_string(),
    );
    let tree = BlendTreeNode::from_def(def, &lib).unwrap();
    let mut params = BlendParams::new();
    params.set("w".to_string(), 1099511627776);
    let mut out = vec![pose(0, 0, 0)];
    assert_eq!(
        tree.get_output_pose(&lib, 0, &params, &mut out),
        Err(AnimationError::Overflow)
    );
}

#[test]
fn blend_params_newest_value_wins() {
    let mut params = BlendParams::new();
    params.set("w".to_string(), 1);
    params.set("w".to_string(), 2);
    assert_eq!(params.get(&"w".to_string()), Some(2));
    assert_eq!(params.get(&"missing".to_string()), None);
}

#[test]
fn evaluation_is_deterministic() {
    let mut lib = ClipLibrary::new();
    lib.add_clip(
        "a".to_string(),
        one_joint_clip(vec![zero(), Vector3 { x: ONE, y: ONE, z: 0 }], 3 * ONE),
    );
    lib.add_clip(
        "b".to_string(),
        one_joint_clip(vec![Vector3 { x: 0, y: 0, z: ONE }, zero()], 3 * ONE),
    );
    let def = BlendTreeNodeDef::LerpNode(
        Box::new(BlendTreeNodeDef::ClipNode("a".to_string())),
        Box::new(BlendTreeNodeDef::ClipNode("b".to_string())),
        "w".to_string(),
    );
    let tree = BlendTreeNode::from_def(def, &lib).unwrap();
    let mut params = BlendParams::new();
    params.set("w".to_string(), 12345);
    let mut out1 = vec![pose(0, 0, 0)];
    let mut out2 = vec![pose(0, 0, 0)];
    tree.get_output_pose(&lib, 7777, &params, &mut out1).unwrap();
    tree.get_output_pose(&lib, 7777, &params, &mut out2).unwrap();
    assert_eq!(out1, out2);
}

#[test]
fn end_to_end_two_clip_blend() {
    // Clip A: two identity samples at rate 2. Clip B: identity at sample 0,
    // translation (0, 1, 0) at sample 1, rate 2. Lerp(A, B, "w") at
    // time 0.5 with w = 0.5 must yield translation (0, 0.5, 0).
    let mut lib = ClipLibrary::new();
    lib.add_clip("a".to_string(), one_joint_clip(vec![zero(), zero()], 2 * ONE));
    lib.add_clip(
        "b".to_string(),
        one_joint_clip(vec![zero(), Vector3 { x: 0, y: ONE, z: 0 }], 2 * ONE),
    );
    let def = BlendTreeNodeDef::LerpNode(
        Box::new(BlendTreeNodeDef::ClipNode("a".to_string())),
        Box::new(BlendTreeNodeDef::ClipNode("b".to_string())),
        "w".to_string(),
    );
    let tree = BlendTreeNode::from_def(def, &lib).unwrap();
    let mut params = BlendParams::new();
    params.set("w".to_string(), ONE / 2);
    let mut out = vec![pose(0, 0, 0)];
    tree.get_output_pose(&lib, ONE / 2, &params, &mut out).unwrap();
    assert_eq!(out[0].translation, Vector3 { x: 0, y: ONE / 2, z: 0 });
    assert_eq!(out[0].scale, ONE);
    assert_eq!(out[0].rotation, Quaternion { w: ONE, x: 0, y: 0, z: 0 });
}

#[test]
fn draw_skeleton_emits_bones_axes_and_labels() {
    let skeleton = Skeleton::new(vec![
        Joint { name: "root".to_string(), parent_index: None },
        Joint { name: "tip".to_string(), parent_index: Some(0) },
    ])
    .unwrap();
    let id = Matrix4 {
        m00: ONE, m01: 0, m02: 0, m03: 0,
        m10: 0, m11: ONE, m12: 0, m13: 0,
        m20: 0, m21: 0, m22: ONE, m23: 0,
        m30: 0, m31: 0, m32: 0, m33: ONE,
    };
    let cmds = draw_skeleton(&skeleton, &vec![id, id], false).unwrap();
    // Root: three axis lines. Tip: bone, leaf extension, three axis lines.
    assert_eq!(cmds.len(), 8);
    match &cmds[0] {
        DebugCommand::Line { start, end, .. } => {
            assert_eq!(*start, Vector3 { x: 0, y: 0, z: 0 });
            assert_eq!(*end, Vector3 { x: ONE, y: 0, z: 0 });
        },
        _ => panic!("expected a line"),
    }
    let with_labels = draw_skeleton(&skeleton, &vec![id, id], true).unwrap();
    assert_eq!(with_labels.len(), 10);
    let label_count = with_labels
        .iter()
        .filter(|c| matches!(c, DebugCommand::Label { .. }))
        .count();
    assert_eq!(label_count, 2);
}
