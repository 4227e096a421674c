//! Debug visualization: turns resolved global poses into bone lines, axis
//! indicators and joint labels for an external line/text renderer. A pure
//! one-way sink: commands out, nothing back.

use vstd::prelude::*;

use crate::math::{mat4_in_range, mat4_transform_res, row_mat4_transform, Matrix4, Vector3};
use crate::skeleton::Skeleton;
use crate::AnimationError;
use crate::fixed::FX_ONE;

verus! {

/// An RGBA color with fixed-point channels.
#[derive(Clone, Copy, Debug, PartialEq, Eq, Structural)]
pub struct Color {
    pub r: i64,
    pub g: i64,
    pub b: i64,
    pub a: i64,
}

/// One drawing command for the external renderer.
pub enum DebugCommand {
    /// A line segment between two model-space points.
    Line { start: Vector3, end: Vector3, color: Color },
    /// A text label at a model-space position.
    Label { text: String, position: Vector3, color: Color },
}

/// The dark grey of bones.
pub open spec fn bone_color_spec() -> Color {
    Color { r: 13107, g: 13107, b: 13107, a: FX_ONE }
}

/// The white of labels.
pub open spec fn label_color_spec() -> Color {
    Color { r: FX_ONE, g: FX_ONE, b: FX_ONE, a: FX_ONE }
}

/// The red, green and blue of the x, y and z axis indicators.
pub open spec fn axis_color_spec(axis: int) -> Color {
    if axis == 0 {
        Color { r: FX_ONE, g: 13107, b: 13107, a: FX_ONE }
    } else if axis == 1 {
        Color { r: 13107, g: FX_ONE, b: 13107, a: FX_ONE }
    } else {
        Color { r: 13107, g: 13107, b: FX_ONE, a: FX_ONE }
    }
}

/// Whether some joint has joint `i` as its parent.
pub open spec fn has_child_spec(sk: Skeleton, i: int) -> bool {
    exists|k: int|
        0 <= k < sk.joints@.len() && (#[trigger] sk.joints@[k].parent_index) == Some(i as usize)
}

/// The drawing commands for joint `i`: a bone line from its parent (and a
/// leaf extension if it is a childless non-root), an optional name label,
/// and three axis-indicator lines; `Err(Overflow)` when a point transform
/// leaves the fixed-point range.
pub open spec fn joint_cmds_res(
    sk: Skeleton,
    gp: Seq<Matrix4>,
    i: int,
    draw_labels: bool,
) -> Result<Seq<DebugCommand>, AnimationError> {
    let origin = Vector3 { x: 0, y: 0, z: 0 };
    let unit_y = Vector3 { x: 0, y: FX_ONE, z: 0 };
    let unit_x = Vector3 { x: FX_ONE, y: 0, z: 0 };
    let unit_z = Vector3 { x: 0, y: 0, z: FX_ONE };
    let jp_r = mat4_transform_res(gp[i], origin);
    let leaf_r = mat4_transform_res(gp[i], unit_y);
    let px_r = mat4_transform_res(gp[i], unit_x);
    let py_r = mat4_transform_res(gp[i], unit_y);
    let pz_r = mat4_transform_res(gp[i], unit_z);
    let parent_ok = match sk.joints@[i].parent_index {
        Some(p) => mat4_transform_res(gp[p as int], origin) is Ok,
        None => true,
    };
    if jp_r is Ok && leaf_r is Ok && px_r is Ok && py_r is Ok && pz_r is Ok && parent_ok {
        let jp = jp_r->Ok_0;
        let leaf = leaf_r->Ok_0;
        let bone = match sk.joints@[i].parent_index {
            Some(p) => {
                let pp = mat4_transform_res(gp[p as int], origin)->Ok_0;
                seq![DebugCommand::Line { start: pp, end: jp, color: bone_color_spec() }] + (
                if !has_child_spec(sk, i) {
                    seq![DebugCommand::Line { start: jp, end: leaf, color: bone_color_spec() }]
                } else {
                    Seq::empty()
                })
            },
            None => Seq::empty(),
        };
        let label = if draw_labels {
            seq![
                DebugCommand::Label {
                    text: sk.joints@[i].name,
                    position: leaf,
                    color: label_color_spec(),
                },
            ]
        } else {
            Seq::empty()
        };
        let axes = seq![
            DebugCommand::Line { start: jp, end: px_r->Ok_0, color: axis_color_spec(0) },
            DebugCommand::Line { start: jp, end: py_r->Ok_0, color: axis_color_spec(1) },
            DebugCommand::Line { start: jp, end: pz_r->Ok_0, color: axis_color_spec(2) },
        ];
        Ok(bone + label + axes)
    } else {
        Err(AnimationError::Overflow)
    }
}

/// The commands of all joints from `i` on, in joint order.
pub open spec fn draw_from(
    sk: Skeleton,
    gp: Seq<Matrix4>,
    i: int,
    draw_labels: bool,
) -> Result<Seq<DebugCommand>, AnimationError>
    decreases sk.joints@.len() - i,
{
    if i < 0 || i >= sk.joints@.len() {
        Ok(Seq::empty())
    } else {
        match joint_cmds_res(sk, gp, i, draw_labels) {
            Err(e) => Err(e),
            Ok(c) => match draw_from(sk, gp, i + 1, draw_labels) {
                Err(e) => Err(e),
                Ok(rest) => Ok(c + rest),
            },
        }
    }
}

/// Whether some joint has joint `i` as its parent.
fn has_child(skeleton: &Skeleton, i: usize) -> (r: bool)
    ensures
        r == has_child_spec(*skeleton, i as int),
{
    let n = skeleton.joints.len();
    let mut k: usize = 0;
    while k < n
        invariant
            n == skeleton.joints@.len(),
            0 <= k <= n,
            forall|k2: int|
                0 <= k2 < k ==> (#[trigger] skeleton.joints@[k2].parent_index) != Some(i),
        decreases n - k,
    {
        match skeleton.joints[k].parent_index {
            Some(p) => {
                if p == i {
                    return true;
                }
            },
            None => {},
        }
        k += 1;
    }
    false
}

/// Builds the debug drawing commands for a skeleton's resolved global
/// poses: for each joint in order, a bone line from its parent (plus a
/// leaf extension for childless non-roots), an optional name label at the
/// leaf end, and three tinted axis-indicator lines. The pose buffer may be
/// longer than the skeleton; the first joint-count entries are used.
#[verifier::rlimit(100)]
pub fn draw_skeleton(
    skeleton: &Skeleton,
    global_poses: &Vec<Matrix4>,
    draw_labels: bool,
) -> (r: Result<Vec<DebugCommand>, AnimationError>)
    requires
        skeleton.wf(),
        forall|i: int|
            0 <= i < global_poses@.len() ==> mat4_in_range(#[trigger] global_poses@[i]),
    ensures
        match r {
            Ok(v) => global_poses@.len() >= skeleton.joints@.len() && Ok::<
                Seq<DebugCommand>,
                AnimationError,
            >(v@) == draw_from(*skeleton, global_poses@, 0, draw_labels),
            Err(e) => {
                if global_poses@.len() < skeleton.joints@.len() {
                    e == AnimationError::LengthMismatch
                } else {
                    draw_from(*skeleton, global_poses@, 0, draw_labels) == Err::<
                        Seq<DebugCommand>,
                        AnimationError,
                    >(e)
                }
            },
        },
{
    let n = skeleton.joints.len();
    if global_poses.len() < n {
        return Err(AnimationError::LengthMismatch);
    }
    let origin = Vector3 { x: 0, y: 0, z: 0 };
    let unit_y = Vector3 { x: 0, y: FX_ONE, z: 0 };
    let unit_x = Vector3 { x: FX_ONE, y: 0, z: 0 };
    let unit_z = Vector3 { x: 0, y: 0, z: FX_ONE };
    let mut cmds: Vec<DebugCommand> = Vec::new();
    let mut i: usize = 0;
    proof {
        if draw_from(*skeleton, global_poses@, 0, draw_labels) is Ok {
            assert(Seq::<DebugCommand>::empty() + draw_from(
                *skeleton,
                global_poses@,
                0,
                draw_labels,
            )->Ok_0 =~= draw_from(*skeleton, global_poses@, 0, draw_labels)->Ok_0);
        }
    }
    while i < n
        invariant
            skeleton.wf(),
            n == skeleton.joints@.len(),
            global_poses@.len() >= n,
            forall|k: int|
                0 <= k < global_poses@.len() ==> mat4_in_range(#[trigger] global_poses@[k]),
            origin == (Vector3 { x: 0, y: 0, z: 0 }),
            unit_y == (Vector3 { x: 0, y: FX_ONE, z: 0 }),
            unit_x == (Vector3 { x: FX_ONE, y: 0, z: 0 }),
            unit_z == (Vector3 { x: 0, y: 0, z: FX_ONE }),
            0 <= i <= n,
            match draw_from(*skeleton, global_poses@, i as int, draw_labels) {
                Ok(rest) => draw_from(*skeleton, global_poses@, 0, draw_labels) == Ok::<
                    Seq<DebugCommand>,
                    AnimationError,
                >(cmds@ + rest),
                Err(e) => draw_from(*skeleton, global_poses@, 0, draw_labels) == Err::<
                    Seq<DebugCommand>,
                    AnimationError,
                >(e),
            },
        decreases n - i,
    {
        let gp = &global_poses[i];
        let jp = match row_mat4_transform(gp, &origin) {
            Ok(v) => v,
            Err(_) => { return Err(AnimationError::Overflow) },
        };
        let leaf = match row_mat4_transform(gp, &unit_y) {
            Ok(v) => v,
            Err(_) => { return Err(AnimationError::Overflow) },
        };
        let px = match row_mat4_transform(gp, &unit_x) {
            Ok(v) => v,
            Err(_) => { return Err(AnimationError::Overflow) },
        };
        let py = match row_mat4_transform(gp, &unit_y) {
            Ok(v) => v,
            Err(_) => { return Err(AnimationError::Overflow) },
        };
        let pz = match row_mat4_transform(gp, &unit_z) {
            Ok(v) => v,
            Err(_) => { return Err(AnimationError::Overflow) },
        };
        let mut jc: Vec<DebugCommand> = Vec::new();
        match skeleton.joints[i].parent_index {
            Some(p) => {
                let pp = match row_mat4_transform(&global_poses[p], &origin) {
                    Ok(v) => v,
                    Err(_) => { return Err(AnimationError::Overflow) },
                };
                jc.push(
                    DebugCommand::Line {
                        start: pp,
                        end: jp,
                        color: Color { r: 13107, g: 13107, b: 13107, a: FX_ONE },
                    },
                );
                if !has_child(skeleton, i) {
                    jc.push(
                        DebugCommand::Line {
                            start: jp,
                            end: leaf,
                            color: Color { r: 13107, g: 13107, b: 13107, a: FX_ONE },
                        },
                    );
                }
            },
            None => {},
        }
        if draw_labels {
            let text = skeleton.joints[i].name.clone();
            jc.push(
                DebugCommand::Label {
                    text,
                    position: leaf,
                    color: Color { r: FX_ONE, g: FX_ONE, b: FX_ONE, a: FX_ONE },
                },
            );
        }
        jc.push(
            DebugCommand::Line {
                start: jp,
                end: px,
                color: Color { r: FX_ONE, g: 13107, b: 13107, a: FX_ONE },
            },
        );
        jc.push(
            DebugCommand::Line {
                start: jp,
                end: py,
                color: Color { r: 13107, g: FX_ONE, b: 13107, a: FX_ONE },
            },
        );
        jc.push(
            DebugCommand::Line {
                start: jp,
                end: pz,
                color: Color { r: 13107, g: 13107, b: FX_ONE, a: FX_ONE },
            },
        );
        proof {
            assert(joint_cmds_res(*skeleton, global_poses@, i as int, draw_labels) == Ok::<
                Seq<DebugCommand>,
                AnimationError,
            >(jc@)) by {
                let expected = joint_cmds_res(*skeleton, global_poses@, i as int, draw_labels);
                assert(expected is Ok);
                assert(jc@ =~= expected->Ok_0);
            }
            let rest_r = draw_from(*skeleton, global_poses@, i as int + 1, draw_labels);
            if rest_r is Ok {
                assert((cmds@ + jc@) + rest_r->Ok_0 =~= cmds@ + (jc@ + rest_r->Ok_0));
            }
        }
        let mut jc_moved = jc;
        cmds.append(&mut jc_moved);
        i += 1;
    }
    proof {
        assert(cmds@ + Seq::<DebugCommand>::empty() =~= cmds@);
    }
    Ok(cmds)
}

} // verus!
