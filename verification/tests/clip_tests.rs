use skeletal_animation::animation::{
    calculate_global_poses, lerp_pose, sqt_identity, AnimationClip, AnimationSample,
    AnimationTrack, SQT,
};
use skeletal_animation::math::{
    lerp_quaternion, matrix_to_quaternion, quaternion_to_matrix, row_mat4_mul, Matrix4,
    Quaternion, Vector3,
};
use skeletal_animation::skeleton::{Joint, Skeleton};
use skeletal_animation::AnimationError;

const ONE: i64 = 65536;

fn pose(tx: i64, ty: i64, tz: i64) -> SQT {
    SQT {
        translation: Vector3 { x: tx, y: ty, z: tz },
        scale: ONE,
        rotation: Quaternion { w: ONE, x: 0, y: 0, z: 0 },
    }
}

fn sample(poses: Vec<SQT>) -> AnimationSample {
    AnimationSample { local_poses: poses }
}

fn ident_matrix() -> Matrix4 {
    Matrix4 {
        m00: ONE, m01: 0, m02: 0, m03: 0,
        m10: 0, m11: ONE, m12: 0, m13: 0,
        m20: 0, m21: 0, m22: ONE, m23: 0,
        m30: 0, m31: 0, m32: 0, m33: ONE,
    }
}

#[test]
fn clip_construction_rejects_empty() {
    assert_eq!(
        AnimationClip::new(vec![], ONE).err(),
        Some(AnimationError::EmptyClip)
    );
}

#[test]
fn clip_construction_rejects_bad_rate() {
    let samples = vec![sample(vec![pose(0, 0, 0)])];
    assert_eq!(
        AnimationClip::new(samples, 0).err(),
        Some(AnimationError::InvalidRate)
    );
}

#[test]
fn clip_construction_rejects_mismatched_samples() {
    let samples = vec![
        sample(vec![pose(0, 0, 0)]),
        sample(vec![pose(0, 0, 0), pose(0, 0, 0)]),
    ];
    assert_eq!(
        AnimationClip::new(samples, ONE).err(),
        Some(AnimationError::LengthMismatch)
    );
}

#[test]
fn clip_construction_rejects_out_of_range_pose() {
    let mut p = pose(0, 0, 0);
    p.translation.x = i64::MAX;
    let samples = vec![sample(vec![p])];
    assert_eq!(
        AnimationClip::new(samples, ONE).err(),
        Some(AnimationError::PoseOutOfRange)
    );
}

#[test]
fn loop_wraparound_exact() {
    // Two samples at rate 1.0: duration is 2 s; sampling there wraps to 0.
    let samples = vec![
        sample(vec![pose(0, 0, 0)]),
        sample(vec![pose(ONE, 0, 0)]),
    ];
    let clip = AnimationClip::new(samples, ONE).unwrap();
    assert_eq!(clip.sample_at_time(2 * ONE), clip.sample_at_time(0));
    let mut at_end = vec![pose(0, 0, 0)];
    let mut at_start = vec![pose(0, 0, 0)];
    clip.get_interpolated_poses_at_time(2 * ONE, &mut at_end).unwrap();
    clip.get_interpolated_poses_at_time(0, &mut at_start).unwrap();
    assert_eq!(at_end, at_start);
}

#[test]
fn interpolation_midpoint() {
    // Two samples at rate 2.0: time 0.25 s sits halfway between them.
    let samples = vec![
        sample(vec![pose(0, 0, 0)]),
        sample(vec![pose(0, ONE, 0)]),
    ];
    let clip = AnimationClip::new(samples, 2 * ONE).unwrap();
    let mut out = vec![pose(0, 0, 0)];
    clip.get_interpolated_poses_at_time(ONE / 4, &mut out).unwrap();
    assert_eq!(out[0].translation, Vector3 { x: 0, y: ONE / 2, z: 0 });
    assert_eq!(out[0].scale, ONE);
}

#[test]
fn interpolation_rejects_short_buffer() {
    let samples = vec![sample(vec![pose(0, 0, 0), pose(0, 0, 0)])];
    let clip = AnimationClip::new(samples, ONE).unwrap();
    let mut out: Vec<SQT> = vec![];
    assert_eq!(
        clip.get_interpolated_poses_at_time(0, &mut out),
        Err(AnimationError::LengthMismatch)
    );
}

#[test]
fn degenerate_quaternion_blend_reported() {
    // Antipodal rotations meeting in the middle have zero magnitude.
    let mut p1 = pose(0, 0, 0);
    let mut p2 = pose(0, 0, 0);
    p1.rotation = Quaternion { w: ONE, x: 0, y: 0, z: 0 };
    p2.rotation = Quaternion { w: -ONE, x: 0, y: 0, z: 0 };
    let samples = vec![sample(vec![p1]), sample(vec![p2])];
    let clip = AnimationClip::new(samples, ONE).unwrap();
    let mut out = vec![pose(0, 0, 0)];
    assert_eq!(
        clip.get_interpolated_poses_at_time(ONE / 2, &mut out),
        Err(AnimationError::DegenerateQuaternion)
    );
}

#[test]
fn set_duration_recomputes_rate() {
    let samples = vec![sample(vec![pose(0, 0, 0)]), sample(vec![pose(0, 0, 0)])];
    let mut clip = AnimationClip::new(samples, ONE).unwrap();
    clip.set_duration(2 * ONE).unwrap();
    assert_eq!(clip.samples_per_second(), ONE);
    assert_eq!(
        clip.set_duration(0),
        Err(AnimationError::ZeroDuration)
    );
}

#[test]
fn identity_blend_endpoints() {
    let p1 = pose(ONE, 2 * ONE, 3 * ONE);
    let p2 = pose(-ONE, 0, 5 * ONE);
    assert_eq!(lerp_pose(&p1, &p2, 0), Ok(p1));
    assert_eq!(lerp_pose(&p1, &p2, ONE), Ok(p2));
}

#[test]
fn quaternion_blend_keeps_unit_norm() {
    let q1 = Quaternion { w: ONE, x: 0, y: 0, z: 0 };
    let q2 = Quaternion { w: 0, x: 0, y: ONE, z: 0 };
    let q = lerp_quaternion(&q1, &q2, ONE / 2).unwrap();
    let sum_sq = (q.w as i128) * (q.w as i128) + (q.x as i128) * (q.x as i128)
        + (q.y as i128) * (q.y as i128) + (q.z as i128) * (q.z as i128);
    let unit: i128 = (ONE as i128) * (ONE as i128);
    assert!((sum_sq - unit).abs() < 2 * (ONE as i128));
}

#[test]
fn root_transform_is_local_transform() {
    let skeleton = Skeleton::new(vec![Joint { name: "root".to_string(), parent_index: None }])
        .unwrap();
    let locals = vec![pose(ONE, 2 * ONE, 3 * ONE)];
    let globals = calculate_global_poses(&skeleton, &locals).unwrap();
    assert_eq!(globals.len(), 1);
    let g = &globals[0];
    assert_eq!((g.m00, g.m11, g.m22, g.m33), (ONE, ONE, ONE, ONE));
    assert_eq!((g.m03, g.m13, g.m23), (ONE, 2 * ONE, 3 * ONE));
}

#[test]
fn hierarchy_composition_sums_translations() {
    let skeleton = Skeleton::new(vec![
        Joint { name: "root".to_string(), parent_index: None },
        Joint { name: "child".to_string(), parent_index: Some(0) },
        Joint { name: "grandchild".to_string(), parent_index: Some(1) },
    ])
    .unwrap();
    let locals = vec![
        pose(ONE, 0, 0),
        pose(0, 2 * ONE, 0),
        pose(0, 0, 3 * ONE),
    ];
    let globals = calculate_global_poses(&skeleton, &locals).unwrap();
    let g = &globals[2];
    assert_eq!((g.m03, g.m13, g.m23), (ONE, 2 * ONE, 3 * ONE));
}

#[test]
fn hierarchy_composition_with_rotation() {
    // Root rotated a half turn about y: the child's +x offset lands at -x.
    let skeleton = Skeleton::new(vec![
        Joint { name: "root".to_string(), parent_index: None },
        Joint { name: "child".to_string(), parent_index: Some(0) },
    ])
    .unwrap();
    let mut root = pose(0, 0, 0);
    root.rotation = Quaternion { w: 0, x: 0, y: ONE, z: 0 };
    let locals = vec![root, pose(ONE, 0, 0)];
    let globals = calculate_global_poses(&skeleton, &locals).unwrap();
    let g = &globals[1];
    assert_eq!((g.m03, g.m13, g.m23), (-ONE, 0, 0));
}

#[test]
fn resolver_accepts_longer_pose_buffer() {
    // Only the first joint-count entries are used; extras are ignored.
    let skeleton = Skeleton::new(vec![Joint { name: "root".to_string(), parent_index: None }])
        .unwrap();
    let locals = vec![pose(ONE, 0, 0), pose(7 * ONE, 7 * ONE, 7 * ONE)];
    let globals = calculate_global_poses(&skeleton, &locals).unwrap();
    assert_eq!(globals.len(), 1);
    assert_eq!(globals[0].m03, ONE);
    // A buffer shorter than the skeleton is rejected.
    assert_eq!(
        calculate_global_poses(&skeleton, &vec![]).err(),
        Some(AnimationError::LengthMismatch)
    );
}

#[test]
fn skeleton_rejects_forward_reference() {
    assert_eq!(
        Skeleton::new(vec![Joint { name: "a".to_string(), parent_index: Some(0) }]).err(),
        Some(AnimationError::NonTopologicalSkeleton)
    );
}

#[test]
fn quaternion_matrix_round_trip() {
    let q = Quaternion { w: 0, x: 0, y: ONE, z: 0 };
    let m = quaternion_to_matrix(&q).unwrap();
    assert_eq!((m.m00, m.m11, m.m22), (-ONE, ONE, -ONE));
    assert_eq!(matrix_to_quaternion(&m), Ok(q));
    let id = ident_matrix();
    assert_eq!(
        matrix_to_quaternion(&id),
        Ok(Quaternion { w: ONE, x: 0, y: 0, z: 0 })
    );
}

#[test]
fn matrix_identity_multiplication() {
    let id = ident_matrix();
    let mut m = ident_matrix();
    m.m03 = 7 * ONE;
    m.m13 = -3 * ONE;
    assert_eq!(row_mat4_mul(&id, &m), Ok(m));
}

#[test]
fn from_collada_matches_tracks_by_name() {
    let skeleton = Skeleton::new(vec![
        Joint { name: "root".to_string(), parent_index: None },
        Joint { name: "child".to_string(), parent_index: Some(0) },
    ])
    .unwrap();
    let mut child_matrix = ident_matrix();
    child_matrix.m03 = ONE;
    let tracks = vec![AnimationTrack {
        target: "child".to_string(),
        sample_times: vec![0, ONE],
        sample_poses: vec![child_matrix, child_matrix],
    }];
    let clip = AnimationClip::from_collada(&skeleton, &tracks).unwrap();
    // Two samples over one second: rate is 2.0.
    assert_eq!(clip.samples_per_second(), 2 * ONE);
    assert_eq!(clip.num_samples(), 2);
    assert_eq!(clip.joint_count(), 2);
    let mut out = vec![pose(0, 0, 0), pose(0, 0, 0)];
    clip.get_interpolated_poses_at_time(0, &mut out).unwrap();
    // The untracked root gets the identity pose.
    assert_eq!(out[0], sqt_identity());
    // The child keeps its authored translation, with scale fixed at one.
    assert_eq!(out[1].translation, Vector3 { x: ONE, y: 0, z: 0 });
    assert_eq!(out[1].scale, ONE);
    assert_eq!(out[1].rotation, Quaternion { w: ONE, x: 0, y: 0, z: 0 });
}

#[test]
fn from_collada_realigns_root_axes() {
    let skeleton =
        Skeleton::new(vec![Joint { name: "root".to_string(), parent_index: None }]).unwrap();
    let mut m = ident_matrix();
    m.m13 = 2 * ONE;
    m.m23 = 3 * ONE;
    let tracks = vec![AnimationTrack {
        target: "root".to_string(),
        sample_times: vec![0, ONE],
        sample_poses: vec![m, m],
    }];
    let clip = AnimationClip::from_collada(&skeleton, &tracks).unwrap();
    let mut out = vec![pose(0, 0, 0)];
    clip.get_interpolated_poses_at_time(0, &mut out).unwrap();
    // A quarter turn about x maps the source's z-up onto y-up.
    assert_eq!(out[0].translation, Vector3 { x: 0, y: 3 * ONE, z: -2 * ONE });
}

#[test]
fn from_collada_rejects_empty_and_zero_duration() {
    let skeleton =
        Skeleton::new(vec![Joint { name: "root".to_string(), parent_index: None }]).unwrap();
    assert_eq!(
        AnimationClip::from_collada(&skeleton, &vec![]).err(),
        Some(AnimationError::EmptyClip)
    );
    let tracks = vec![AnimationTrack {
        target: "root".to_string(),
        sample_times: vec![0],
        sample_poses: vec![ident_matrix()],
    }];
    assert_eq!(
        AnimationClip::from_collada(&skeleton, &tracks).err(),
        Some(AnimationError::ZeroDuration)
    );
}
