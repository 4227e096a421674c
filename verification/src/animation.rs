//! Animation clips: fixed-rate sequences of per-joint poses, sampled with
//! looping interpolation, and the resolver that turns local poses into
//! model-space matrices.

use vstd::prelude::*;

use crate::fixed::{
    fx_div, fx_div_spec, fx_in_range, fx_lerp, fx_lerp_spec, fx_mul, fx_mul_spec,
    lemma_lerp_bounded, lemma_mul_range, FX_LIMIT, FX_ONE,
};
use crate::math::{
    mat4_id_spec, mat4_in_range, mat4_mul_res, matrix_to_quaternion, matrix_to_quaternion_res,
    quat_in_range, quaternion_to_matrix, quaternion_to_matrix_res, lerp_quaternion,
    lerp_quaternion_res, row_mat4_mul, vec3_in_range, Matrix4, Quaternion, Vector3,
};
use crate::skeleton::Skeleton;
use crate::AnimationError;

verus! {

/// SQT - (Scale, Quaternion, Translation).
///
/// A transform represented by separate uniform-scale, rotation and
/// translation factors. This decomposition (rather than a matrix) is what
/// makes componentwise interpolation of transforms valid.
#[derive(Clone, Copy, Debug, PartialEq, Eq, Structural)]
pub struct SQT {
    /// 3D translation.
    pub translation: Vector3,
    /// Uniform scale factor.
    pub scale: i64,
    /// Rotation.
    pub rotation: Quaternion,
}

/// Every component of the pose is an in-range fixed-point scalar.
pub open spec fn sqt_in_range(p: SQT) -> bool {
    &&& vec3_in_range(p.translation)
    &&& fx_in_range(p.scale as int)
    &&& quat_in_range(p.rotation)
}

/// The identity pose: no translation, unit scale, no rotation.
pub open spec fn sqt_identity_spec() -> SQT {
    SQT {
        translation: Vector3 { x: 0, y: 0, z: 0 },
        scale: FX_ONE,
        rotation: crate::math::quat_id_spec(),
    }
}

/// The identity pose: no translation, unit scale, no rotation.
pub fn sqt_identity() -> (r: SQT)
    ensures
        r == sqt_identity_spec(),
{
    SQT {
        translation: Vector3 { x: 0, y: 0, z: 0 },
        scale: FX_ONE,
        rotation: crate::math::quaternion_id(),
    }
}

/// What `lerp_pose` returns: scale and translation interpolated
/// componentwise, rotation blended by normalized quaternion interpolation.
/// The exact endpoints `t == 0` and `t == FX_ONE` return the respective
/// input unchanged, so an exact sample hit suffers no drift.
pub open spec fn lerp_pose_res(p1: SQT, p2: SQT, t: int) -> Result<SQT, AnimationError> {
    if t == 0 {
        Ok(p1)
    } else if t == FX_ONE as int {
        Ok(p2)
    } else {
        let s = fx_lerp_spec(p1.scale as int, p2.scale as int, t);
        let tx = fx_lerp_spec(p1.translation.x as int, p2.translation.x as int, t);
        let ty = fx_lerp_spec(p1.translation.y as int, p2.translation.y as int, t);
        let tz = fx_lerp_spec(p1.translation.z as int, p2.translation.z as int, t);
        if !(fx_in_range(s) && fx_in_range(tx) && fx_in_range(ty) && fx_in_range(tz)) {
            Err(AnimationError::Overflow)
        } else {
            match lerp_quaternion_res(p1.rotation, p2.rotation, t) {
                Ok(q) => Ok(
                    SQT {
                        translation: Vector3 { x: tx as i64, y: ty as i64, z: tz as i64 },
                        scale: s as i64,
                        rotation: q,
                    },
                ),
                Err(e) => Err(e),
            }
        }
    }
}

/// Blends two poses: linear interpolation for scale and translation,
/// normalized quaternion interpolation for rotation. The blend weight is
/// not clamped: weights outside `[0, 1]` extrapolate.
pub fn lerp_pose(p1: &SQT, p2: &SQT, t: i64) -> (r: Result<SQT, AnimationError>)
    requires
        sqt_in_range(*p1),
        sqt_in_range(*p2),
        fx_in_range(t as int),
    ensures
        r == lerp_pose_res(*p1, *p2, t as int),
{
    if t == 0 {
        return Ok(*p1);
    }
    if t == FX_ONE {
        return Ok(*p2);
    }
    let s = match fx_lerp(p1.scale, p2.scale, t) {
        Some(v) => v,
        None => { return Err(AnimationError::Overflow) },
    };
    let tx = match fx_lerp(p1.translation.x, p2.translation.x, t) {
        Some(v) => v,
        None => { return Err(AnimationError::Overflow) },
    };
    let ty = match fx_lerp(p1.translation.y, p2.translation.y, t) {
        Some(v) => v,
        None => { return Err(AnimationError::Overflow) },
    };
    let tz = match fx_lerp(p1.translation.z, p2.translation.z, t) {
        Some(v) => v,
        None => { return Err(AnimationError::Overflow) },
    };
    let q = match lerp_quaternion(&p1.rotation, &p2.rotation, t) {
        Ok(v) => v,
        Err(e) => { return Err(e) },
    };
    Ok(SQT { translation: Vector3 { x: tx, y: ty, z: tz }, scale: s, rotation: q })
}

/// With a weight in `[0, 1]` and in-range inputs, a pose blend can fail
/// only by quaternion degeneracy, never by overflow.
pub proof fn lemma_lerp_pose_no_overflow(p1: SQT, p2: SQT, t: int)
    requires
        sqt_in_range(p1),
        sqt_in_range(p2),
        0 <= t <= FX_ONE as int,
    ensures
        lerp_pose_res(p1, p2, t) != Err::<SQT, AnimationError>(AnimationError::Overflow),
        lerp_pose_res(p1, p2, t) matches Ok(p) ==> sqt_in_range(p),
{
    if t != 0 && t != FX_ONE as int {
        lemma_lerp_bounded(p1.scale as int, p2.scale as int, t);
        lemma_lerp_bounded(p1.translation.x as int, p2.translation.x as int, t);
        lemma_lerp_bounded(p1.translation.y as int, p2.translation.y as int, t);
        lemma_lerp_bounded(p1.translation.z as int, p2.translation.z as int, t);
        lemma_lerp_bounded(p1.rotation.w as int, p2.rotation.w as int, t);
        lemma_lerp_bounded(p1.rotation.x as int, p2.rotation.x as int, t);
        lemma_lerp_bounded(p1.rotation.y as int, p2.rotation.y as int, t);
        lemma_lerp_bounded(p1.rotation.z as int, p2.rotation.z as int, t);
        crate::math::lemma_lerp_quaternion_in_range(p1.rotation, p2.rotation, t);
    }
}

/// A successful pose blend of in-range poses is in range whatever the
/// weight.
pub proof fn lemma_lerp_pose_ok_in_range(p1: SQT, p2: SQT, t: int)
    requires
        sqt_in_range(p1),
        sqt_in_range(p2),
    ensures
        lerp_pose_res(p1, p2, t) matches Ok(p) ==> sqt_in_range(p),
{
    crate::math::lemma_lerp_quaternion_ok_in_range(p1.rotation, p2.rotation, t);
}

/// The pose of every joint of the skeleton at one point on a clip's
/// timeline, indices aligned with the skeleton's joint ordering.
#[derive(Clone, Debug, PartialEq)]
pub struct AnimationSample {
    /// Local pose for each joint of the targeted skeleton, relative to the
    /// joint's parent.
    pub local_poses: Vec<SQT>,
}

/// An animation clip: a sequence of samples at one constant sample rate.
/// Sampling past either end wraps around, so every clip loops.
#[derive(Clone, Debug)]
pub struct AnimationClip {
    samples: Vec<AnimationSample>,
    /// Fixed-point samples per second; constant across the clip.
    samples_per_second: i64,
}

impl AnimationClip {
    /// The samples, as ghost state.
    pub closed spec fn samples_spec(&self) -> Seq<AnimationSample> {
        self.samples@
    }

    /// The fixed-point sample rate, as ghost state.
    pub closed spec fn rate_spec(&self) -> int {
        self.samples_per_second as int
    }

    /// The number of joints each sample poses.
    pub open spec fn joint_count_spec(&self) -> int {
        self.samples_spec()[0].local_poses@.len() as int
    }

    /// The construction-time invariant: at least one sample, a positive
    /// in-range rate, a bounded sample count, every sample posing the same
    /// joints, and every pose component in range.
    pub open spec fn wf(&self) -> bool {
        &&& 0 < self.samples_spec().len() <= 16777216  // FX_LIMIT / FX_ONE
        &&& 0 < self.rate_spec() <= FX_LIMIT as int
        &&& forall|i: int|
            0 <= i < self.samples_spec().len() ==> #[trigger] self.samples_spec()[i].local_poses@.len()
                == self.joint_count_spec()
        &&& forall|i: int, j: int|
            0 <= i < self.samples_spec().len() && 0 <= j < self.joint_count_spec()
                ==> sqt_in_range(#[trigger] self.samples_spec()[i].local_poses@[j])
    }

    /// Every sample poses the same number of joints as the first.
    pub open spec fn lens_uniform(samples: Seq<AnimationSample>) -> bool {
        forall|i: int|
            0 <= i < samples.len() ==> #[trigger] samples[i].local_poses@.len()
                == samples[0].local_poses@.len()
    }

    /// Every pose component of every sample is in range.
    pub open spec fn poses_in_range(samples: Seq<AnimationSample>) -> bool {
        forall|i: int, j: int|
            0 <= i < samples.len() && 0 <= j < samples[0].local_poses@.len() ==> sqt_in_range(
                #[trigger] samples[i].local_poses@[j],
            )
    }

    /// Which construction error `new` reports for invalid inputs (checked
    /// in this order).
    pub open spec fn new_err(samples: Seq<AnimationSample>, samples_per_second: int) -> AnimationError {
        if samples.len() == 0 || samples.len() > 16777216 {
            AnimationError::EmptyClip
        } else if !(0 < samples_per_second <= FX_LIMIT as int) {
            AnimationError::InvalidRate
        } else if !Self::lens_uniform(samples) {
            AnimationError::LengthMismatch
        } else {
            AnimationError::PoseOutOfRange
        }
    }

    /// Whether `new` accepts the inputs.
    pub open spec fn new_ok(samples: Seq<AnimationSample>, samples_per_second: int) -> bool {
        &&& 0 < samples.len() <= 16777216
        &&& 0 < samples_per_second <= FX_LIMIT as int
        &&& Self::lens_uniform(samples)
        &&& Self::poses_in_range(samples)
    }

    /// Builds a clip, rejecting empty or oversized sample sets, an invalid
    /// rate, mismatched sample lengths, and out-of-range pose components.
    pub fn new(samples: Vec<AnimationSample>, samples_per_second: i64) -> (r: Result<
        AnimationClip,
        AnimationError,
    >)
        ensures
            Self::new_ok(samples@, samples_per_second as int) ==> (r matches Ok(c) && c.samples_spec()
                == samples@ && c.rate_spec() == samples_per_second as int && c.wf()),
            !Self::new_ok(samples@, samples_per_second as int) ==> r == Err::<
                AnimationClip,
                AnimationError,
            >(Self::new_err(samples@, samples_per_second as int)),
    {
        let n = samples.len();
        if n == 0 || n > 16777216 {
            return Err(AnimationError::EmptyClip);
        }
        if samples_per_second <= 0 || samples_per_second > FX_LIMIT {
            return Err(AnimationError::InvalidRate);
        }
        let jc = samples[0].local_poses.len();
        let mut i: usize = 1;
        while i < n
            invariant
                n == samples@.len(),
                0 < n <= 16777216,
                0 < samples_per_second <= FX_LIMIT,
                jc == samples@[0].local_poses@.len(),
                1 <= i <= n,
                forall|k: int|
                    0 <= k < i ==> #[trigger] samples@[k].local_poses@.len() == jc,
            decreases n - i,
        {
            if samples[i].local_poses.len() != jc {
                proof {
                    assert(samples@[i as int].local_poses@.len() != samples@[0].local_poses@.len());
                    assert(!Self::lens_uniform(samples@));
                }
                return Err(AnimationError::LengthMismatch);
            }
            i += 1;
        }
        let mut i: usize = 0;
        while i < n
            invariant
                n == samples@.len(),
                0 < n <= 16777216,
                0 < samples_per_second <= FX_LIMIT,
                jc == samples@[0].local_poses@.len(),
                0 <= i <= n,
                forall|k: int| 0 <= k < n ==> #[trigger] samples@[k].local_poses@.len() == jc,
                forall|k: int, j: int|
                    0 <= k < i && 0 <= j < jc ==> sqt_in_range(
                        #[trigger] samples@[k].local_poses@[j],
                    ),
            decreases n - i,
        {
            let mut j: usize = 0;
            while j < jc
                invariant
                    n == samples@.len(),
                    0 < n <= 16777216,
                    0 < samples_per_second <= FX_LIMIT,
                    jc == samples@[0].local_poses@.len(),
                    0 <= i < n,
                    forall|k: int| 0 <= k < n ==> #[trigger] samples@[k].local_poses@.len() == jc,
                    0 <= j <= jc,
                    forall|k: int, j2: int|
                        0 <= k < i && 0 <= j2 < jc ==> sqt_in_range(
                            #[trigger] samples@[k].local_poses@[j2],
                        ),
                    forall|j2: int|
                        0 <= j2 < j ==> sqt_in_range(#[trigger] samples@[i as int].local_poses@[j2]),
                decreases jc - j,
            {
                let p = &samples[i].local_poses[j];
                if !(-FX_LIMIT <= p.translation.x && p.translation.x <= FX_LIMIT && -FX_LIMIT
                    <= p.translation.y && p.translation.y <= FX_LIMIT && -FX_LIMIT
                    <= p.translation.z && p.translation.z <= FX_LIMIT && -FX_LIMIT <= p.scale
                    && p.scale <= FX_LIMIT && -FX_LIMIT <= p.rotation.w && p.rotation.w <= FX_LIMIT
                    && -FX_LIMIT <= p.rotation.x && p.rotation.x <= FX_LIMIT && -FX_LIMIT
                    <= p.rotation.y && p.rotation.y <= FX_LIMIT && -FX_LIMIT <= p.rotation.z
                    && p.rotation.z <= FX_LIMIT) {
                    proof {
                        assert(!sqt_in_range(samples@[i as int].local_poses@[j as int]));
                        assert(!Self::poses_in_range(samples@));
                    }
                    return Err(AnimationError::PoseOutOfRange);
                }
                j += 1;
            }
            i += 1;
        }
        Ok(AnimationClip { samples, samples_per_second })
    }

    /// The product of elapsed time and sample rate: the interpolated sample
    /// index scaled by `FX_ONE * FX_ONE`.
    pub open spec fn index_scaled_spec(&self, t: int) -> int {
        t * self.rate_spec()
    }

    /// The wrapped index of the sample at or before time `t`.
    pub open spec fn sample_index_spec(&self, t: int) -> int {
        (self.index_scaled_spec(t) / 4294967296) % (self.samples_spec().len() as int)
    }

    /// The wrapped index of the sample at or after time `t`.
    pub open spec fn sample_index_2_spec(&self, t: int) -> int {
        let scaled = self.index_scaled_spec(t);
        let f = scaled / 4294967296;
        (if scaled % 4294967296 == 0 {
            f
        } else {
            f + 1
        }) % (self.samples_spec().len() as int)
    }

    /// The fixed-point blend weight between the two neighbouring samples:
    /// the fractional part of the interpolated sample index, in
    /// `[0, FX_ONE)`; zero exactly on a sample hit.
    pub open spec fn blend_factor_spec(&self, t: int) -> int {
        (self.index_scaled_spec(t) % 4294967296) / (FX_ONE as int)
    }

    /// The blended pose of joint `j` at time `t`.
    pub open spec fn pose_res(&self, t: int, j: int) -> Result<SQT, AnimationError> {
        lerp_pose_res(
            self.samples_spec()[self.sample_index_spec(t)].local_poses@[j],
            self.samples_spec()[self.sample_index_2_spec(t)].local_poses@[j],
            self.blend_factor_spec(t),
        )
    }

    /// The number of joints each sample poses.
    pub fn joint_count(&self) -> (r: usize)
        requires
            self.wf(),
        ensures
            r == self.joint_count_spec(),
    {
        self.samples[0].local_poses.len()
    }

    /// The number of samples.
    pub fn num_samples(&self) -> (r: usize)
        ensures
            r == self.samples_spec().len(),
    {
        self.samples.len()
    }

    /// The fixed-point sample rate.
    pub fn samples_per_second(&self) -> (r: i64)
        ensures
            r as int == self.rate_spec(),
    {
        self.samples_per_second
    }

    /// The blended pose of every joint at `elapsed_time` is in range, and
    /// can fail only by quaternion degeneracy.
    pub proof fn lemma_pose_res_in_range(&self, t: int, j: int)
        requires
            self.wf(),
            0 <= j < self.joint_count_spec(),
        ensures
            self.pose_res(t, j) matches Ok(p) ==> sqt_in_range(p),
            self.pose_res(t, j) != Err::<SQT, AnimationError>(AnimationError::Overflow),
            0 <= self.blend_factor_spec(t) < FX_ONE as int,
            0 <= self.sample_index_spec(t) < self.samples_spec().len(),
            0 <= self.sample_index_2_spec(t) < self.samples_spec().len(),
    {
        let i1 = self.sample_index_spec(t);
        let i2 = self.sample_index_2_spec(t);
        let bf = self.blend_factor_spec(t);
        assert(0 <= bf < FX_ONE as int);
        lemma_lerp_pose_no_overflow(
            self.samples_spec()[i1].local_poses@[j],
            self.samples_spec()[i2].local_poses@[j],
            bf,
        );
    }

    /// The sample nearest below the given elapsed time, wrapping around
    /// the end of the clip.
    pub fn sample_at_time(&self, elapsed_time: i64) -> (r: &AnimationSample)
        requires
            self.wf(),
            0 <= elapsed_time <= FX_LIMIT,
        ensures
            *r == self.samples_spec()[self.sample_index_spec(elapsed_time as int)],
    {
        proof {
            lemma_mul_range(
                elapsed_time as int,
                self.rate_spec(),
                FX_LIMIT as int,
                FX_LIMIT as int,
            );
            assert(self.index_scaled_spec(elapsed_time as int) >= 0) by (nonlinear_arith)
                requires
                    elapsed_time >= 0,
                    self.rate_spec() > 0,
                    self.index_scaled_spec(elapsed_time as int) == (elapsed_time as int)
                        * self.rate_spec(),
            ;
        }
        let scaled: u128 = (elapsed_time as u128) * (self.samples_per_second as u128);
        let n: u128 = self.samples.len() as u128;
        let index: usize = ((scaled / 4294967296) % n) as usize;
        &self.samples[index]
    }

    /// Re-derives the sample rate so that the clip lasts `duration`
    /// seconds. A non-positive duration is reported, as is one so long (or
    /// so short) that the rate leaves the representable range.
    pub fn set_duration(&mut self, duration: i64) -> (r: Result<(), AnimationError>)
        requires
            old(self).wf(),
            fx_in_range(duration as int),
        ensures
            final(self).samples_spec() == old(self).samples_spec(),
            ({
                let q = fx_div_spec(old(self).samples_spec().len() * (FX_ONE as int), duration as int);
                if duration <= 0 {
                    r == Err::<(), AnimationError>(AnimationError::ZeroDuration)
                        && *final(self) == *old(self)
                } else if 0 < q <= FX_LIMIT as int {
                    r == Ok::<(), AnimationError>(()) && final(self).rate_spec() == q
                        && final(self).wf()
                } else {
                    r == Err::<(), AnimationError>(AnimationError::InvalidRate)
                        && *final(self) == *old(self)
                }
            }),
    {
        if duration <= 0 {
            return Err(AnimationError::ZeroDuration);
        }
        let total: i64 = (self.samples.len() as i64) * FX_ONE;
        match fx_div(total, duration) {
            Some(rate) => {
                if rate > 0 {
                    self.samples_per_second = rate;
                    Ok(())
                } else {
                    Err(AnimationError::InvalidRate)
                }
            },
            None => Err(AnimationError::InvalidRate),
        }
    }

    /// Bakes a set of imported per-joint animation tracks into a clip for
    /// the given skeleton. Tracks are matched to joints by name (the last
    /// track of a name wins); joints without a track get the identity
    /// pose. Root joints get a fixed axis-realignment rotation first. The
    /// sample rate is derived from the first track's sample count and last
    /// timestamp (all tracks are assumed to share the same timing).
    #[verifier::rlimit(80)]
    pub fn from_collada(skeleton: &Skeleton, animations: &Vec<AnimationTrack>) -> (r: Result<
        AnimationClip,
        AnimationError,
    >)
        ensures
            match r {
                Ok(c) => {
                    &&& c.wf()
                    &&& c.samples_spec().len() == animations@[0].sample_times@.len()
                    &&& c.rate_spec() == fx_div_spec(
                        animations@[0].sample_times@.len() * (FX_ONE as int),
                        animations@[0].sample_times@.last() as int,
                    )
                    &&& forall|s: int|
                        0 <= s < c.samples_spec().len()
                            ==> #[trigger] c.samples_spec()[s].local_poses@.len()
                            == skeleton.joints@.len()
                    &&& forall|s: int, j: int|
                        0 <= s < c.samples_spec().len() && 0 <= j < skeleton.joints@.len()
                            ==> bake_pose_res(*skeleton, animations@, s, j) == Ok::<
                            SQT,
                            AnimationError,
                        >(#[trigger] c.samples_spec()[s].local_poses@[j])
                },
                Err(e) => {
                    if animations@.len() == 0 {
                        e == AnimationError::EmptyClip
                    } else {
                        let count = animations@[0].sample_times@.len() as int;
                        if count == 0 || count > 16777216 {
                            e == AnimationError::EmptyClip
                        } else {
                            let duration = animations@[0].sample_times@.last() as int;
                            if duration <= 0 {
                                e == AnimationError::ZeroDuration
                            } else {
                                let rate = fx_div_spec(count * (FX_ONE as int), duration);
                                if !(0 < rate <= FX_LIMIT as int) {
                                    e == AnimationError::InvalidRate
                                } else {
                                    exists|s: int, j: int|
                                        0 <= s < count && 0 <= j < skeleton.joints@.len()
                                            && #[trigger] bake_pose_res(
                                            *skeleton,
                                            animations@,
                                            s,
                                            j,
                                        ) == Err::<SQT, AnimationError>(e)
                                }
                            }
                        }
                    }
                },
            },
    {
        if animations.len() == 0 {
            return Err(AnimationError::EmptyClip);
        }
        let sample_count = animations[0].sample_times.len();
        if sample_count == 0 || sample_count > 16777216 {
            return Err(AnimationError::EmptyClip);
        }
        let duration = animations[0].sample_times[sample_count - 1];
        if duration <= 0 {
            return Err(AnimationError::ZeroDuration);
        }
        let total: i64 = (sample_count as i64) * FX_ONE;
        let samples_per_second = match crate::fixed::fx_div(total, duration) {
            Some(v) => {
                if v > 0 {
                    v
                } else {
                    return Err(AnimationError::InvalidRate);
                }
            },
            None => { return Err(AnimationError::InvalidRate) },
        };
        let rotate_on_x = Matrix4 {
            m00: FX_ONE, m01: 0, m02: 0, m03: 0,
            m10: 0, m11: 0, m12: FX_ONE, m13: 0,
            m20: 0, m21: -FX_ONE, m22: 0, m23: 0,
            m30: 0, m31: 0, m32: 0, m33: FX_ONE,
        };
        proof {
            assert(rotate_on_x == rotate_on_x_spec());
        }
        let nj = skeleton.joints.len();
        let mut samples: Vec<AnimationSample> = Vec::new();
        let mut s: usize = 0;
        while s < sample_count
            invariant
                animations@.len() > 0,
                sample_count == animations@[0].sample_times@.len(),
                0 < sample_count <= 16777216,
                duration == animations@[0].sample_times@.last(),
                duration > 0,
                samples_per_second as int == fx_div_spec(
                    sample_count * (FX_ONE as int),
                    duration as int,
                ),
                0 < samples_per_second <= FX_LIMIT,
                rotate_on_x == rotate_on_x_spec(),
                nj == skeleton.joints@.len(),
                0 <= s <= sample_count,
                samples@.len() == s,
                forall|k: int|
                    0 <= k < s ==> #[trigger] samples@[k].local_poses@.len() == nj,
                forall|k: int, j: int|
                    0 <= k < s && 0 <= j < nj ==> bake_pose_res(*skeleton, animations@, k, j)
                        == Ok::<SQT, AnimationError>(#[trigger] samples@[k].local_poses@[j]),
                forall|k: int, j: int|
                    0 <= k < s && 0 <= j < nj ==> sqt_in_range(
                        #[trigger] samples@[k].local_poses@[j],
                    ),
            decreases sample_count - s,
        {
            let mut local_poses: Vec<SQT> = Vec::new();
            let mut j: usize = 0;
            while j < nj
                invariant
                    animations@.len() > 0,
                    sample_count == animations@[0].sample_times@.len(),
                    0 < sample_count <= 16777216,
                    duration == animations@[0].sample_times@.last(),
                    duration > 0,
                    samples_per_second as int == fx_div_spec(
                        sample_count * (FX_ONE as int),
                        duration as int,
                    ),
                    0 < samples_per_second <= FX_LIMIT,
                    rotate_on_x == rotate_on_x_spec(),
                    nj == skeleton.joints@.len(),
                    0 <= s < sample_count,
                    0 <= j <= nj,
                    local_poses@.len() == j,
                    forall|j2: int|
                        0 <= j2 < j ==> bake_pose_res(*skeleton, animations@, s as int, j2)
                            == Ok::<SQT, AnimationError>(#[trigger] local_poses@[j2]),
                    forall|j2: int|
                        0 <= j2 < j ==> sqt_in_range(#[trigger] local_poses@[j2]),
                decreases nj - j,
            {
                let joint_is_root = skeleton.joints[j].is_root();
                let pose = match find_track(animations, &skeleton.joints[j].name) {
                    None => {
                        let id = crate::math::mat4_id();
                        match decompose_matrix(&id) {
                            Ok(p) => p,
                            Err(e) => {
                                proof {
                                    assert(bake_pose_res(
                                        *skeleton,
                                        animations@,
                                        s as int,
                                        j as int,
                                    ) == Err::<SQT, AnimationError>(e));
                                }
                                return Err(e);
                            },
                        }
                    },
                    Some(ti) => {
                        let track = &animations[ti];
                        if s >= track.sample_poses.len() {
                            proof {
                                assert(bake_pose_res(*skeleton, animations@, s as int, j as int)
                                    == Err::<SQT, AnimationError>(
                                    AnimationError::LengthMismatch,
                                ));
                            }
                            return Err(AnimationError::LengthMismatch);
                        }
                        let m = &track.sample_poses[s];
                        if !crate::math::mat4_in_range_check(m) {
                            proof {
                                assert(bake_pose_res(*skeleton, animations@, s as int, j as int)
                                    == Err::<SQT, AnimationError>(
                                    AnimationError::PoseOutOfRange,
                                ));
                            }
                            return Err(AnimationError::PoseOutOfRange);
                        }
                        if joint_is_root {
                            let rm = match row_mat4_mul(&rotate_on_x, m) {
                                Ok(rm) => rm,
                                Err(e) => {
                                    proof {
                                        assert(bake_pose_res(
                                            *skeleton,
                                            animations@,
                                            s as int,
                                            j as int,
                                        ) == Err::<SQT, AnimationError>(e));
                                    }
                                    return Err(e);
                                },
                            };
                            match decompose_matrix(&rm) {
                                Ok(p) => p,
                                Err(e) => {
                                    proof {
                                        assert(bake_pose_res(
                                            *skeleton,
                                            animations@,
                                            s as int,
                                            j as int,
                                        ) == Err::<SQT, AnimationError>(e));
                                    }
                                    return Err(e);
                                },
                            }
                        } else {
                            match decompose_matrix(m) {
                                Ok(p) => p,
                                Err(e) => {
                                    proof {
                                        assert(bake_pose_res(
                                            *skeleton,
                                            animations@,
                                            s as int,
                                            j as int,
                                        ) == Err::<SQT, AnimationError>(e));
                                    }
                                    return Err(e);
                                },
                            }
                        }
                    },
                };
                proof {
                    assert(bake_pose_res(*skeleton, animations@, s as int, j as int) == Ok::<
                        SQT,
                        AnimationError,
                    >(pose));
                }
                local_poses.push(pose);
                j += 1;
            }
            samples.push(AnimationSample { local_poses });
            s += 1;
        }
        Ok(AnimationClip { samples, samples_per_second })
    }

    /// Writes the blended pose of every joint at `elapsed_time` into the
    /// front of `blended_poses`, leaving entries past the joint count
    /// untouched. A buffer shorter than the joint count is rejected before
    /// anything is written.
    pub fn get_interpolated_poses_at_time(
        &self,
        elapsed_time: i64,
        blended_poses: &mut Vec<SQT>,
    ) -> (r: Result<(), AnimationError>)
        requires
            self.wf(),
            0 <= elapsed_time <= FX_LIMIT,
        ensures
            final(blended_poses)@.len() == old(blended_poses)@.len(),
            match r {
                Ok(_) => {
                    &&& old(blended_poses)@.len() >= self.joint_count_spec()
                    &&& forall|j: int|
                        0 <= j < self.joint_count_spec() ==> #[trigger] self.pose_res(
                            elapsed_time as int,
                            j,
                        ) == Ok::<SQT, AnimationError>(final(blended_poses)@[j])
                    &&& forall|j: int|
                        self.joint_count_spec() <= j < old(blended_poses)@.len()
                            ==> final(blended_poses)@[j] == old(blended_poses)@[j]
                },
                Err(e) => {
                    if old(blended_poses)@.len() < self.joint_count_spec() {
                        e == AnimationError::LengthMismatch && final(blended_poses)@ == old(
                            blended_poses,
                        )@
                    } else {
                        (exists|j: int|
                            0 <= j < self.joint_count_spec() && #[trigger] self.pose_res(
                                elapsed_time as int,
                                j,
                            ) == Err::<SQT, AnimationError>(e)) && forall|j: int|
                            self.joint_count_spec() <= j < old(blended_poses)@.len()
                                ==> final(blended_poses)@[j] == old(blended_poses)@[j]
                    }
                },
            },
    {
        proof {
            lemma_mul_range(
                elapsed_time as int,
                self.rate_spec(),
                FX_LIMIT as int,
                FX_LIMIT as int,
            );
            assert(self.index_scaled_spec(elapsed_time as int) >= 0) by (nonlinear_arith)
                requires
                    elapsed_time >= 0,
                    self.rate_spec() > 0,
                    self.index_scaled_spec(elapsed_time as int) == (elapsed_time as int)
                        * self.rate_spec(),
            ;
        }
        let scaled: u128 = (elapsed_time as u128) * (self.samples_per_second as u128);
        let n: u128 = self.samples.len() as u128;
        let floor: u128 = scaled / 4294967296;
        let rem: u128 = scaled % 4294967296;
        let index_1: usize = (floor % n) as usize;
        let index_2: usize = (if rem == 0 {
            floor % n
        } else {
            (floor + 1) % n
        }) as usize;
        let blend_factor: i64 = (rem / (FX_ONE as u128)) as i64;
        proof {
            assert(index_1 == self.sample_index_spec(elapsed_time as int));
            assert(index_2 == self.sample_index_2_spec(elapsed_time as int));
            assert(blend_factor == self.blend_factor_spec(elapsed_time as int));
            assert(0 <= blend_factor < FX_ONE);
        }
        let sample_1 = &self.samples[index_1];
        let sample_2 = &self.samples[index_2];
        let jc = sample_1.local_poses.len();
        if blended_poses.len() < jc {
            return Err(AnimationError::LengthMismatch);
        }
        let mut j: usize = 0;
        while j < jc
            invariant
                self.wf(),
                0 <= elapsed_time <= FX_LIMIT,
                jc == self.joint_count_spec(),
                *sample_1 == self.samples_spec()[self.sample_index_spec(elapsed_time as int)],
                *sample_2 == self.samples_spec()[self.sample_index_2_spec(elapsed_time as int)],
                blend_factor == self.blend_factor_spec(elapsed_time as int),
                0 <= blend_factor < FX_ONE,
                blended_poses@.len() == old(blended_poses)@.len() >= jc,
                0 <= j <= jc,
                forall|k: int|
                    0 <= k < j ==> #[trigger] self.pose_res(elapsed_time as int, k) == Ok::<
                        SQT,
                        AnimationError,
                    >(blended_poses@[k]),
                forall|k: int|
                    jc <= k < blended_poses@.len() ==> blended_poses@[k] == old(
                        blended_poses,
                    )@[k],
            decreases jc - j,
        {
            match lerp_pose(&sample_1.local_poses[j], &sample_2.local_poses[j], blend_factor) {
                Ok(p) => {
                    blended_poses.set(j, p);
                },
                Err(e) => {
                    proof {
                        assert(self.pose_res(elapsed_time as int, j as int) == Err::<
                            SQT,
                            AnimationError,
                        >(e));
                    }
                    return Err(e);
                },
            }
            j += 1;
        }
        Ok(())
    }
}

/// What `sqt_to_matrix` returns: the pose's rotation matrix with the
/// uniform scale folded into the rotation block and the translation in the
/// last column.
pub open spec fn local_matrix_res(p: SQT) -> Result<Matrix4, AnimationError> {
    match quaternion_to_matrix_res(p.rotation) {
        Err(e) => Err(e),
        Ok(m) => {
            let s00 = fx_mul_spec(p.scale as int, m.m00 as int);
            let s01 = fx_mul_spec(p.scale as int, m.m01 as int);
            let s02 = fx_mul_spec(p.scale as int, m.m02 as int);
            let s10 = fx_mul_spec(p.scale as int, m.m10 as int);
            let s11 = fx_mul_spec(p.scale as int, m.m11 as int);
            let s12 = fx_mul_spec(p.scale as int, m.m12 as int);
            let s20 = fx_mul_spec(p.scale as int, m.m20 as int);
            let s21 = fx_mul_spec(p.scale as int, m.m21 as int);
            let s22 = fx_mul_spec(p.scale as int, m.m22 as int);
            if fx_in_range(s00) && fx_in_range(s01) && fx_in_range(s02) && fx_in_range(s10)
                && fx_in_range(s11) && fx_in_range(s12) && fx_in_range(s20) && fx_in_range(s21)
                && fx_in_range(s22) {
                Ok(
                    Matrix4 {
                        m00: s00 as i64, m01: s01 as i64, m02: s02 as i64, m03: p.translation.x,
                        m10: s10 as i64, m11: s11 as i64, m12: s12 as i64, m13: p.translation.y,
                        m20: s20 as i64, m21: s21 as i64, m22: s22 as i64, m23: p.translation.z,
                        m30: 0, m31: 0, m32: 0, m33: FX_ONE,
                    },
                )
            } else {
                Err(AnimationError::Overflow)
            }
        },
    }
}

/// Builds the local transform matrix of a pose: rotation from the
/// quaternion, uniform scale folded into the rotation block, translation in
/// the last column.
pub fn sqt_to_matrix(p: &SQT) -> (r: Result<Matrix4, AnimationError>)
    requires
        sqt_in_range(*p),
    ensures
        r == local_matrix_res(*p),
        r matches Ok(m) ==> mat4_in_range(m),
{
    let m = match quaternion_to_matrix(&p.rotation) {
        Ok(m) => m,
        Err(e) => { return Err(e) },
    };
    let s00 = match fx_mul(p.scale, m.m00) {
        Some(v) => v,
        None => { return Err(AnimationError::Overflow) },
    };
    let s01 = match fx_mul(p.scale, m.m01) {
        Some(v) => v,
        None => { return Err(AnimationError::Overflow) },
    };
    let s02 = match fx_mul(p.scale, m.m02) {
        Some(v) => v,
        None => { return Err(AnimationError::Overflow) },
    };
    let s10 = match fx_mul(p.scale, m.m10) {
        Some(v) => v,
        None => { return Err(AnimationError::Overflow) },
    };
    let s11 = match fx_mul(p.scale, m.m11) {
        Some(v) => v,
        None => { return Err(AnimationError::Overflow) },
    };
    let s12 = match fx_mul(p.scale, m.m12) {
        Some(v) => v,
        None => { return Err(AnimationError::Overflow) },
    };
    let s20 = match fx_mul(p.scale, m.m20) {
        Some(v) => v,
        None => { return Err(AnimationError::Overflow) },
    };
    let s21 = match fx_mul(p.scale, m.m21) {
        Some(v) => v,
        None => { return Err(AnimationError::Overflow) },
    };
    let s22 = match fx_mul(p.scale, m.m22) {
        Some(v) => v,
        None => { return Err(AnimationError::Overflow) },
    };
    Ok(
        Matrix4 {
            m00: s00, m01: s01, m02: s02, m03: p.translation.x,
            m10: s10, m11: s11, m12: s12, m13: p.translation.y,
            m20: s20, m21: s21, m22: s22, m23: p.translation.z,
            m30: 0, m31: 0, m32: 0, m33: FX_ONE,
        },
    )
}

/// The model-space transform of joint `i`: its local matrix composed onto
/// its parent's model-space transform; a root's parent transform is the
/// identity.
pub open spec fn global_pose_res(sk: Skeleton, lp: Seq<SQT>, i: int) -> Result<
    Matrix4,
    AnimationError,
>
    decreases i,
{
    if i < 0 || i >= sk.joints@.len() || i >= lp.len() {
        Err(AnimationError::LengthMismatch)
    } else {
        match local_matrix_res(lp[i]) {
            Err(e) => Err(e),
            Ok(m) => match sk.joints@[i].parent_index {
                None => Ok(m),
                Some(p) => if p < i {
                    match global_pose_res(sk, lp, p as int) {
                        Err(e) => Err(e),
                        Ok(g) => mat4_mul_res(g, m),
                    }
                } else {
                    Err(AnimationError::NonTopologicalSkeleton)
                },
            },
        }
    }
}

/// Resolves per-joint local poses into model-space matrices in one forward
/// pass over the skeleton (valid by its topological ordering). The buffer
/// may be longer than the skeleton; the first joint-count entries are
/// used, and the result is joint-index aligned with the skeleton.
pub fn calculate_global_poses(skeleton: &Skeleton, local_poses: &Vec<SQT>) -> (r: Result<
    Vec<Matrix4>,
    AnimationError,
>)
    requires
        skeleton.wf(),
        forall|i: int| 0 <= i < local_poses@.len() ==> sqt_in_range(#[trigger] local_poses@[i]),
    ensures
        match r {
            Ok(v) => {
                &&& local_poses@.len() >= skeleton.joints@.len()
                &&& v@.len() == skeleton.joints@.len()
                &&& forall|i: int|
                    0 <= i < v@.len() ==> global_pose_res(*skeleton, local_poses@, i) == Ok::<
                        Matrix4,
                        AnimationError,
                    >(#[trigger] v@[i])
                &&& forall|i: int| 0 <= i < v@.len() ==> mat4_in_range(#[trigger] v@[i])
            },
            Err(e) => {
                if local_poses@.len() < skeleton.joints@.len() {
                    e == AnimationError::LengthMismatch
                } else {
                    exists|i: int|
                        0 <= i < skeleton.joints@.len() && #[trigger] global_pose_res(
                            *skeleton,
                            local_poses@,
                            i,
                        ) == Err::<Matrix4, AnimationError>(e)
                }
            },
        },
{
    let n = skeleton.joints.len();
    if local_poses.len() < n {
        return Err(AnimationError::LengthMismatch);
    }
    let mut global_poses: Vec<Matrix4> = Vec::new();
    let mut i: usize = 0;
    while i < n
        invariant
            skeleton.wf(),
            n == skeleton.joints@.len(),
            local_poses@.len() >= n,
            forall|k: int|
                0 <= k < local_poses@.len() ==> sqt_in_range(#[trigger] local_poses@[k]),
            0 <= i <= n,
            global_poses@.len() == i,
            forall|k: int|
                0 <= k < i ==> global_pose_res(*skeleton, local_poses@, k) == Ok::<
                    Matrix4,
                    AnimationError,
                >(#[trigger] global_poses@[k]),
            forall|k: int| 0 <= k < i ==> mat4_in_range(#[trigger] global_poses@[k]),
        decreases n - i,
    {
        let local_mat = match sqt_to_matrix(&local_poses[i]) {
            Ok(m) => m,
            Err(e) => {
                proof {
                    assert(global_pose_res(*skeleton, local_poses@, i as int) == Err::<
                        Matrix4,
                        AnimationError,
                    >(e));
                }
                return Err(e);
            },
        };
        let global = match skeleton.joints[i].parent_index {
            None => local_mat,
            Some(p) => {
                match row_mat4_mul(&global_poses[p], &local_mat) {
                    Ok(m) => m,
                    Err(e) => {
                        proof {
                            assert(global_pose_res(*skeleton, local_poses@, i as int) == Err::<
                                Matrix4,
                                AnimationError,
                            >(e));
                        }
                        return Err(e);
                    },
                }
            },
        };
        proof {
            assert(global_pose_res(*skeleton, local_poses@, i as int) == Ok::<
                Matrix4,
                AnimationError,
            >(global));
        }
        global_poses.push(global);
        i += 1;
    }
    Ok(global_poses)
}

/// One imported animation track: the name of the joint it targets, its
/// sample timestamps, and the sampled local transform matrices, as handed
/// over by an external interchange-format decoder.
pub struct AnimationTrack {
    /// Name of the targeted joint.
    pub target: String,
    /// Fixed-point timestamp of each sample.
    pub sample_times: Vec<i64>,
    /// Sampled local transform matrix for each timestamp.
    pub sample_poses: Vec<Matrix4>,
}

/// The index of the last track targeting `name` among the first `upto`
/// tracks (the last one wins, as with repeated insertions into a map).
pub open spec fn rfind_track(tracks: Seq<AnimationTrack>, name: Seq<char>, upto: int) -> Option<
    int,
>
    decreases upto,
{
    if upto <= 0 || upto > tracks.len() {
        None
    } else if tracks[upto - 1].target@ == name {
        Some(upto - 1)
    } else {
        rfind_track(tracks, name, upto - 1)
    }
}

/// The fixed axis-realignment rotation applied to root joints at import:
/// a quarter turn about the x-axis, mapping the source convention's up
/// axis (z) onto the runtime's (y). Exact in fixed point.
pub open spec fn rotate_on_x_spec() -> Matrix4 {
    Matrix4 {
        m00: FX_ONE, m01: 0, m02: 0, m03: 0,
        m10: 0, m11: 0, m12: FX_ONE, m13: 0,
        m20: 0, m21: (-FX_ONE) as i64, m22: 0, m23: 0,
        m30: 0, m31: 0, m32: 0, m33: FX_ONE,
    }
}

/// The pose a transform matrix decomposes into: translation taken from
/// the last column, rotation recovered from the rotation block, and scale
/// fixed at one (the decomposition does not recover scale, a known
/// limitation).
pub open spec fn decompose_res(m: Matrix4) -> Result<SQT, AnimationError> {
    match matrix_to_quaternion_res(m) {
        Err(e) => Err(e),
        Ok(q) => Ok(
            SQT {
                translation: Vector3 { x: m.m03, y: m.m13, z: m.m23 },
                scale: FX_ONE,
                rotation: q,
            },
        ),
    }
}

/// The baked pose of joint `j` at sample `s`: the matching track's sampled
/// matrix (roots realigned first), decomposed; joints with no matching
/// track get the identity matrix's decomposition.
pub open spec fn bake_pose_res(
    sk: Skeleton,
    tracks: Seq<AnimationTrack>,
    s: int,
    j: int,
) -> Result<SQT, AnimationError> {
    match rfind_track(tracks, sk.joints@[j].name@, tracks.len() as int) {
        None => decompose_res(mat4_id_spec()),
        Some(ti) => {
            if s >= tracks[ti].sample_poses@.len() {
                Err(AnimationError::LengthMismatch)
            } else {
                let m = tracks[ti].sample_poses@[s];
                if !mat4_in_range(m) {
                    Err(AnimationError::PoseOutOfRange)
                } else if sk.joints@[j].parent_index is None {
                    match mat4_mul_res(rotate_on_x_spec(), m) {
                        Err(e) => Err(e),
                        Ok(rm) => decompose_res(rm),
                    }
                } else {
                    decompose_res(m)
                }
            }
        },
    }
}

/// Decomposes one baked matrix into a pose (exec mirror of
/// [`decompose_res`]).
fn decompose_matrix(m: &Matrix4) -> (r: Result<SQT, AnimationError>)
    requires
        mat4_in_range(*m),
    ensures
        r == decompose_res(*m),
        r matches Ok(p) ==> sqt_in_range(p),
{
    match matrix_to_quaternion(m) {
        Err(e) => Err(e),
        Ok(q) => Ok(
            SQT {
                translation: Vector3 { x: m.m03, y: m.m13, z: m.m23 },
                scale: FX_ONE,
                rotation: q,
            },
        ),
    }
}

/// The index of the last track targeting `name`, if any.
fn find_track(tracks: &Vec<AnimationTrack>, name: &String) -> (r: Option<usize>)
    ensures
        match r {
            Some(i) => rfind_track(tracks@, name@, tracks@.len() as int) == Some(i as int) && i
                < tracks@.len(),
            None => rfind_track(tracks@, name@, tracks@.len() as int) is None,
        },
{
    let n = tracks.len();
    let mut best: Option<usize> = None;
    let mut i: usize = 0;
    while i < n
        invariant
            n == tracks@.len(),
            0 <= i <= n,
            match best {
                Some(b) => rfind_track(tracks@, name@, i as int) == Some(b as int) && b < n,
                None => rfind_track(tracks@, name@, i as int) is None,
            },
        decreases n - i,
    {
        if tracks[i].target.eq(name) {
            best = Some(i);
        }
        proof {
            assert(rfind_track(tracks@, name@, i as int + 1) == (if tracks@[i as int].target@
                == name@ {
                Some(i as int)
            } else {
                rfind_track(tracks@, name@, i as int)
            }));
        }
        i += 1;
    }
    best
}

/// Identity blend law: blending with weight zero returns the first pose
/// exactly, and with weight one the second, for every pose pair.
pub proof fn lemma_lerp_pose_identity(p1: SQT, p2: SQT)
    ensures
        lerp_pose_res(p1, p2, 0) == Ok::<SQT, AnimationError>(p1),
        lerp_pose_res(p1, p2, FX_ONE as int) == Ok::<SQT, AnimationError>(p2),
{
}

/// Loop wraparound law: for a clip of `N` samples at rate `r`, sampling at
/// the clip's duration (`t * r == N`, scaled) lands exactly on sample 0,
/// with a zero blend factor, so every joint's pose equals the pose at time
/// zero.
pub proof fn lemma_loop_wraparound(c: &AnimationClip, t: int)
    requires
        c.wf(),
        c.index_scaled_spec(t) == c.samples_spec().len() * 4294967296,
    ensures
        c.sample_index_spec(t) == 0,
        c.sample_index_spec(0) == 0,
        c.sample_index_2_spec(t) == c.sample_index_2_spec(0),
        c.blend_factor_spec(t) == 0,
        c.blend_factor_spec(0) == 0,
        forall|j: int| #[trigger] c.pose_res(t, j) == c.pose_res(0, j),
{
    let n = c.samples_spec().len() as int;
    let prod = c.index_scaled_spec(t);
    assert(prod / 4294967296 == n && prod % 4294967296 == 0) by (nonlinear_arith)
        requires
            prod == n * 4294967296,
            n >= 1,
    ;
    assert(n % n == 0) by (nonlinear_arith)
        requires
            n >= 1,
    ;
    assert(c.index_scaled_spec(0) == 0) by (nonlinear_arith)
        requires
            c.index_scaled_spec(0) == 0 * c.rate_spec(),
    ;
    assert(0int / 4294967296 == 0 && 0int % 4294967296 == 0);
    assert(0int % n == 0);
}

/// Root transform law: for a skeleton of a single root joint, the resolved
/// global pose is exactly the joint's local transform (the root's parent
/// transform is the identity).
pub proof fn lemma_root_transform(sk: Skeleton, lp: Seq<SQT>)
    requires
        sk.wf(),
        sk.joints@.len() == 1,
        lp.len() == 1,
        sk.joints@[0].parent_index is None,
    ensures
        global_pose_res(sk, lp, 0) == local_matrix_res(lp[0]),
{
}

/// Hierarchy composition law: for a three-joint chain, the grandchild's
/// global transform is exactly the product of the three local matrices,
/// composed root-first.
pub proof fn lemma_chain_composition(
    sk: Skeleton,
    lp: Seq<SQT>,
    m0: Matrix4,
    m1: Matrix4,
    m2: Matrix4,
    g1: Matrix4,
)
    requires
        sk.wf(),
        sk.joints@.len() == 3,
        lp.len() == 3,
        sk.joints@[0].parent_index is None,
        sk.joints@[1].parent_index == Some(0usize),
        sk.joints@[2].parent_index == Some(1usize),
        local_matrix_res(lp[0]) == Ok::<Matrix4, AnimationError>(m0),
        local_matrix_res(lp[1]) == Ok::<Matrix4, AnimationError>(m1),
        local_matrix_res(lp[2]) == Ok::<Matrix4, AnimationError>(m2),
        mat4_mul_res(m0, m1) == Ok::<Matrix4, AnimationError>(g1),
    ensures
        global_pose_res(sk, lp, 1) == Ok::<Matrix4, AnimationError>(g1),
        global_pose_res(sk, lp, 2) == mat4_mul_res(g1, m2),
{
    assert(global_pose_res(sk, lp, 0) == Ok::<Matrix4, AnimationError>(m0));
}

/// A pure translation as a transform matrix: identity rotation and scale,
/// the translation in the last column.
pub open spec fn translation_matrix_spec(v: Vector3) -> Matrix4 {
    Matrix4 {
        m00: FX_ONE, m01: 0, m02: 0, m03: v.x,
        m10: 0, m11: FX_ONE, m12: 0, m13: v.y,
        m20: 0, m21: 0, m22: FX_ONE, m23: v.z,
        m30: 0, m31: 0, m32: 0, m33: FX_ONE,
    }
}

/// The local matrix of a translation-only pose (identity rotation, unit
/// scale) is exactly the translation matrix.
pub proof fn lemma_local_matrix_translation(p: SQT)
    requires
        sqt_in_range(p),
        p.rotation == crate::math::quat_id_spec(),
        p.scale == FX_ONE,
    ensures
        local_matrix_res(p) == Ok::<Matrix4, AnimationError>(
            translation_matrix_spec(p.translation),
        ),
{
    crate::fixed::lemma_div_trunc_cancel(1, FX_ONE as int);
}

/// Translations compose additively: the product of two pure translation
/// matrices is the translation matrix of the vector sum.
pub proof fn lemma_translation_compose(a: Vector3, b: Vector3)
    requires
        vec3_in_range(a),
        vec3_in_range(b),
        fx_in_range(a.x + b.x),
        fx_in_range(a.y + b.y),
        fx_in_range(a.z + b.z),
    ensures
        mat4_mul_res(translation_matrix_spec(a), translation_matrix_spec(b)) == Ok::<
            Matrix4,
            AnimationError,
        >(
            translation_matrix_spec(
                Vector3 { x: (a.x + b.x) as i64, y: (a.y + b.y) as i64, z: (a.z + b.z) as i64 },
            ),
        ),
{
    crate::fixed::lemma_div_trunc_cancel(1, FX_ONE as int);
    crate::fixed::lemma_div_trunc_cancel(a.x + b.x, FX_ONE as int);
    crate::fixed::lemma_div_trunc_cancel(a.y + b.y, FX_ONE as int);
    crate::fixed::lemma_div_trunc_cancel(a.z + b.z, FX_ONE as int);
    assert(65536 * (b.x as int) + (a.x as int) * 65536 == (a.x + b.x) * 65536)
        by (nonlinear_arith);
    assert(65536 * (b.y as int) + (a.y as int) * 65536 == (a.y + b.y) * 65536)
        by (nonlinear_arith);
    assert(65536 * (b.z as int) + (a.z as int) * 65536 == (a.z + b.z) * 65536)
        by (nonlinear_arith);
}

/// Hierarchy composition law, translation-only case: for a three-joint
/// chain whose poses are pure translations, the grandchild's global
/// transform is the translation by the vector sum of the three local
/// translations.
pub proof fn lemma_chain_translations(sk: Skeleton, lp: Seq<SQT>)
    requires
        sk.wf(),
        sk.joints@.len() == 3,
        lp.len() == 3,
        sk.joints@[0].parent_index is None,
        sk.joints@[1].parent_index == Some(0usize),
        sk.joints@[2].parent_index == Some(1usize),
        forall|i: int| 0 <= i < 3 ==> sqt_in_range(#[trigger] lp[i]),
        forall|i: int|
            0 <= i < 3 ==> (#[trigger] lp[i]).rotation == crate::math::quat_id_spec(),
        forall|i: int| 0 <= i < 3 ==> (#[trigger] lp[i]).scale == FX_ONE,
        fx_in_range(lp[0].translation.x + lp[1].translation.x),
        fx_in_range(lp[0].translation.y + lp[1].translation.y),
        fx_in_range(lp[0].translation.z + lp[1].translation.z),
        fx_in_range(lp[0].translation.x + lp[1].translation.x + lp[2].translation.x),
        fx_in_range(lp[0].translation.y + lp[1].translation.y + lp[2].translation.y),
        fx_in_range(lp[0].translation.z + lp[1].translation.z + lp[2].translation.z),
    ensures
        global_pose_res(sk, lp, 2) == Ok::<Matrix4, AnimationError>(
            translation_matrix_spec(
                Vector3 {
                    x: (lp[0].translation.x + lp[1].translation.x + lp[2].translation.x) as i64,
                    y: (lp[0].translation.y + lp[1].translation.y + lp[2].translation.y) as i64,
                    z: (lp[0].translation.z + lp[1].translation.z + lp[2].translation.z) as i64,
                },
            ),
        ),
{
    lemma_local_matrix_translation(lp[0]);
    lemma_local_matrix_translation(lp[1]);
    lemma_local_matrix_translation(lp[2]);
    lemma_translation_compose(lp[0].translation, lp[1].translation);
    let t01 = Vector3 {
        x: (lp[0].translation.x + lp[1].translation.x) as i64,
        y: (lp[0].translation.y + lp[1].translation.y) as i64,
        z: (lp[0].translation.z + lp[1].translation.z) as i64,
    };
    lemma_translation_compose(t01, lp[2].translation);
    lemma_chain_composition(
        sk,
        lp,
        translation_matrix_spec(lp[0].translation),
        translation_matrix_spec(lp[1].translation),
        translation_matrix_spec(lp[2].translation),
        translation_matrix_spec(t01),
    );
}

} // verus!
