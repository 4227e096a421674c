//! A library for data-driven skeletal animation.
//!
//! A single skeletal animation is represented by an [`animation::AnimationClip`],
//! which consists of a sequence of [`animation::AnimationSample`]s: a specific
//! parent-relative pose for each joint in the skeleton at a specific point on
//! the clip's timeline.
//!
//! Clips are combined at runtime by a [`blend_tree::BlendTreeNode`], and the
//! resulting per-joint local poses are resolved into model-space matrices by
//! walking the skeleton hierarchy.
//!
//! All scalar quantities (times, sample rates, pose components, blend weights)
//! are 16.16 fixed-point numbers held in `i64`: the integer `v` stands for the
//! real number `v / 65536`. This keeps every computation exact and
//! machine-checkable, and makes evaluation bitwise deterministic.

use vstd::prelude::*;

pub mod fixed;
pub mod math;
pub mod skeleton;
pub mod animation;
pub mod blend_tree;
pub mod debug_draw;

verus! {

/// Everything that can go wrong while constructing or evaluating animation
/// data.
#[derive(Clone, Copy, Debug, PartialEq, Eq, Structural)]
pub enum AnimationError {
    /// A fixed-point computation left the representable range.
    Overflow,
    /// A quaternion blend produced a zero-magnitude quaternion
    /// (antipodal inputs), which cannot be renormalized.
    DegenerateQuaternion,
    /// A clip was constructed with no samples, or baked from no tracks.
    EmptyClip,
    /// A sample rate was zero, negative, or out of range.
    InvalidRate,
    /// A duration was zero or negative where a positive one was needed.
    ZeroDuration,
    /// A buffer or sample had the wrong length for the skeleton.
    LengthMismatch,
    /// A pose component was outside the representable fixed-point range.
    PoseOutOfRange,
    /// A joint's parent index did not refer to an earlier joint.
    NonTopologicalSkeleton,
    /// A blend tree referenced a clip that the library does not hold.
    MissingClip,
    /// An evaluation referenced a blend parameter that was not supplied.
    MissingParameter,
}

} // verus!

pub use animation::{AnimationClip, AnimationSample, SQT};
pub use blend_tree::{BlendTreeNode, BlendTreeNodeDef};
pub use skeleton::Skeleton;
