//! The skeleton: a static, read-only hierarchy of named joints.

use vstd::prelude::*;

use crate::AnimationError;

verus! {

/// A joint: a named pivot in the skeleton hierarchy, with an optional
/// parent. Roots have no parent.
#[derive(Clone, Debug)]
pub struct Joint {
    pub name: String,
    pub parent_index: Option<usize>,
}

impl Joint {
    pub open spec fn is_root_spec(&self) -> bool {
        self.parent_index is None
    }

    /// Whether this joint is a root of the hierarchy.
    pub fn is_root(&self) -> (r: bool)
        ensures
            r == self.is_root_spec(),
    {
        self.parent_index.is_none()
    }
}

/// Joints are topologically ordered: every parent index refers to a
/// strictly earlier joint, so one forward pass resolves the hierarchy.
pub open spec fn topologically_ordered(joints: Seq<Joint>) -> bool {
    forall|i: int|
        0 <= i < joints.len() ==> (match #[trigger] joints[i].parent_index {
            Some(p) => p < i,
            None => true,
        })
}

/// A skeleton: a sequence of joints ordered parent-before-child.
#[derive(Clone, Debug)]
pub struct Skeleton {
    pub joints: Vec<Joint>,
}

impl Skeleton {
    /// The construction-time invariant: see [`topologically_ordered`].
    pub open spec fn wf(&self) -> bool {
        topologically_ordered(self.joints@)
    }

    /// Builds a skeleton after checking that the joints are topologically
    /// ordered; a forward or self reference is a construction error.
    pub fn new(joints: Vec<Joint>) -> (r: Result<Skeleton, AnimationError>)
        ensures
            topologically_ordered(joints@) ==> r == Ok::<Skeleton, AnimationError>(
                Skeleton { joints },
            ),
            !topologically_ordered(joints@) ==> r == Err::<Skeleton, AnimationError>(
                AnimationError::NonTopologicalSkeleton,
            ),
    {
        let n = joints.len();
        let mut i: usize = 0;
        while i < n
            invariant
                n == joints@.len(),
                0 <= i <= n,
                forall|k: int|
                    0 <= k < i ==> (match #[trigger] joints@[k].parent_index {
                        Some(p) => p < k,
                        None => true,
                    }),
            decreases n - i,
        {
            match joints[i].parent_index {
                Some(p) => {
                    if p >= i {
                        return Err(AnimationError::NonTopologicalSkeleton);
                    }
                },
                None => {},
            }
            i += 1;
        }
        Ok(Skeleton { joints })
    }

    /// The number of joints.
    pub fn len(&self) -> (r: usize)
        ensures
            r == self.joints@.len(),
    {
        self.joints.len()
    }
}

} // verus!
