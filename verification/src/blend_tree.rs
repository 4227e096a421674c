//! Blend trees: declarative definitions of pose-combination operations,
//! bound to clips and evaluated per frame into a joint-indexed pose buffer.

use vstd::prelude::*;

use crate::animation::{
    lerp_pose, lerp_pose_res, sqt_identity, sqt_in_range, AnimationClip, SQT,
};
use crate::fixed::{fx_in_range, FX_LIMIT};
use crate::AnimationError;

verus! {

/// Identifier of an animation clip in a [`ClipLibrary`].
pub type ClipId = String;

/// Name of a runtime blend parameter.
pub type ParamId = String;

/// Definition of a blend tree, to be converted to a [`BlendTreeNode`] at
/// runtime. Pure data with no behavior.
pub enum BlendTreeNodeDef {
    /// Linear blend of two subtrees, weighted by the named parameter.
    LerpNode(Box<BlendTreeNodeDef>, Box<BlendTreeNodeDef>, ParamId),
    /// The output of the named clip.
    ClipNode(ClipId),
}

/// The clips a blend tree can reference: an arena addressed by stable
/// handle, shared by every tree bound against it.
pub struct ClipLibrary {
    names: Vec<String>,
    clips: Vec<AnimationClip>,
}

impl ClipLibrary {
    /// The clip names, by handle, as ghost state.
    pub closed spec fn names_spec(&self) -> Seq<String> {
        self.names@
    }

    /// The clips, by handle, as ghost state.
    pub closed spec fn clips_spec(&self) -> Seq<AnimationClip> {
        self.clips@
    }

    /// One name per clip, every clip well-formed.
    pub open spec fn wf(&self) -> bool {
        &&& self.names_spec().len() == self.clips_spec().len()
        &&& forall|i: int|
            0 <= i < self.clips_spec().len() ==> (#[trigger] self.clips_spec()[i]).wf()
    }

    /// An empty library.
    pub fn new() -> (r: ClipLibrary)
        ensures
            r.wf(),
            r.clips_spec().len() == 0,
    {
        ClipLibrary { names: Vec::new(), clips: Vec::new() }
    }

    /// The number of clips held.
    pub fn len(&self) -> (r: usize)
        ensures
            r == self.clips_spec().len(),
    {
        self.clips.len()
    }

    /// Adds a clip under a name and returns its handle. Names are not
    /// deduplicated; lookup finds the earliest clip of a name.
    pub fn add_clip(&mut self, name: String, clip: AnimationClip) -> (r: usize)
        requires
            old(self).wf(),
            clip.wf(),
        ensures
            final(self).wf(),
            r == old(self).clips_spec().len(),
            final(self).clips_spec() == old(self).clips_spec().push(clip),
            final(self).names_spec() == old(self).names_spec().push(name),
    {
        let handle = self.clips.len();
        self.names.push(name);
        self.clips.push(clip);
        handle
    }

    /// The clip behind a handle.
    pub fn get(&self, handle: usize) -> (r: &AnimationClip)
        requires
            handle < self.clips_spec().len(),
        ensures
            *r == self.clips_spec()[handle as int],
    {
        &self.clips[handle]
    }

    /// The handle of the earliest clip with the given name, if any.
    pub fn find_clip(&self, name: &String) -> (r: Option<usize>)
        ensures
            match r {
                Some(h) => find_name(self.names_spec(), name@, 0) == Some(h as int),
                None => find_name(self.names_spec(), name@, 0) is None,
            },
    {
        let n = self.names.len();
        let mut i: usize = 0;
        while i < n
            invariant
                n == self.names_spec().len(),
                0 <= i <= n,
                find_name(self.names_spec(), name@, 0) == find_name(
                    self.names_spec(),
                    name@,
                    i as int,
                ),
            decreases n - i,
        {
            if self.names[i].eq(name) {
                proof {
                    assert(find_name(self.names_spec(), name@, i as int) == Some(i as int));
                }
                return Some(i);
            }
            proof {
                assert(find_name(self.names_spec(), name@, i as int) == find_name(
                    self.names_spec(),
                    name@,
                    i as int + 1,
                ));
            }
            i += 1;
        }
        proof {
            assert(find_name(self.names_spec(), name@, n as int) is None);
        }
        None
    }
}

/// The index of the first name equal to `name`, scanning from `from`.
pub open spec fn find_name(names: Seq<String>, name: Seq<char>, from: int) -> Option<int>
    decreases names.len() - from,
{
    if from < 0 || from >= names.len() {
        None
    } else if names[from]@ == name {
        Some(from)
    } else {
        find_name(names, name, from + 1)
    }
}

/// The value of the first entry named `name`, scanning from `from`.
pub open spec fn param_lookup(entries: Seq<(String, i64)>, name: Seq<char>, from: int) -> Option<
    i64,
>
    decreases entries.len() - from,
{
    if from < 0 || from >= entries.len() {
        None
    } else if entries[from].0@ == name {
        Some(entries[from].1)
    } else {
        param_lookup(entries, name, from + 1)
    }
}

/// Named fixed-point blend parameters, supplied fresh for each evaluation.
pub struct BlendParams {
    entries: Vec<(String, i64)>,
}

impl BlendParams {
    /// The entries, newest first, as ghost state.
    pub closed spec fn entries_spec(&self) -> Seq<(String, i64)> {
        self.entries@
    }

    /// An empty parameter set.
    pub fn new() -> (r: BlendParams)
        ensures
            r.entries_spec().len() == 0,
    {
        BlendParams { entries: Vec::new() }
    }

    /// Sets a parameter; the newest value of a name wins.
    pub fn set(&mut self, name: String, value: i64) -> (r: ())
        ensures
            final(self).entries_spec() == seq![(name, value)] + old(self).entries_spec(),
    {
        self.entries.insert(0, (name, value));
    }

    /// The current value of the named parameter, if set.
    pub fn get(&self, name: &String) -> (r: Option<i64>)
        ensures
            r == param_lookup(self.entries_spec(), name@, 0),
    {
        let n = self.entries.len();
        let mut i: usize = 0;
        while i < n
            invariant
                n == self.entries_spec().len(),
                0 <= i <= n,
                param_lookup(self.entries_spec(), name@, 0) == param_lookup(
                    self.entries_spec(),
                    name@,
                    i as int,
                ),
            decreases n - i,
        {
            if self.entries[i].0.eq(name) {
                proof {
                    assert(param_lookup(self.entries_spec(), name@, i as int) == Some(
                        self.entries_spec()[i as int].1,
                    ));
                }
                return Some(self.entries[i].1);
            }
            proof {
                assert(param_lookup(self.entries_spec(), name@, i as int) == param_lookup(
                    self.entries_spec(),
                    name@,
                    i as int + 1,
                ));
            }
            i += 1;
        }
        proof {
            assert(param_lookup(self.entries_spec(), name@, n as int) is None);
        }
        None
    }
}

/// Runtime representation of a blend tree. `LerpNode` owns its two
/// children outright; `ClipNode` holds a handle into the shared
/// [`ClipLibrary`].
pub enum BlendTreeNode {
    /// Pose output is linearly blended between the outputs of the two
    /// child nodes, with the blend factor taken from the named parameter.
    LerpNode(Box<BlendTreeNode>, Box<BlendTreeNode>, ParamId),
    /// Pose output comes from an [`AnimationClip`].
    ClipNode(usize),
}

/// Whether binding a definition against the library's names fails for want
/// of a named clip.
pub open spec fn bind_fails(def: BlendTreeNodeDef, names: Seq<String>) -> bool
    decreases def,
{
    match def {
        BlendTreeNodeDef::LerpNode(a, b, _) => bind_fails(*a, names) || bind_fails(*b, names),
        BlendTreeNodeDef::ClipNode(c) => find_name(names, c@, 0) is None,
    }
}

/// Whether `node` is the binding of `def` against the library's names:
/// same shape, same parameter names, each clip name resolved to the handle
/// of the earliest clip of that name.
pub open spec fn binds_to(def: BlendTreeNodeDef, names: Seq<String>, node: BlendTreeNode) -> bool
    decreases def,
{
    match def {
        BlendTreeNodeDef::LerpNode(a, b, p) => node matches BlendTreeNode::LerpNode(na, nb, np)
            && binds_to(*a, names, *na) && binds_to(*b, names, *nb) && np@ == p@,
        BlendTreeNodeDef::ClipNode(c) => node matches BlendTreeNode::ClipNode(h) && find_name(
            names,
            c@,
            0,
        ) == Some(h as int),
    }
}

/// The number of joints the tree poses: the joint count of its leftmost
/// clip; a missing-clip error when that leftmost handle is unbound.
pub open spec fn tree_joint_count_res(node: BlendTreeNode, lib: ClipLibrary) -> Result<
    int,
    AnimationError,
>
    decreases node,
{
    match node {
        BlendTreeNode::ClipNode(h) => if h >= lib.clips_spec().len() {
            Err(AnimationError::MissingClip)
        } else {
            Ok(lib.clips_spec()[h as int].joint_count_spec())
        },
        BlendTreeNode::LerpNode(a, _, _) => tree_joint_count_res(*a, lib),
    }
}

/// Which structural error an evaluation reports, before any pose math: an
/// unbound clip handle, a clip posing a different number of joints than
/// the rest of the tree, or a missing or out-of-range blend parameter.
/// Checked leftmost-first, parameters before children. `jc` is the tree's
/// joint count.
pub open spec fn eval_structure(
    node: BlendTreeNode,
    lib: ClipLibrary,
    params: Seq<(String, i64)>,
    jc: int,
) -> Result<(), AnimationError>
    decreases node,
{
    match node {
        BlendTreeNode::ClipNode(h) => if h >= lib.clips_spec().len() {
            Err(AnimationError::MissingClip)
        } else if lib.clips_spec()[h as int].joint_count_spec() != jc {
            Err(AnimationError::LengthMismatch)
        } else {
            Ok(())
        },
        BlendTreeNode::LerpNode(a, b, p) => match param_lookup(params, p@, 0) {
            None => Err(AnimationError::MissingParameter),
            Some(w) => if !fx_in_range(w as int) {
                Err(AnimationError::Overflow)
            } else {
                match eval_structure(*a, lib, params, jc) {
                    Err(e) => Err(e),
                    Ok(_) => eval_structure(*b, lib, params, jc),
                }
            },
        },
    }
}

/// The pose the tree produces for joint `j`: clips sample themselves at
/// the elapsed time, blend nodes interpolate their children's outputs with
/// the parameter's weight. Meaningful when `eval_structure` is `Ok`.
pub open spec fn eval_pose(
    node: BlendTreeNode,
    lib: ClipLibrary,
    t: int,
    params: Seq<(String, i64)>,
    j: int,
) -> Result<SQT, AnimationError>
    decreases node,
{
    match node {
        BlendTreeNode::ClipNode(h) => lib.clips_spec()[h as int].pose_res(t, j),
        BlendTreeNode::LerpNode(a, b, p) => {
            let w = param_lookup(params, p@, 0)->Some_0;
            match eval_pose(*a, lib, t, params, j) {
                Err(e) => Err(e),
                Ok(p1) => match eval_pose(*b, lib, t, params, j) {
                    Err(e) => Err(e),
                    Ok(p2) => lerp_pose_res(p1, p2, w as int),
                },
            }
        },
    }
}

/// Any pose a structurally valid tree produces is in range.
pub proof fn lemma_eval_pose_in_range(
    node: BlendTreeNode,
    lib: ClipLibrary,
    t: int,
    params: Seq<(String, i64)>,
    n: int,
    j: int,
)
    requires
        lib.wf(),
        eval_structure(node, lib, params, n) is Ok,
        0 <= j < n,
    ensures
        eval_pose(node, lib, t, params, j) matches Ok(p) ==> sqt_in_range(p),
    decreases node,
{
    match node {
        BlendTreeNode::ClipNode(h) => {
            lib.clips_spec()[h as int].lemma_pose_res_in_range(t, j);
        },
        BlendTreeNode::LerpNode(a, b, p) => {
            let w = param_lookup(params, p@, 0)->Some_0;
            reveal_with_fuel(eval_structure, 2);
            assert(param_lookup(params, p@, 0) is Some);
            let ra = eval_structure(*a, lib, params, n);
            if ra is Err {
                assert(eval_structure(node, lib, params, n) == Err::<(), AnimationError>(
                    ra->Err_0,
                ));
            }
            let rb = eval_structure(*b, lib, params, n);
            if rb is Err {
                assert(eval_structure(node, lib, params, n) == Err::<(), AnimationError>(
                    rb->Err_0,
                ));
            }
            assert(ra is Ok && rb is Ok);
            lemma_eval_pose_in_range(*a, lib, t, params, n, j);
            lemma_eval_pose_in_range(*b, lib, t, params, n, j);
            match eval_pose(*a, lib, t, params, j) {
                Err(_) => {},
                Ok(p1) => match eval_pose(*b, lib, t, params, j) {
                    Err(_) => {},
                    Ok(p2) => {
                        crate::animation::lemma_lerp_pose_ok_in_range(p1, p2, w as int);
                    },
                },
            }
        },
    }
}

impl BlendTreeNode {
    /// The number of joints this tree poses, from its leftmost clip.
    fn tree_joint_count(&self, animations: &ClipLibrary) -> (r: Result<usize, AnimationError>)
        requires
            animations.wf(),
        ensures
            match r {
                Ok(jc) => tree_joint_count_res(*self, *animations) == Ok::<int, AnimationError>(
                    jc as int,
                ),
                Err(e) => tree_joint_count_res(*self, *animations) == Err::<int, AnimationError>(
                    e,
                ),
            },
        decreases *self,
    {
        match self {
            BlendTreeNode::ClipNode(h) => {
                if *h >= animations.len() {
                    Err(AnimationError::MissingClip)
                } else {
                    Ok(animations.get(*h).joint_count())
                }
            },
            BlendTreeNode::LerpNode(a, _, _) => a.tree_joint_count(animations),
        }
    }

    /// Checks the structural half of an evaluation up front: clip handles
    /// bound, clip joint counts agreeing with the tree's, blend parameters
    /// present and in range.
    fn validate(&self, animations: &ClipLibrary, params: &BlendParams, jc: usize) -> (r: Result<
        (),
        AnimationError,
    >)
        requires
            animations.wf(),
        ensures
            r == eval_structure(*self, *animations, params.entries_spec(), jc as int),
        decreases *self,
    {
        match self {
            BlendTreeNode::ClipNode(h) => {
                if *h >= animations.len() {
                    Err(AnimationError::MissingClip)
                } else {
                    let clip = animations.get(*h);
                    if clip.joint_count() != jc {
                        Err(AnimationError::LengthMismatch)
                    } else {
                        Ok(())
                    }
                }
            },
            BlendTreeNode::LerpNode(a, b, p) => {
                match params.get(p) {
                    None => Err(AnimationError::MissingParameter),
                    Some(w) => {
                        if w < -FX_LIMIT || w > FX_LIMIT {
                            Err(AnimationError::Overflow)
                        } else {
                            match a.validate(animations, params, jc) {
                                Err(e) => Err(e),
                                Ok(_) => b.validate(animations, params, jc),
                            }
                        }
                    },
                }
            },
        }
    }

    /// Evaluates a structurally valid tree into the first `jc` entries of
    /// `out`, leaving the rest untouched. `pool` recycles the scratch
    /// buffers of nested blends across one evaluation, so the recursion
    /// allocates at most one buffer per blend depth instead of one per
    /// blend node.
    fn eval_into(
        &self,
        animations: &ClipLibrary,
        elapsed_time: i64,
        params: &BlendParams,
        out: &mut Vec<SQT>,
        jc: usize,
        pool: &mut Vec<Vec<SQT>>,
    ) -> (r: Result<(), AnimationError>)
        requires
            animations.wf(),
            0 <= elapsed_time <= FX_LIMIT,
            eval_structure(*self, *animations, params.entries_spec(), jc as int) is Ok,
            jc <= old(out)@.len(),
        ensures
            final(out)@.len() == old(out)@.len(),
            forall|j: int|
                jc <= j < old(out)@.len() ==> final(out)@[j] == old(out)@[j],
            match r {
                Ok(_) => forall|j: int|
                    0 <= j < jc ==> eval_pose(
                        *self,
                        *animations,
                        elapsed_time as int,
                        params.entries_spec(),
                        j,
                    ) == Ok::<SQT, AnimationError>(#[trigger] final(out)@[j]),
                Err(e) => exists|j: int|
                    0 <= j < jc && #[trigger] eval_pose(
                        *self,
                        *animations,
                        elapsed_time as int,
                        params.entries_spec(),
                        j,
                    ) == Err::<SQT, AnimationError>(e),
            },
        decreases *self,
    {
        let ghost t = elapsed_time as int;
        let ghost ps = params.entries_spec();
        let ghost n_spec = jc as int;
        match self {
            BlendTreeNode::ClipNode(h) => {
                let clip = animations.get(*h);
                match clip.get_interpolated_poses_at_time(elapsed_time, out) {
                    Ok(_) => {
                        proof {
                            assert forall|j: int| 0 <= j < jc implies eval_pose(
                                *self,
                                *animations,
                                t,
                                ps,
                                j,
                            ) == Ok::<SQT, AnimationError>(#[trigger] final(out)@[j]) by {
                                assert(clip.pose_res(t, j) == Ok::<SQT, AnimationError>(
                                    final(out)@[j],
                                ));
                            }
                        }
                        Ok(())
                    },
                    Err(e) => {
                        proof {
                            let j = choose|j: int|
                                0 <= j < clip.joint_count_spec() && #[trigger] clip.pose_res(
                                    t,
                                    j,
                                ) == Err::<SQT, AnimationError>(e);
                            assert(eval_pose(*self, *animations, t, ps, j) == Err::<
                                SQT,
                                AnimationError,
                            >(e));
                        }
                        Err(e)
                    },
                }
            },
            BlendTreeNode::LerpNode(a, b, p) => {
                let w = match params.get(p) {
                    Some(w) => w,
                    None => {
                        proof {
                            assert(false);
                        }
                        return Err(AnimationError::MissingParameter);
                    },
                };
                proof {
                    reveal_with_fuel(eval_structure, 2);
                    assert(param_lookup(ps, p@, 0) == Some(w));
                    assert(fx_in_range(w as int));
                    let ra = eval_structure(**a, *animations, ps, n_spec);
                    if ra is Err {
                        assert(eval_structure(*self, *animations, ps, n_spec) == Err::<
                            (),
                            AnimationError,
                        >(ra->Err_0));
                    }
                    let rb = eval_structure(**b, *animations, ps, n_spec);
                    if ra is Ok && rb is Err {
                        assert(eval_structure(*self, *animations, ps, n_spec) == Err::<
                            (),
                            AnimationError,
                        >(rb->Err_0));
                    }
                    assert(ra is Ok && rb is Ok);
                }
                let mut scratch: Vec<SQT> = match pool.pop() {
                    Some(v) => v,
                    None => Vec::new(),
                };
                while scratch.len() < jc
                    decreases jc - scratch@.len(),
                {
                    scratch.push(sqt_identity());
                }
                match a.eval_into(animations, elapsed_time, params, &mut scratch, jc, pool) {
                    Ok(_) => {},
                    Err(e) => {
                        proof {
                            let j = choose|j: int|
                                0 <= j < jc && #[trigger] eval_pose(**a, *animations, t, ps, j)
                                    == Err::<SQT, AnimationError>(e);
                            assert(eval_pose(*self, *animations, t, ps, j) == Err::<
                                SQT,
                                AnimationError,
                            >(e));
                        }
                        return Err(e);
                    },
                }
                match b.eval_into(animations, elapsed_time, params, out, jc, pool) {
                    Ok(_) => {},
                    Err(e) => {
                        proof {
                            let j = choose|j: int|
                                0 <= j < jc && #[trigger] eval_pose(**b, *animations, t, ps, j)
                                    == Err::<SQT, AnimationError>(e);
                            assert(eval_pose(**a, *animations, t, ps, j) == Ok::<
                                SQT,
                                AnimationError,
                            >(scratch@[j]));
                            assert(eval_pose(*self, *animations, t, ps, j) == Err::<
                                SQT,
                                AnimationError,
                            >(e));
                        }
                        return Err(e);
                    },
                }
                let mut j: usize = 0;
                while j < jc
                    invariant
                        animations.wf(),
                        0 <= elapsed_time <= FX_LIMIT,
                        t == elapsed_time as int,
                        ps == params.entries_spec(),
                        *self == BlendTreeNode::LerpNode(*a, *b, *p),
                        eval_structure(*self, *animations, ps, jc as int) is Ok,
                        param_lookup(ps, p@, 0) == Some(w),
                        fx_in_range(w as int),
                        scratch@.len() >= jc,
                        out@.len() == old(out)@.len(),
                        jc <= old(out)@.len(),
                        0 <= j <= jc,
                        forall|k2: int|
                            jc <= k2 < old(out)@.len() ==> out@[k2] == old(out)@[k2],
                        forall|k2: int|
                            0 <= k2 < jc ==> eval_pose(**a, *animations, t, ps, k2) == Ok::<
                                SQT,
                                AnimationError,
                            >(#[trigger] scratch@[k2]),
                        forall|k2: int|
                            j <= k2 < jc ==> eval_pose(**b, *animations, t, ps, k2) == Ok::<
                                SQT,
                                AnimationError,
                            >(#[trigger] out@[k2]),
                        forall|k2: int|
                            0 <= k2 < j ==> eval_pose(*self, *animations, t, ps, k2) == Ok::<
                                SQT,
                                AnimationError,
                            >(#[trigger] out@[k2]),
                    decreases jc - j,
                {
                    proof {
                        lemma_eval_pose_in_range(**a, *animations, t, ps, jc as int, j as int);
                        lemma_eval_pose_in_range(**b, *animations, t, ps, jc as int, j as int);
                    }
                    match lerp_pose(&scratch[j], &out[j], w) {
                        Ok(v) => {
                            out.set(j, v);
                            proof {
                                assert(eval_pose(*self, *animations, t, ps, j as int) == Ok::<
                                    SQT,
                                    AnimationError,
                                >(v));
                            }
                        },
                        Err(e) => {
                            proof {
                                assert(eval_pose(*self, *animations, t, ps, j as int) == Err::<
                                    SQT,
                                    AnimationError,
                                >(e));
                            }
                            return Err(e);
                        },
                    }
                    j += 1;
                }
                pool.push(scratch);
                Ok(())
            },
        }
    }

    /// Evaluates the tree at the given elapsed time with the given
    /// parameters, writing one pose per joint into the front of
    /// `output_poses` and leaving entries past the joint count untouched.
    /// The joint count is the tree's own (its clips'); a buffer shorter
    /// than it is rejected. Structural problems — an unknown clip handle,
    /// a clip of the wrong joint count, a missing or out-of-range
    /// parameter — are reported before any pose math; numeric
    /// degeneracies during blending are reported as they are found.
    pub fn get_output_pose(
        &self,
        animations: &ClipLibrary,
        elapsed_time: i64,
        params: &BlendParams,
        output_poses: &mut Vec<SQT>,
    ) -> (r: Result<(), AnimationError>)
        requires
            animations.wf(),
            0 <= elapsed_time <= FX_LIMIT,
        ensures
            final(output_poses)@.len() == old(output_poses)@.len(),
            ({
                let ps = params.entries_spec();
                let jcr = tree_joint_count_res(*self, *animations);
                match r {
                    Ok(_) => jcr matches Ok(jc) && {
                        &&& eval_structure(*self, *animations, ps, jc) is Ok
                        &&& old(output_poses)@.len() >= jc
                        &&& forall|j: int|
                            0 <= j < jc ==> eval_pose(
                                *self,
                                *animations,
                                elapsed_time as int,
                                ps,
                                j,
                            ) == Ok::<SQT, AnimationError>(#[trigger] final(output_poses)@[j])
                        &&& forall|j: int|
                            jc <= j < old(output_poses)@.len() ==> final(output_poses)@[j]
                                == old(output_poses)@[j]
                    },
                    Err(e) => {
                        if jcr is Err {
                            jcr == Err::<int, AnimationError>(e) && final(output_poses)@ == old(
                                output_poses,
                            )@
                        } else {
                            let jc = jcr->Ok_0;
                            if old(output_poses)@.len() < jc {
                                e == AnimationError::LengthMismatch && final(output_poses)@
                                    == old(output_poses)@
                            } else {
                                let st = eval_structure(*self, *animations, ps, jc);
                                if st is Err {
                                    st == Err::<(), AnimationError>(e) && final(output_poses)@
                                        == old(output_poses)@
                                } else {
                                    (exists|j: int|
                                        0 <= j < jc && #[trigger] eval_pose(
                                            *self,
                                            *animations,
                                            elapsed_time as int,
                                            ps,
                                            j,
                                        ) == Err::<SQT, AnimationError>(e)) && forall|j: int|
                                        jc <= j < old(output_poses)@.len()
                                            ==> final(output_poses)@[j] == old(output_poses)@[j]
                                }
                            }
                        }
                    },
                }
            }),
    {
        let jc = match self.tree_joint_count(animations) {
            Ok(v) => v,
            Err(e) => { return Err(e) },
        };
        if output_poses.len() < jc {
            return Err(AnimationError::LengthMismatch);
        }
        match self.validate(animations, params, jc) {
            Ok(_) => {
                let mut pool: Vec<Vec<SQT>> = Vec::new();
                self.eval_into(animations, elapsed_time, params, output_poses, jc, &mut pool)
            },
            Err(e) => Err(e),
        }
    }

    /// Binds a definition to a runtime tree, resolving each named clip to
    /// its handle in the library. A name the library does not hold is a
    /// missing-clip error.
    pub fn from_def(def: BlendTreeNodeDef, animations: &ClipLibrary) -> (r: Result<
        BlendTreeNode,
        AnimationError,
    >)
        ensures
            bind_fails(def, animations.names_spec()) ==> r == Err::<
                BlendTreeNode,
                AnimationError,
            >(AnimationError::MissingClip),
            !bind_fails(def, animations.names_spec()) ==> (r matches Ok(node) && binds_to(
                def,
                animations.names_spec(),
                node,
            )),
        decreases def,
    {
        match def {
            BlendTreeNodeDef::LerpNode(input_1, input_2, param_id) => {
                let node_1 = match Self::from_def(*input_1, animations) {
                    Ok(n) => n,
                    Err(e) => { return Err(e) },
                };
                let node_2 = match Self::from_def(*input_2, animations) {
                    Ok(n) => n,
                    Err(e) => { return Err(e) },
                };
                Ok(BlendTreeNode::LerpNode(Box::new(node_1), Box::new(node_2), param_id))
            },
            BlendTreeNodeDef::ClipNode(clip_id) => {
                match animations.find_clip(&clip_id) {
                    Some(handle) => Ok(BlendTreeNode::ClipNode(handle)),
                    None => Err(AnimationError::MissingClip),
                }
            },
        }
    }
}

/// Determinism law: evaluation is a pure function of the tree, the clips,
/// the elapsed time and the parameters, so two successful evaluations with
/// identical inputs produce identical pose buffers.
pub proof fn lemma_evaluation_deterministic(
    node: BlendTreeNode,
    lib: ClipLibrary,
    t: int,
    params: Seq<(String, i64)>,
    out1: Seq<SQT>,
    out2: Seq<SQT>,
)
    requires
        out1.len() == out2.len(),
        forall|j: int|
            0 <= j < out1.len() ==> eval_pose(node, lib, t, params, j) == Ok::<
                SQT,
                AnimationError,
            >(#[trigger] out1[j]),
        forall|j: int|
            0 <= j < out2.len() ==> eval_pose(node, lib, t, params, j) == Ok::<
                SQT,
                AnimationError,
            >(#[trigger] out2[j]),
    ensures
        out1 == out2,
{
    assert forall|j: int| 0 <= j < out1.len() implies out1[j] == out2[j] by {
        assert(Ok::<SQT, AnimationError>(out1[j]) == Ok::<SQT, AnimationError>(out2[j]));
    }
    assert(out1 =~= out2);
}

} // verus!
