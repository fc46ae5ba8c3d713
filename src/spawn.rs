//! The spawner stage: the loader tag of a skeleton entity, the decision taken
//! for it each frame, and the plan of the child entities it receives.

use vstd::prelude::*;

use crate::assets::SkeletonDataStatus;

verus! {

/// Loading state of a skeleton entity.
#[derive(Clone, Copy, Debug, PartialEq, Eq, Structural)]
pub enum SpineLoader {
    /// Waiting for the skeleton data; `with_children` asks for one child
    /// entity per bone.
    Loading { with_children: bool },
    /// The live controller is attached.
    Ready,
    /// The skeleton data failed to parse.
    Failed,
}

impl SpineLoader {
    /// A loader that spawns bone entities.
    pub fn new() -> (r: SpineLoader)
        ensures
            r == (SpineLoader::Loading { with_children: true }),
    {
        SpineLoader::with_children()
    }

    /// A loader that spawns bone entities.
    pub fn with_children() -> (r: SpineLoader)
        ensures
            r == (SpineLoader::Loading { with_children: true }),
    {
        SpineLoader::Loading { with_children: true }
    }

    /// A loader that spawns no bone entities; mesh entities are still spawned.
    pub fn without_children() -> (r: SpineLoader)
        ensures
            r == (SpineLoader::Loading { with_children: false }),
    {
        SpineLoader::Loading { with_children: false }
    }
}

impl Default for SpineLoader {
    fn default() -> (r: SpineLoader)
        ensures
            r == (SpineLoader::Loading { with_children: true }),
    {
        SpineLoader::new()
    }
}

/// What the spawner does for one skeleton entity this frame.
#[derive(Clone, Copy, Debug, PartialEq, Eq, Structural)]
pub enum SpawnDecision {
    /// Nothing yet (or nothing any more).
    Wait,
    /// Build the controller and the child entities, then announce readiness.
    Spawn { with_children: bool },
    /// The skeleton data failed: the entity is marked failed.
    Fail,
}

/// The decision for a loader state and the status of its skeleton data
/// (`None` when the asset is not known).
pub open spec fn spawn_decision<D>(
    loader: SpineLoader,
    status: Option<&SkeletonDataStatus<D>>,
) -> SpawnDecision {
    match loader {
        SpineLoader::Loading { with_children } => match status {
            Some(SkeletonDataStatus::Loaded(_)) => SpawnDecision::Spawn { with_children },
            Some(SkeletonDataStatus::Failed) => SpawnDecision::Fail,
            _ => SpawnDecision::Wait,
        },
        _ => SpawnDecision::Wait,
    }
}

/// The loader state after a decision.
pub open spec fn loader_after(loader: SpineLoader, d: SpawnDecision) -> SpineLoader {
    match d {
        SpawnDecision::Spawn { .. } => SpineLoader::Ready,
        SpawnDecision::Fail => SpineLoader::Failed,
        SpawnDecision::Wait => loader,
    }
}

/// Takes the spawner's decision for one entity and moves its loader on.
pub fn spawn_step<D>(loader: &mut SpineLoader, status: Option<&SkeletonDataStatus<D>>) -> (d:
    SpawnDecision)
    ensures
        d == spawn_decision(*old(loader), status),
        *final(loader) == loader_after(*old(loader), d),
{
    let d = match *loader {
        SpineLoader::Loading { with_children } => match status {
            Some(SkeletonDataStatus::Loaded(_)) => SpawnDecision::Spawn { with_children },
            Some(SkeletonDataStatus::Failed) => SpawnDecision::Fail,
            _ => SpawnDecision::Wait,
        },
        _ => SpawnDecision::Wait,
    };
    match d {
        SpawnDecision::Spawn { .. } => {
            *loader = SpineLoader::Ready;
        },
        SpawnDecision::Fail => {
            *loader = SpineLoader::Failed;
        },
        SpawnDecision::Wait => {},
    }
    d
}

/// Bone `b` hangs from the root bone (index 0) through parents that come
/// before their children.
pub open spec fn bone_reachable(parents: Seq<Option<usize>>, b: int) -> bool
    decreases b,
{
    if 0 <= b < parents.len() {
        match parents[b] {
            None => b == 0,
            Some(p) => p < b && bone_reachable(parents, p as int),
        }
    } else {
        false
    }
}

/// Number of reachable bones among the first `n`.
pub open spec fn reachable_before(parents: Seq<Option<usize>>, n: int) -> int
    decreases n,
{
    if n <= 0 {
        0
    } else {
        reachable_before(parents, n - 1) + if bone_reachable(parents, n - 1) {
            1int
        } else {
            0int
        }
    }
}

/// A well-formed bone tree: the root comes first, every other bone names a
/// parent that comes before it.
pub open spec fn bone_tree_wf(parents: Seq<Option<usize>>) -> bool {
    &&& parents.len() > 0 ==> parents[0] is None
    &&& forall|b: int| 0 < b < parents.len() ==> (#[trigger] parents[b] matches Some(p) && p < b)
}

/// One bone entity to spawn.
#[derive(Clone, Copy, Debug, PartialEq, Eq, Structural)]
pub struct BoneSpawn {
    /// The skeleton bone (its index) the entity stands for.
    pub bone: usize,
    /// Position, in the same plan, of the entity of the parent bone.
    pub parent: Option<usize>,
}

/// The child entities of a skeleton that is being spawned.
pub struct SpawnPlan {
    /// One mesh entity per slot, in slot order; each value is the entity's
    /// initial depth layer.
    pub mesh_layers: Vec<usize>,
    /// The bone entities, parents before children.
    pub bones: Vec<BoneSpawn>,
}

/// The bone entities planned for a bone tree.
pub open spec fn bones_planned(parents: Seq<Option<usize>>, bones: Seq<BoneSpawn>) -> bool {
    &&& bones.len() == reachable_before(parents, parents.len() as int)
    &&& forall|k: int|
        0 <= k < bones.len() ==> {
            let b = (#[trigger] bones[k]).bone as int;
            &&& 0 <= b < parents.len()
            &&& bone_reachable(parents, b)
            &&& reachable_before(parents, b) == k
            &&& bones[k].parent == match parents[b] {
                None => None::<usize>,
                Some(p) => Some(reachable_before(parents, p as int) as usize),
            }
        }
    &&& forall|b: int|
        0 <= b < parents.len() && #[trigger] bone_reachable(parents, b) ==> bones[reachable_before(
            parents,
            b,
        )].bone == b
}

proof fn lemma_reachable_before_monotone(parents: Seq<Option<usize>>, a: int, b: int)
    requires
        0 <= a <= b,
    ensures
        reachable_before(parents, a) <= reachable_before(parents, b),
        reachable_before(parents, b) <= b,
    decreases b,
{
    if b > 0 {
        if a < b {
            lemma_reachable_before_monotone(parents, a, b - 1);
        }
        lemma_reachable_before_monotone(parents, 0, b - 1);
    }
}

proof fn lemma_reachable_before_strict(parents: Seq<Option<usize>>, a: int, b: int)
    requires
        0 <= a < b,
        bone_reachable(parents, a),
    ensures
        reachable_before(parents, a) < reachable_before(parents, b),
{
    lemma_reachable_before_monotone(parents, a + 1, b);
}

/// Plans the child entities of a skeleton with `slot_count` slots and the
/// bone tree given by each bone's parent index.
///
/// Bone entities are planned (when `with_children`) for the bones that hang
/// from the root bone, in bone order, each under the entity of its parent bone.
pub fn plan_spawn(slot_count: usize, with_children: bool, bone_parents: &Vec<Option<usize>>) -> (r:
    SpawnPlan)
    ensures
        r.mesh_layers@.len() == slot_count,
        forall|i: int| 0 <= i < slot_count ==> r.mesh_layers@[i] == i,
        !with_children ==> r.bones@.len() == 0,
        with_children ==> bones_planned(bone_parents@, r.bones@),
{
    let mut mesh_layers: Vec<usize> = Vec::new();
    let mut i: usize = 0;
    while i < slot_count
        invariant
            i <= slot_count,
            mesh_layers@.len() == i,
            forall|j: int| 0 <= j < i ==> mesh_layers@[j] == j,
        decreases slot_count - i,
    {
        mesh_layers.push(i);
        i = i + 1;
    }
    let bones = if with_children {
        plan_bones(bone_parents)
    } else {
        Vec::new()
    };
    SpawnPlan { mesh_layers, bones }
}

/// Where each of the first `b` bones stands in the plan, if it is planned.
#[verifier::opaque]
spec fn inv_pos(ps: Seq<Option<usize>>, pos: Seq<Option<usize>>, b: int) -> bool {
    forall|j: int|
        0 <= j < b ==> (#[trigger] pos[j]) == if bone_reachable(ps, j) {
            Some(reachable_before(ps, j) as usize)
        } else {
            None::<usize>
        }
}

/// Entry `k` of the plan is right for its bone.
spec fn entry_ok(ps: Seq<Option<usize>>, e: BoneSpawn, k: int, b: int) -> bool {
    let c = e.bone as int;
    &&& 0 <= c < b
    &&& bone_reachable(ps, c)
    &&& reachable_before(ps, c) == k
    &&& e.parent == match ps[c] {
        None => None::<usize>,
        Some(p) => Some(reachable_before(ps, p as int) as usize),
    }
}

/// Every entry planned so far is right for its bone.
#[verifier::opaque]
spec fn inv_bones(ps: Seq<Option<usize>>, bones: Seq<BoneSpawn>, b: int) -> bool {
    forall|k: int| 0 <= k < bones.len() ==> entry_ok(ps, #[trigger] bones[k], k, b)
}

/// Every reachable bone among the first `b` is planned.
#[verifier::opaque]
spec fn inv_cover(ps: Seq<Option<usize>>, bones: Seq<BoneSpawn>, b: int) -> bool {
    forall|c: int|
        0 <= c < b && #[trigger] bone_reachable(ps, c) ==> bones[reachable_before(ps, c)].bone == c
}

/// The loop state of `plan_bones` after the first `b` bones.
spec fn plan_inv(
    ps: Seq<Option<usize>>,
    pos: Seq<Option<usize>>,
    bones: Seq<BoneSpawn>,
    b: int,
) -> bool {
    &&& pos.len() == b
    &&& bones.len() == reachable_before(ps, b)
    &&& inv_pos(ps, pos, b)
    &&& inv_bones(ps, bones, b)
    &&& inv_cover(ps, bones, b)
}

/// The entity planned for bone `b`, given the positions of the earlier bones.
spec fn spawn_for(ps: Seq<Option<usize>>, pos: Seq<Option<usize>>, b: int) -> Option<BoneSpawn> {
    match ps[b] {
        None => if b == 0 {
            Some(BoneSpawn { bone: b as usize, parent: None })
        } else {
            None
        },
        Some(p) => if p < b {
            match pos[p as int] {
                Some(q) => Some(BoneSpawn { bone: b as usize, parent: Some(q) }),
                None => None,
            }
        } else {
            None
        },
    }
}

proof fn lemma_plan_start(ps: Seq<Option<usize>>)
    ensures
        plan_inv(ps, Seq::empty(), Seq::empty(), 0),
{
    reveal(inv_pos);
    reveal(inv_bones);
    reveal(inv_cover);
}

proof fn lemma_plan_done(ps: Seq<Option<usize>>, pos: Seq<Option<usize>>, bones: Seq<BoneSpawn>)
    requires
        plan_inv(ps, pos, bones, ps.len() as int),
    ensures
        bones_planned(ps, bones),
{
    reveal(inv_bones);
    reveal(inv_cover);
    assert forall|k: int| 0 <= k < bones.len() implies {
        let b = (#[trigger] bones[k]).bone as int;
        &&& 0 <= b < ps.len()
        &&& bone_reachable(ps, b)
        &&& reachable_before(ps, b) == k
        &&& bones[k].parent == match ps[b] {
            None => None::<usize>,
            Some(p) => Some(reachable_before(ps, p as int) as usize),
        }
    } by {
        assert(entry_ok(ps, bones[k], k, ps.len() as int));
    }
}

proof fn lemma_spawn_for(ps: Seq<Option<usize>>, pos: Seq<Option<usize>>, b: int)
    requires
        pos.len() == b,
        inv_pos(ps, pos, b),
        0 <= b < ps.len(),
        ps.len() <= usize::MAX,
    ensures
        spawn_for(ps, pos, b) is Some <==> bone_reachable(ps, b),
        spawn_for(ps, pos, b) matches Some(x) ==> x.bone == b && x.parent == match ps[b] {
            None => None::<usize>,
            Some(p) => Some(reachable_before(ps, p as int) as usize),
        },
{
    reveal(inv_pos);
    if let Some(p) = ps[b] {
        if p < b {
            assert(pos[p as int] == if bone_reachable(ps, p as int) {
                Some(reachable_before(ps, p as int) as usize)
            } else {
                None::<usize>
            });
        }
    }
}

proof fn lemma_step_pos(ps: Seq<Option<usize>>, pos: Seq<Option<usize>>, b: int, v: Option<usize>)
    requires
        pos.len() == b,
        inv_pos(ps, pos, b),
        0 <= b,
        v == if bone_reachable(ps, b) {
            Some(reachable_before(ps, b) as usize)
        } else {
            None::<usize>
        },
    ensures
        inv_pos(ps, pos.push(v), b + 1),
{
    reveal(inv_pos);
    let pos2 = pos.push(v);
    assert forall|j: int| 0 <= j < b + 1 implies (#[trigger] pos2[j]) == if bone_reachable(ps, j) {
        Some(reachable_before(ps, j) as usize)
    } else {
        None::<usize>
    } by {
        if j < b {
            assert(pos2[j] == pos[j]);
        }
    }
}

proof fn lemma_step_bones(ps: Seq<Option<usize>>, bones: Seq<BoneSpawn>, b: int, x: Option<BoneSpawn>)
    requires
        inv_bones(ps, bones, b),
        bones.len() == reachable_before(ps, b),
        0 <= b,
        x matches Some(e) ==> entry_ok(ps, e, bones.len() as int, b + 1),
    ensures
        x matches Some(e) ==> inv_bones(ps, bones.push(e), b + 1),
        x is None ==> inv_bones(ps, bones, b + 1),
{
    reveal(inv_bones);
    match x {
        Some(e) => {
            let bones2 = bones.push(e);
            assert forall|k: int| 0 <= k < bones2.len() implies entry_ok(
                ps,
                #[trigger] bones2[k],
                k,
                b + 1,
            ) by {
                if k < bones.len() {
                    assert(bones2[k] == bones[k]);
                    assert(entry_ok(ps, bones[k], k, b));
                }
            }
        },
        None => {
            assert forall|k: int| 0 <= k < bones.len() implies entry_ok(
                ps,
                #[trigger] bones[k],
                k,
                b + 1,
            ) by {
                assert(entry_ok(ps, bones[k], k, b));
            }
        },
    }
}

proof fn lemma_step_cover(ps: Seq<Option<usize>>, bones: Seq<BoneSpawn>, b: int, x: Option<BoneSpawn>)
    requires
        inv_cover(ps, bones, b),
        bones.len() == reachable_before(ps, b),
        0 <= b,
        x is Some <==> bone_reachable(ps, b),
        x matches Some(e) ==> e.bone == b,
    ensures
        x matches Some(e) ==> inv_cover(ps, bones.push(e), b + 1),
        x is None ==> inv_cover(ps, bones, b + 1),
{
    reveal(inv_cover);
    match x {
        Some(e) => {
            let bones2 = bones.push(e);
            assert forall|c: int| 0 <= c < b + 1 && #[trigger] bone_reachable(ps, c) implies bones2[
            reachable_before(ps, c)].bone == c by {
                if c < b {
                    lemma_reachable_before_strict(ps, c, b);
                    lemma_reachable_before_monotone(ps, 0, c);
                    assert(bones2[reachable_before(ps, c)] == bones[reachable_before(ps, c)]);
                }
            }
        },
        None => {},
    }
}

proof fn lemma_plan_step(
    ps: Seq<Option<usize>>,
    pos: Seq<Option<usize>>,
    bones: Seq<BoneSpawn>,
    b: int,
)
    requires
        plan_inv(ps, pos, bones, b),
        0 <= b < ps.len(),
        ps.len() <= usize::MAX,
    ensures
        bones.len() <= b,
        spawn_for(ps, pos, b) matches Some(s) ==> plan_inv(
            ps,
            pos.push(Some(bones.len() as usize)),
            bones.push(s),
            b + 1,
        ),
        spawn_for(ps, pos, b) is None ==> plan_inv(ps, pos.push(None), bones, b + 1),
{
    lemma_reachable_before_monotone(ps, b, b);
    let x = spawn_for(ps, pos, b);
    lemma_spawn_for(ps, pos, b);
    assert(reachable_before(ps, b + 1) == reachable_before(ps, b) + if bone_reachable(ps, b) {
        1int
    } else {
        0int
    });
    let v = if bone_reachable(ps, b) {
        Some(reachable_before(ps, b) as usize)
    } else {
        None::<usize>
    };
    lemma_step_pos(ps, pos, b, v);
    lemma_step_bones(ps, bones, b, x);
    lemma_step_cover(ps, bones, b, x);
}

/// Plans the bone entities of a bone tree.
fn plan_bones(parents: &Vec<Option<usize>>) -> (bones: Vec<BoneSpawn>)
    ensures
        bones_planned(parents@, bones@),
{
    let ghost ps = parents@;
    let mut bones: Vec<BoneSpawn> = Vec::new();
    // position in `bones` of each bone seen so far, if it is spawned
    let mut pos: Vec<Option<usize>> = Vec::new();
    let mut b: usize = 0;
    proof {
        lemma_plan_start(ps);
    }
    while b < parents.len()
        invariant
            ps == parents@,
            b <= ps.len(),
            pos@.len() == b,
            bones@.len() <= b,
            plan_inv(ps, pos@, bones@, b as int),
        decreases ps.len() - b,
    {
        proof {
            lemma_plan_step(ps, pos@, bones@, b as int);
        }
        let spawn: Option<BoneSpawn> = match parents[b] {
            None => if b == 0 {
                Some(BoneSpawn { bone: b, parent: None })
            } else {
                None
            },
            Some(p) => if p < b {
                match pos[p] {
                    Some(q) => Some(BoneSpawn { bone: b, parent: Some(q) }),
                    None => None,
                }
            } else {
                None
            },
        };
        assert(spawn == spawn_for(ps, pos@, b as int));
        match spawn {
            Some(s) => {
                pos.push(Some(bones.len()));
                bones.push(s);
            },
            None => {
                pos.push(None);
            },
        }
        b = b + 1;
    }
    proof {
        lemma_plan_done(ps, pos@, bones@);
    }
    bones
}

/// Every bone of a well-formed tree hangs from the root.
pub proof fn lemma_wf_tree_all_reachable(parents: Seq<Option<usize>>, b: int)
    requires
        bone_tree_wf(parents),
        0 <= b < parents.len(),
    ensures
        bone_reachable(parents, b),
    decreases b,
{
    if b > 0 {
        let p = parents[b]->Some_0;
        lemma_wf_tree_all_reachable(parents, p as int);
    }
}

proof fn lemma_wf_tree_count(parents: Seq<Option<usize>>, n: int)
    requires
        bone_tree_wf(parents),
        0 <= n <= parents.len(),
    ensures
        reachable_before(parents, n) == n,
    decreases n,
{
    if n > 0 {
        lemma_wf_tree_count(parents, n - 1);
        lemma_wf_tree_all_reachable(parents, n - 1);
    }
}

/// The bone entities mirror a well-formed bone tree: one entity per bone, in
/// bone order, each under the entity of its parent bone, the root under none.
pub proof fn lemma_bone_entities_mirror_tree(parents: Seq<Option<usize>>, bones: Seq<BoneSpawn>)
    requires
        bone_tree_wf(parents),
        bones_planned(parents, bones),
    ensures
        bones.len() == parents.len(),
        forall|k: int|
            0 <= k < bones.len() ==> (#[trigger] bones[k]).bone == k && bones[k].parent
                == parents[k],
        forall|k: int|
            0 <= k < bones.len() ==> ((#[trigger] bones[k]).parent matches Some(q) ==> q < k),
{
    lemma_wf_tree_count(parents, parents.len() as int);
    assert forall|k: int| 0 <= k < bones.len() implies (#[trigger] bones[k]).bone == k
        && bones[k].parent == parents[k] by {
        lemma_wf_tree_all_reachable(parents, k);
        let b = bones[k].bone as int;
        lemma_wf_tree_count(parents, b);
        if let Some(p) = parents[k] {
            lemma_wf_tree_count(parents, p as int);
        }
    }
}

/// A skeleton whose only bone is the root gets exactly one bone entity, with
/// no parent.
pub proof fn lemma_root_only_skeleton(bones: Seq<BoneSpawn>)
    requires
        bones_planned(seq![None::<usize>], bones),
    ensures
        bones.len() == 1,
        bones[0] == (BoneSpawn { bone: 0, parent: None }),
{
    let parents = seq![None::<usize>];
    assert(bone_tree_wf(parents));
    lemma_bone_entities_mirror_tree(parents, bones);
}

/// A skeleton whose data is already loaded when the spawner first sees it is
/// spawned in that same frame: its loader is ready right after the step, and
/// its ready event is queued in that frame.
pub proof fn lemma_loaded_spawns_same_frame<D>(with_children: bool, status: SkeletonDataStatus<D>)
    requires
        status is Loaded,
    ensures
        spawn_decision(SpineLoader::Loading { with_children }, Some(&status))
            == (SpawnDecision::Spawn { with_children }),
        loader_after(
            SpineLoader::Loading { with_children },
            spawn_decision(SpineLoader::Loading { with_children }, Some(&status)),
        ) == SpineLoader::Ready,
{
}

#[verifier::external_type_specification]
#[verifier::external_body]
pub struct ExSkeleton(rusty_spine::Skeleton);

/// The number of slots of a live skeleton.
pub uninterp spec fn skeleton_slot_count(skeleton: rusty_spine::Skeleton) -> nat;

/// The parent index of each bone of a live skeleton, in bone order (`None`
/// for a bone without parent).
pub uninterp spec fn skeleton_bone_parents_of(skeleton: rusty_spine::Skeleton) -> Seq<
    Option<usize>,
>;

/// Relies on `rusty_spine::Skeleton::slots_count`: the number of slots.
#[verifier::external_body]
fn slots_count(skeleton: &rusty_spine::Skeleton) -> (r: usize)
    ensures
        r == skeleton_slot_count(*skeleton),
{
    skeleton.slots_count()
}

/// Relies on `rusty_spine::Skeleton::bones_count`: the number of bones.
#[verifier::external_body]
fn bones_count(skeleton: &rusty_spine::Skeleton) -> (r: usize)
    ensures
        r == skeleton_bone_parents_of(*skeleton).len(),
{
    skeleton.bones_count()
}

/// Relies on `rusty_spine::Skeleton::bone_at_index` (bounds-checked),
/// `Bone::parent` and `BoneData::index`: the index of the parent of bone
/// `index`, if that bone exists and has a parent.
#[verifier::external_body]
fn bone_parent_index(skeleton: &rusty_spine::Skeleton, index: usize) -> (r: Option<usize>)
    ensures
        index < skeleton_bone_parents_of(*skeleton).len() ==> r == skeleton_bone_parents_of(
            *skeleton,
        )[index as int],
{
    match skeleton.bone_at_index(index) {
        Some(bone) => match bone.parent() {
            Some(parent) => Some(parent.data().index()),
            None => None,
        },
        None => None,
    }
}

/// The parent index of each bone of a live skeleton, in bone order.
pub fn skeleton_bone_parents(skeleton: &rusty_spine::Skeleton) -> (r: Vec<Option<usize>>)
    ensures
        r@ == skeleton_bone_parents_of(*skeleton),
{
    let n = bones_count(skeleton);
    let mut parents: Vec<Option<usize>> = Vec::new();
    let mut i: usize = 0;
    while i < n
        invariant
            i <= n,
            n == skeleton_bone_parents_of(*skeleton).len(),
            parents@ == skeleton_bone_parents_of(*skeleton).subrange(0, i as int),
        decreases n - i,
    {
        parents.push(bone_parent_index(skeleton, i));
        i = i + 1;
        assert(parents@ =~= skeleton_bone_parents_of(*skeleton).subrange(0, i as int));
    }
    assert(parents@ =~= skeleton_bone_parents_of(*skeleton));
    parents
}

/// Plans the child entities of a live skeleton: one mesh entity per slot
/// and, when `with_children`, its bone entities (see `plan_spawn`).
pub fn plan_skeleton_spawn(skeleton: &rusty_spine::Skeleton, with_children: bool) -> (r: SpawnPlan)
    ensures
        r.mesh_layers@.len() == skeleton_slot_count(*skeleton),
        forall|i: int| 0 <= i < r.mesh_layers@.len() ==> r.mesh_layers@[i] == i,
        !with_children ==> r.bones@.len() == 0,
        with_children ==> bones_planned(skeleton_bone_parents_of(*skeleton), r.bones@),
{
    let slots = slots_count(skeleton);
    let parents = if with_children {
        skeleton_bone_parents(skeleton)
    } else {
        Vec::new()
    };
    plan_spawn(slots, with_children, &parents)
}

} // verus!
