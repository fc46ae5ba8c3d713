//! The bone-synchronisation barrier between skeleton bones and bone entities.
//!
//! Each bone entity is linked to one bone of a participating skeleton (an
//! index into the poses of all participating bones) or to none, when its
//! skeleton does not take part this frame or its bone is gone. `P` is the
//! pose type.

use vstd::prelude::*;

verus! {

/// The pose an entity receives from the bone it is linked to, if the link
/// resolves.
pub open spec fn linked_pose<P>(link: Option<usize>, bone_poses: Seq<P>) -> Option<P> {
    match link {
        Some(b) => if b < bone_poses.len() {
            Some(bone_poses[b as int])
        } else {
            None
        },
        None => None,
    }
}

/// The entity poses after copying each linked bone's pose into its entity.
pub open spec fn entities_synced<P>(
    entity_poses: Seq<P>,
    links: Seq<Option<usize>>,
    bone_poses: Seq<P>,
) -> Seq<P> {
    Seq::new(
        entity_poses.len(),
        |i: int|
            match linked_pose(links[i], bone_poses) {
                Some(p) => p,
                None => entity_poses[i],
            },
    )
}

/// The bone poses after the first `i` entities have written their pose into
/// their linked bone, in entity order.
pub open spec fn bones_written<P>(
    bone_poses: Seq<P>,
    links: Seq<Option<usize>>,
    entity_poses: Seq<P>,
    i: int,
) -> Seq<P>
    decreases i,
{
    if i <= 0 {
        bone_poses
    } else {
        let prev = bones_written(bone_poses, links, entity_poses, i - 1);
        match links[i - 1] {
            Some(b) => if b < prev.len() {
                prev.update(b as int, entity_poses[i - 1])
            } else {
                prev
            },
            None => prev,
        }
    }
}

/// Skeleton to entities: each entity with a resolving link takes its bone's
/// pose; the others keep theirs. Used before the user hook (animated pose)
/// and after the world transforms are recomputed (applied pose).
pub fn sync_entities<P: Copy>(
    entity_poses: &mut Vec<P>,
    links: &Vec<Option<usize>>,
    bone_poses: &Vec<P>,
)
    requires
        old(entity_poses)@.len() == links@.len(),
    ensures
        final(entity_poses)@ == entities_synced(old(entity_poses)@, links@, bone_poses@),
{
    let ghost before = entity_poses@;
    let mut i: usize = 0;
    while i < links.len()
        invariant
            i <= links@.len(),
            entity_poses@.len() == links@.len(),
            before.len() == links@.len(),
            forall|j: int| i <= j < links@.len() ==> #[trigger] entity_poses@[j] == before[j],
            forall|j: int|
                0 <= j < i ==> #[trigger] entity_poses@[j] == entities_synced(
                    before,
                    links@,
                    bone_poses@,
                )[j],
        decreases links@.len() - i,
    {
        match links[i] {
            Some(b) => {
                if b < bone_poses.len() {
                    entity_poses.set(i, bone_poses[b]);
                }
            },
            None => {},
        }
        i = i + 1;
    }
    assert(entity_poses@ =~= entities_synced(before, links@, bone_poses@));
}

/// Entities to skeleton: each entity with a resolving link writes its pose
/// into its bone, in entity order (a later entity linked to the same bone
/// wins). The caller then recomputes the skeletons' world transforms.
pub fn sync_bones<P: Copy>(bone_poses: &mut Vec<P>, links: &Vec<Option<usize>>, entity_poses: &Vec<P>)
    requires
        entity_poses@.len() == links@.len(),
    ensures
        final(bone_poses)@ == bones_written(old(bone_poses)@, links@, entity_poses@, links@.len() as int),
{
    let ghost before = bone_poses@;
    let mut i: usize = 0;
    while i < links.len()
        invariant
            i <= links@.len(),
            entity_poses@.len() == links@.len(),
            bone_poses@ == bones_written(before, links@, entity_poses@, i as int),
        decreases links@.len() - i,
    {
        proof {
            lemma_written_len(before, links@, entity_poses@, i as int);
        }
        match links[i] {
            Some(b) => {
                if b < bone_poses.len() {
                    bone_poses.set(b, entity_poses[i]);
                }
            },
            None => {},
        }
        i = i + 1;
    }
}

proof fn lemma_written_len<P>(bone_poses: Seq<P>, links: Seq<Option<usize>>, entity_poses: Seq<P>, i: int)
    ensures
        bones_written(bone_poses, links, entity_poses, i).len() == bone_poses.len(),
    decreases i,
{
    if i > 0 {
        lemma_written_len(bone_poses, links, entity_poses, i - 1);
    }
}

proof fn lemma_write_back_prefix<P>(
    bone_poses: Seq<P>,
    links: Seq<Option<usize>>,
    entity_poses: Seq<P>,
    i: int,
)
    requires
        entity_poses.len() == links.len(),
        0 <= i <= links.len(),
        forall|j: int|
            0 <= j < links.len() ==> (#[trigger] linked_pose(links[j], bone_poses) matches Some(p)
                ==> entity_poses[j] == p),
    ensures
        bones_written(bone_poses, links, entity_poses, i) == bone_poses,
    decreases i,
{
    if i > 0 {
        lemma_write_back_prefix(bone_poses, links, entity_poses, i - 1);
        if let Some(b) = links[i - 1] {
            if b < bone_poses.len() {
                assert(linked_pose(links[i - 1], bone_poses) == Some(bone_poses[b as int]));
                assert(bone_poses.update(b as int, entity_poses[i - 1]) =~= bone_poses);
            }
        }
    }
}

/// With no change to the entities in between, writing the entities back into
/// the skeleton right after copying the skeleton into them leaves every bone
/// pose as it was: the barrier reproduces the pose it started from.
pub proof fn lemma_sync_round_trip<P>(
    entity_poses: Seq<P>,
    links: Seq<Option<usize>>,
    bone_poses: Seq<P>,
)
    requires
        entity_poses.len() == links.len(),
    ensures
        bones_written(
            bone_poses,
            links,
            entities_synced(entity_poses, links, bone_poses),
            links.len() as int,
        ) == bone_poses,
        entities_synced(
            entities_synced(entity_poses, links, bone_poses),
            links,
            bone_poses,
        ) == entities_synced(entity_poses, links, bone_poses),
{
    let synced = entities_synced(entity_poses, links, bone_poses);
    lemma_write_back_prefix(bone_poses, links, synced, links.len() as int);
    assert(entities_synced(synced, links, bone_poses) =~= synced);
}

} // verus!
