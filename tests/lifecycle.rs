use bevy_spine::assets::{SkeletonData, SkeletonDataKind, SkeletonDataStatus};
use bevy_spine::events::{SpineEventQueue, SpineReadyEvent, SpineReadyEvents};
use bevy_spine::spawn::{plan_spawn, spawn_step, BoneSpawn, SpawnDecision, SpineLoader};
use bevy_spine::Target;

#[test]
fn target_flags() {
    assert!(Target::Default.flags().is_empty());
    assert_eq!(Target::Wasm.flags(), vec!["--target".to_owned(), "wasm32-unknown-unknown".to_owned()]);
}

#[test]
fn loader_constructors() {
    assert_eq!(SpineLoader::new(), SpineLoader::Loading { with_children: true });
    assert_eq!(SpineLoader::default(), SpineLoader::Loading { with_children: true });
    assert_eq!(SpineLoader::with_children(), SpineLoader::Loading { with_children: true });
    assert_eq!(SpineLoader::without_children(), SpineLoader::Loading { with_children: false });
}

#[test]
fn loaded_data_spawns_on_the_same_frame() {
    let mut loader = SpineLoader::without_children();
    let status: SkeletonDataStatus<u32> = SkeletonDataStatus::Loaded(7);
    assert_eq!(spawn_step(&mut loader, Some(&status)), SpawnDecision::Spawn { with_children: false });
    assert_eq!(loader, SpineLoader::Ready);
    // a ready loader is never spawned twice
    assert_eq!(spawn_step(&mut loader, Some(&status)), SpawnDecision::Wait);
    assert_eq!(loader, SpineLoader::Ready);
}

#[test]
fn loading_or_missing_data_waits_and_failed_data_fails() {
    let mut loader = SpineLoader::new();
    let loading: SkeletonDataStatus<u32> = SkeletonDataStatus::Loading;
    assert_eq!(spawn_step(&mut loader, Some(&loading)), SpawnDecision::Wait);
    assert_eq!(spawn_step::<u32>(&mut loader, None), SpawnDecision::Wait);
    assert_eq!(loader, SpineLoader::new());
    let failed: SkeletonDataStatus<u32> = SkeletonDataStatus::Failed;
    assert_eq!(spawn_step(&mut loader, Some(&failed)), SpawnDecision::Fail);
    assert_eq!(loader, SpineLoader::Failed);
}

#[test]
fn spawn_plan_mirrors_bone_tree() {
    // root, two children of the root, a grandchild under bone 2
    let parents = vec![None, Some(0), Some(0), Some(2)];
    let plan = plan_spawn(3, true, &parents);
    assert_eq!(plan.mesh_layers, vec![0, 1, 2]);
    assert_eq!(
        plan.bones,
        vec![
            BoneSpawn { bone: 0, parent: None },
            BoneSpawn { bone: 1, parent: Some(0) },
            BoneSpawn { bone: 2, parent: Some(0) },
            BoneSpawn { bone: 3, parent: Some(2) },
        ]
    );
}

#[test]
fn root_only_skeleton_gets_one_bone_entity() {
    let plan = plan_spawn(0, true, &vec![None]);
    assert!(plan.mesh_layers.is_empty());
    assert_eq!(plan.bones, vec![BoneSpawn { bone: 0, parent: None }]);
}

#[test]
fn without_children_plans_no_bones() {
    let plan = plan_spawn(2, false, &vec![None, Some(0)]);
    assert_eq!(plan.mesh_layers.len(), 2);
    assert!(plan.bones.is_empty());
}

#[test]
fn bones_detached_from_the_root_are_skipped() {
    // bone 2 names a later parent, bone 3 hangs from it
    let parents = vec![None, Some(0), Some(3), Some(2)];
    let plan = plan_spawn(0, true, &parents);
    assert_eq!(plan.bones, vec![BoneSpawn { bone: 0, parent: None }, BoneSpawn { bone: 1, parent: Some(0) }]);
}

#[test]
fn skeleton_data_constructors() {
    let d: SkeletonData<u8, u16, u32, ()> = SkeletonData::new_from_json(5, 1);
    assert_eq!(d.atlas_handle, 1);
    assert!(matches!(d.kind, SkeletonDataKind::JsonFile(5)));
    assert!(d.is_loading() && !d.is_loaded());
    assert!(!d.premultiplied_alpha);
    let b: SkeletonData<u8, u16, u32, ()> = SkeletonData::new_from_binary(6, 2);
    assert!(matches!(b.kind, SkeletonDataKind::BinaryFile(6)));
}

#[test]
fn advance_waits_for_dependencies() {
    let mut d: SkeletonData<u8, u16, u32, &str> = SkeletonData::new_from_json(5, 1);
    d.advance::<()>(None, Some(Ok("data")));
    assert!(d.is_loading());
    assert!(!d.premultiplied_alpha);
    // atlas present with a premultiplied first page, bytes still missing
    d.advance::<()>(Some(Some(true)), None);
    assert!(d.is_loading());
    assert!(d.premultiplied_alpha);
    d.advance::<()>(Some(Some(true)), Some(Ok("data")));
    assert!(d.is_loaded());
    assert_eq!(d.skeleton_data(), Some("data"));
}

#[test]
fn parse_failure_is_terminal() {
    let mut d: SkeletonData<u8, u16, u32, &str> = SkeletonData::new_from_binary(5, 1);
    d.advance(Some(None), Some(Err("bad bytes")));
    assert!(matches!(d.status, SkeletonDataStatus::Failed));
    assert_eq!(d.skeleton_data(), None);
    d.advance::<()>(Some(Some(true)), Some(Ok("data")));
    assert!(matches!(d.status, SkeletonDataStatus::Failed));
    assert!(!d.premultiplied_alpha);
}

#[test]
fn animation_events_drain_in_fifo_order() {
    let mut q: SpineEventQueue<&str> = SpineEventQueue::new();
    q.push("start walk");
    q.push("footstep");
    q.push("footstep");
    q.push("complete walk");
    assert_eq!(q.drain(), vec!["start walk", "footstep", "footstep", "complete walk"]);
    assert!(q.drain().is_empty());
    q.push("end walk");
    assert_eq!(q.drain(), vec!["end walk"]);
}

#[test]
fn ready_events_are_handed_out_once() {
    let mut r: SpineReadyEvents<u64> = SpineReadyEvents::new();
    r.push(SpineReadyEvent { entity: 4, bones: vec![("root".to_owned(), 5)] });
    r.push(SpineReadyEvent { entity: 9, bones: vec![] });
    let out = r.take();
    assert_eq!(out.len(), 2);
    assert_eq!(out[0].entity, 4);
    assert_eq!(out[0].bones, vec![("root".to_owned(), 5)]);
    assert_eq!(out[1].entity, 9);
    assert!(r.take().is_empty());
}
