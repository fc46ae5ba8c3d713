use std::sync::Arc;

use bevy_spine::assets::{SkeletonData, SkeletonDataStatus};
use bevy_spine::loader::load_skeleton_data;
use bevy_spine::spawn::{plan_skeleton_spawn, skeleton_bone_parents, BoneSpawn};

const ATLAS: &str = "\npage.png\nsize: 64, 64\nfilter: Linear, Linear\npma: true\nregion\nbounds: 0, 0, 16, 16\n";

const SKELETON: &str = r#"{
  "skeleton": { "hash": "test", "spine": "4.2.00", "x": 0, "y": 0, "width": 10, "height": 10 },
  "bones": [
    { "name": "root" },
    { "name": "arm", "parent": "root", "length": 10 },
    { "name": "leg", "parent": "root", "length": 10 },
    { "name": "hand", "parent": "arm" }
  ],
  "slots": [
    { "name": "body", "bone": "root" },
    { "name": "glove", "bone": "hand" },
    { "name": "boot", "bone": "leg" }
  ],
  "animations": { "idle": {} }
}"#;

type Data = SkeletonData<u8, u8, u8, Arc<rusty_spine::SkeletonData>>;
type Parsed = Option<Result<rusty_spine::SkeletonData, rusty_spine::SpineError>>;

fn read_json(atlas: &Arc<rusty_spine::Atlas>, json: &[u8]) -> Parsed {
    Some(rusty_spine::SkeletonJson::new(atlas.clone()).read_skeleton_data(json))
}

fn atlas() -> Arc<rusty_spine::Atlas> {
    Arc::new(rusty_spine::Atlas::new(ATLAS.as_bytes(), "").unwrap())
}

#[test]
fn runtime_parse_loads_the_asset() {
    let atlas = atlas();
    let mut data: Data = SkeletonData::new_from_json(1, 2);
    // bytes not there yet: the flag is taken, the asset keeps loading
    assert!(!data.needs_parse(true, false));
    load_skeleton_data(&mut data, Some(&atlas), None as Parsed);
    assert!(data.is_loading());
    assert!(data.premultiplied_alpha);
    assert!(data.needs_parse(true, true));
    load_skeleton_data(&mut data, Some(&atlas), read_json(&atlas, SKELETON.as_bytes()));
    assert!(data.is_loaded());
    assert!(!data.needs_parse(true, true));
}

#[test]
fn runtime_parse_failure_fails_the_asset() {
    let atlas = atlas();
    let mut data: Data = SkeletonData::new_from_json(1, 2);
    let garbage = br#"{ "bones": [ { "name": "arm", "parent": "missing" } ] }"#;
    load_skeleton_data(&mut data, Some(&atlas), read_json(&atlas, garbage));
    assert!(matches!(data.status, SkeletonDataStatus::Failed));
}

#[test]
fn runtime_missing_atlas_waits() {
    let mut data: Data = SkeletonData::new_from_json(1, 2);
    let parsed = read_json(&atlas(), SKELETON.as_bytes());
    load_skeleton_data(&mut data, None, parsed);
    assert!(data.is_loading());
    assert!(!data.premultiplied_alpha);
}

#[test]
fn runtime_skeleton_spawn_plan() {
    let atlas = atlas();
    let mut data: Data = SkeletonData::new_from_json(1, 2);
    load_skeleton_data(&mut data, Some(&atlas), read_json(&atlas, SKELETON.as_bytes()));
    let skeleton = rusty_spine::Skeleton::new(data.skeleton_data().unwrap());
    assert_eq!(skeleton_bone_parents(&skeleton), vec![None, Some(0), Some(0), Some(1)]);
    let plan = plan_skeleton_spawn(&skeleton, true);
    assert_eq!(plan.mesh_layers, vec![0, 1, 2]);
    assert_eq!(
        plan.bones,
        vec![
            BoneSpawn { bone: 0, parent: None },
            BoneSpawn { bone: 1, parent: Some(0) },
            BoneSpawn { bone: 2, parent: Some(0) },
            BoneSpawn { bone: 3, parent: Some(1) },
        ]
    );
    let plan = plan_skeleton_spawn(&skeleton, false);
    assert_eq!(plan.mesh_layers.len(), 3);
    assert!(plan.bones.is_empty());
}
