use bevy_spine::crossfades::Crossfades;
use bevy_spine::materials::{
    blend_state, builtin_material_kinds, default_material_applies, material_action,
    BlendComponent, BlendFactor, BlendMode, BlendOperation, MaterialAction, MaterialKind,
};
use bevy_spine::meshes::{SpineDrawer, SpineMeshType, SpineSettings};
use bevy_spine::sync::{sync_bones, sync_entities};
use bevy_spine::textures::{
    convert_filter, convert_wrap, find_matching_atlas, premultiply_pixels, sampler_for, AtlasFilter,
    AtlasWrap, ImageAddressMode, ImageFilterMode, PremultiplyTable, SpineTextureConfig,
    SpineTextures, TextureAdjustQueue,
};

fn add(src: BlendFactor, dst: BlendFactor) -> BlendComponent {
    BlendComponent { src_factor: src, dst_factor: dst, operation: BlendOperation::Add }
}

fn config(pma: bool) -> SpineTextureConfig {
    SpineTextureConfig {
        premultiplied_alpha: pma,
        min_filter: AtlasFilter::Linear,
        mag_filter: AtlasFilter::Nearest,
        u_wrap: AtlasWrap::Repeat,
        v_wrap: AtlasWrap::ClampToEdge,
    }
}

#[test]
fn blend_states_follow_the_table() {
    let k = |m, p| MaterialKind { blend_mode: m, premultiplied_alpha: p };
    let s = blend_state(k(BlendMode::Normal, false));
    assert_eq!(s.color, add(BlendFactor::SrcAlpha, BlendFactor::OneMinusSrcAlpha));
    assert_eq!(s.alpha, add(BlendFactor::One, BlendFactor::OneMinusSrcAlpha));
    let s = blend_state(k(BlendMode::Additive, false));
    assert_eq!(s.color, add(BlendFactor::SrcAlpha, BlendFactor::One));
    assert_eq!(s.alpha, add(BlendFactor::One, BlendFactor::One));
    let s = blend_state(k(BlendMode::Multiply, true));
    assert_eq!(s.color, add(BlendFactor::Dst, BlendFactor::OneMinusSrcAlpha));
    assert_eq!(s.alpha, add(BlendFactor::OneMinusSrcAlpha, BlendFactor::OneMinusSrcAlpha));
    let s = blend_state(k(BlendMode::Screen, false));
    assert_eq!(s.color, add(BlendFactor::One, BlendFactor::OneMinusSrcAlpha));
    assert_eq!(s.alpha, add(BlendFactor::OneMinusSrc, BlendFactor::OneMinusSrcAlpha));
    let s = blend_state(k(BlendMode::Normal, true));
    assert_eq!(s.color, add(BlendFactor::One, BlendFactor::OneMinusSrcAlpha));
    let s = blend_state(k(BlendMode::Additive, true));
    assert_eq!(s.color, add(BlendFactor::One, BlendFactor::One));
}

#[test]
fn eight_distinct_builtin_materials() {
    let kinds = builtin_material_kinds();
    assert_eq!(kinds.len(), 8);
    for (i, a) in kinds.iter().enumerate() {
        for b in kinds.iter().skip(i + 1) {
            assert_ne!(a, b);
        }
    }
}

#[test]
fn builtin_material_matches_blend_and_pma() {
    let kind = MaterialKind { blend_mode: BlendMode::Screen, premultiplied_alpha: true };
    assert!(default_material_applies(None, BlendMode::Screen, true, kind));
    assert!(!default_material_applies(None, BlendMode::Screen, false, kind));
    assert!(!default_material_applies(None, BlendMode::Normal, true, kind));
    let off = SpineSettings { default_materials: false, mesh_type: SpineMeshType::Mesh2D, drawer: SpineDrawer::Combined };
    assert!(!default_material_applies(Some(off), BlendMode::Screen, true, kind));
}

#[test]
fn material_binder_decisions() {
    assert_eq!(material_action(true, true), MaterialAction::Update);
    assert_eq!(material_action(true, false), MaterialAction::Remove);
    assert_eq!(material_action(false, true), MaterialAction::Create);
    assert_eq!(material_action(false, false), MaterialAction::Keep);
}

#[test]
fn sampler_translation_with_fallbacks() {
    assert_eq!(convert_filter(AtlasFilter::Linear), Some(ImageFilterMode::Linear));
    assert_eq!(convert_filter(AtlasFilter::MipmapLinearLinear), None);
    assert_eq!(convert_wrap(AtlasWrap::MirroredRepeat), Some(ImageAddressMode::MirrorRepeat));
    assert_eq!(convert_wrap(AtlasWrap::Unknown), None);
    let mut c = config(false);
    c.min_filter = AtlasFilter::Mipmap;
    c.v_wrap = AtlasWrap::Unknown;
    let s = sampler_for(c);
    assert_eq!(s.min_filter, ImageFilterMode::Nearest);
    assert_eq!(s.mag_filter, ImageFilterMode::Nearest);
    assert_eq!(s.address_mode_u, ImageAddressMode::Repeat);
    assert_eq!(s.address_mode_v, ImageAddressMode::ClampToEdge);
}

#[test]
fn first_matching_atlas_is_found() {
    let atlases = vec![(10usize, 'a'), (20, 'b'), (20, 'c')];
    assert_eq!(find_matching_atlas(&atlases, 20), Some('b'));
    assert_eq!(find_matching_atlas(&atlases, 30), None);
}

#[test]
fn texture_lifecycle_create_then_dispose() {
    let mut t: SpineTextures<u32> = SpineTextures::init();
    t.on_create("spineboy.png".to_owned(), 100, config(true));
    t.on_create("orphan.png".to_owned(), 999, config(false));
    assert_eq!(t.pending_create_paths(), vec!["spineboy.png".to_owned(), "orphan.png".to_owned()]);
    let atlases = vec![(100usize, 'x')];
    let (creates, disposes) = t.update(vec![1, 2], &atlases);
    assert_eq!(creates.len(), 1);
    assert_eq!(creates[0].path, "spineboy.png");
    assert_eq!(creates[0].handle, 1);
    assert_eq!(creates[0].atlas, 'x');
    assert!(creates[0].config.premultiplied_alpha);
    assert!(disposes.is_empty());
    assert_eq!(t.handles, vec![("spineboy.png".to_owned(), 1)]);

    // the atlas is released: the runtime disposes its texture
    t.on_dispose("spineboy.png".to_owned());
    t.on_dispose("never-created.png".to_owned());
    let (creates, disposes) = t.update::<char>(vec![], &vec![]);
    assert!(creates.is_empty());
    assert_eq!(disposes.len(), 1);
    assert_eq!(disposes[0].path, "spineboy.png");
    assert_eq!(disposes[0].handle, 1);
    assert!(t.handles.is_empty());
}

#[test]
fn adjust_queue_hands_out_each_texture_once() {
    let mut q: TextureAdjustQueue<u32> = TextureAdjustQueue::new();
    q.push(1, config(true));
    q.push(2, config(false));
    q.push(3, config(true));
    let ready = q.take_available(&vec![true, false, true]);
    assert_eq!(ready.iter().map(|e| e.0).collect::<Vec<_>>(), vec![1, 3]);
    assert_eq!(q.handles.iter().map(|e| e.0).collect::<Vec<_>>(), vec![2]);
    let ready = q.take_available(&vec![true]);
    assert_eq!(ready.iter().map(|e| e.0).collect::<Vec<_>>(), vec![2]);
    assert!(q.handles.is_empty());
}

fn table() -> PremultiplyTable {
    // a stand-in conversion: channel c of a pixel with alpha a becomes c * a / 255
    let mut channel = vec![0u8; 65536];
    for a in 0..256usize {
        for c in 0..256usize {
            channel[a * 256 + c] = (c * a / 255) as u8;
        }
    }
    let alpha = (0..256usize).map(|a| a as u8).collect();
    PremultiplyTable { channel, alpha }
}

#[test]
fn premultiply_converts_pixels_and_blacks_out_transparent_ones() {
    let t = table();
    let src = vec![200u8, 100, 50, 0, 255, 128, 0, 128, 10, 20, 30, 255, 7, 8];
    let mut data = src.clone();
    premultiply_pixels(&mut data, &t);
    assert_eq!(data, vec![0, 0, 0, 0, 128, 64, 0, 128, 10, 20, 30, 255, 7, 8]);
    // recomputing from the same source bytes gives the same pixels
    let mut again = src.clone();
    premultiply_pixels(&mut again, &t);
    assert_eq!(again, data);
}

#[test]
fn bone_sync_round_trip_keeps_the_pose() {
    let bones = vec![(1, 2), (3, 4), (5, 6)];
    let links = vec![Some(2), None, Some(0), Some(7)];
    let mut entities = vec![(0, 0); 4];
    sync_entities(&mut entities, &links, &bones);
    assert_eq!(entities, vec![(5, 6), (0, 0), (1, 2), (0, 0)]);
    let mut written = bones.clone();
    sync_bones(&mut written, &links, &entities);
    assert_eq!(written, bones);
}

#[test]
fn bone_sync_writes_user_overrides() {
    let mut bones = vec![(0, 0), (0, 0)];
    let links = vec![Some(1), Some(0)];
    let entities = vec![(9, 9), (4, 2)];
    sync_bones(&mut bones, &links, &entities);
    assert_eq!(bones, vec![(4, 2), (9, 9)]);
}

#[test]
fn crossfades_keep_one_duration_per_pair() {
    let mut c: Crossfades<f32> = Crossfades::new();
    c.add("idle", "walk", 0.5);
    c.add("walk", "idle", 0.5);
    c.add("idle", "walk", 0.2);
    let entries = c.mix_durations();
    assert_eq!(entries.len(), 2);
    assert!(entries.contains(&(("idle".to_owned(), "walk".to_owned()), 0.2)));
    assert!(entries.contains(&(("walk".to_owned(), "idle".to_owned()), 0.5)));
    let d: Crossfades<f32> = Crossfades::default();
    assert!(d.mix_durations().is_empty());
}
