use bevy_spine::materials::BlendMode;
use bevy_spine::meshes::{
    mesh_markers, plan_mesh_updates, MarkerAction, MeshBuffers, MeshUpdate,
    SkeletonCombinedRenderable, SkeletonRenderable, SkeletonRenderableKind, SpineDrawer,
    SpineMeshState, SpineMeshType, SpineSettings,
};

fn simple(slot: usize, texture: Option<&str>, n: usize, indices: Vec<u16>) -> SkeletonRenderable<f32> {
    SkeletonRenderable {
        slot_index: slot,
        texture: texture.map(|t| t.to_owned()),
        vertices: (0..n).map(|i| [i as f32, 1.0]).collect(),
        uvs: (0..n).map(|i| [0.5, i as f32]).collect(),
        indices,
        color: [1.0, 0.5, 0.25, 1.0],
        dark_color: [0.0, 0.0, 0.0, 1.0],
        blend_mode: BlendMode::Additive,
        premultiplied_alpha: true,
    }
}

fn combined(texture: Option<&str>, n: usize, indices: Vec<u16>) -> SkeletonCombinedRenderable<f32> {
    SkeletonCombinedRenderable {
        texture: texture.map(|t| t.to_owned()),
        vertices: (0..n).map(|i| [i as f32, 2.0]).collect(),
        uvs: (0..n).map(|i| [0.0, i as f32]).collect(),
        indices,
        colors: (0..n).map(|i| [i as f32, 1.0, 1.0, 1.0]).collect(),
        dark_colors: (0..n).map(|_| [0.0, 0.0, 0.0, 0.0]).collect(),
        blend_mode: BlendMode::Normal,
        premultiplied_alpha: false,
    }
}

fn well_formed(b: &MeshBuffers<f32>) -> bool {
    let n = b.positions.len();
    b.normals.len() == n
        && b.uvs.len() == n
        && b.colors.len() == n
        && b.dark_colors.len() == n
        && b.indices.as_ref().map_or(true, |ix| ix.iter().all(|&i| (i as usize) < n))
}

fn is_rendered(u: &Option<MeshUpdate<f32>>) -> bool {
    matches!(u, Some(MeshUpdate { state: SpineMeshState::Renderable { .. }, .. }))
}

#[test]
fn separated_broadcasts_colors_and_zeroes_normals() {
    let kind = SkeletonRenderableKind::Simple(vec![simple(3, Some("page.png"), 3, vec![0, 1, 2])]);
    let r = plan_mesh_updates(SpineDrawer::Separated, &kind, &vec![true], 0.0);
    assert_eq!(r.len(), 1);
    let u = r[0].as_ref().unwrap();
    assert_eq!(u.z_layer, Some(0));
    assert_eq!(u.buffers.indices, Some(vec![0, 1, 2]));
    assert_eq!(u.buffers.positions, vec![[0.0, 1.0], [1.0, 1.0], [2.0, 1.0]]);
    assert_eq!(u.buffers.normals, vec![[0.0, 0.0, 0.0]; 3]);
    assert_eq!(u.buffers.colors, vec![[1.0, 0.5, 0.25, 1.0]; 3]);
    assert_eq!(u.buffers.dark_colors, vec![[0.0, 0.0, 0.0, 1.0]; 3]);
    match &u.state {
        SpineMeshState::Renderable { info } => {
            assert_eq!(info.slot_index, Some(3));
            assert_eq!(info.texture, "page.png");
            assert_eq!(info.blend_mode, BlendMode::Additive);
            assert!(info.premultiplied_alpha);
        }
        SpineMeshState::Empty => panic!("expected a renderable mesh"),
    }
}

#[test]
fn combined_copies_streams_without_slot_index() {
    let kind = SkeletonRenderableKind::Combined(vec![combined(Some("a.png"), 4, vec![0, 1, 2, 2, 3, 0])]);
    let r = plan_mesh_updates(SpineDrawer::Combined, &kind, &vec![true, true], 0.0);
    assert_eq!(r.len(), 2);
    let u = r[0].as_ref().unwrap();
    assert_eq!(u.buffers.colors, vec![[0.0, 1.0, 1.0, 1.0], [1.0, 1.0, 1.0, 1.0], [2.0, 1.0, 1.0, 1.0], [3.0, 1.0, 1.0, 1.0]]);
    match &u.state {
        SpineMeshState::Renderable { info } => assert_eq!(info.slot_index, None),
        SpineMeshState::Empty => panic!("expected a renderable mesh"),
    }
    // past the last renderable: emptied, no index buffer
    let e = r[1].as_ref().unwrap();
    assert!(matches!(e.state, SpineMeshState::Empty));
    assert_eq!(e.buffers.indices, None);
    assert!(e.buffers.positions.is_empty());
    assert_eq!(e.z_layer, None);
}

#[test]
fn missing_texture_or_bad_index_empties_the_mesh() {
    let kind = SkeletonRenderableKind::Simple(vec![
        simple(0, None, 3, vec![0, 1, 2]),
        simple(1, Some("p.png"), 3, vec![0, 1, 3]),
        simple(2, Some("p.png"), 3, vec![2, 1, 0]),
    ]);
    let r = plan_mesh_updates(SpineDrawer::Separated, &kind, &vec![true, true, true], 0.0);
    assert!(!is_rendered(&r[0]));
    assert!(!is_rendered(&r[1]));
    assert!(is_rendered(&r[2]));
    assert_eq!(r[2].as_ref().unwrap().z_layer, Some(0));
}

#[test]
fn unavailable_meshes_are_untouched_and_consume_nothing() {
    let kind = SkeletonRenderableKind::Simple(vec![
        simple(0, Some("p.png"), 3, vec![0, 1, 2]),
        simple(1, Some("p.png"), 3, vec![0, 1, 2]),
    ]);
    let r = plan_mesh_updates(SpineDrawer::Separated, &kind, &vec![false, true, true], 0.0);
    assert!(r[0].is_none());
    match &r[1].as_ref().unwrap().state {
        SpineMeshState::Renderable { info } => assert_eq!(info.slot_index, Some(0)),
        SpineMeshState::Empty => panic!("expected a renderable mesh"),
    }
    match &r[2].as_ref().unwrap().state {
        SpineMeshState::Renderable { info } => assert_eq!(info.slot_index, Some(1)),
        SpineMeshState::Empty => panic!("expected a renderable mesh"),
    }
}

#[test]
fn disabled_drawer_touches_nothing() {
    let kind = SkeletonRenderableKind::Simple(vec![simple(0, Some("p.png"), 3, vec![0, 1, 2])]);
    for _frame in 0..3 {
        let r = plan_mesh_updates(SpineDrawer::Disabled, &kind, &vec![true, true], 0.0);
        assert_eq!(r.len(), 2);
        assert!(r.iter().all(|u| u.is_none()));
    }
}

#[test]
fn rendered_meshes_get_increasing_depth_layers() {
    let kind = SkeletonRenderableKind::Simple(vec![
        simple(0, Some("p.png"), 3, vec![0, 1, 2]),
        simple(1, None, 3, vec![0, 1, 2]),
        simple(2, Some("p.png"), 3, vec![0, 1, 2]),
        simple(3, Some("p.png"), 3, vec![0, 1, 2]),
    ]);
    let r = plan_mesh_updates(SpineDrawer::Separated, &kind, &vec![true; 4], 0.0);
    let layers: Vec<usize> = r.iter().filter_map(|u| u.as_ref().and_then(|u| u.z_layer)).collect();
    assert_eq!(layers, vec![0, 1, 2]);
    let depths: Vec<f32> = layers.iter().map(|&l| 0.001 * l as f32).collect();
    assert!(depths.windows(2).all(|w| w[0] < w[1]));
}

#[test]
fn every_written_mesh_is_well_formed() {
    let kind = SkeletonRenderableKind::Combined(vec![
        combined(Some("a.png"), 3, vec![0, 1, 2]),
        combined(Some("a.png"), 0, vec![]),
        combined(None, 2, vec![0, 1]),
    ]);
    let r = plan_mesh_updates(SpineDrawer::Combined, &kind, &vec![true; 5], 0.0);
    for u in r.iter().flatten() {
        assert!(well_formed(&u.buffers));
    }
}

#[test]
fn zero_slot_skeleton_renders_nothing() {
    let kind = SkeletonRenderableKind::Simple(vec![simple(0, Some("p.png"), 3, vec![0, 1, 2])]);
    let r = plan_mesh_updates(SpineDrawer::Separated, &kind, &vec![], 0.0);
    assert!(r.is_empty());
}

#[test]
fn empty_buffers_are_empty() {
    let b: MeshBuffers<f32> = MeshBuffers::empty();
    assert_eq!(b.indices, None);
    assert!(b.positions.is_empty() && b.normals.is_empty() && b.uvs.is_empty());
    assert!(b.colors.is_empty() && b.dark_colors.is_empty());
}

#[test]
fn mesh_markers_follow_mesh_type() {
    assert_eq!(mesh_markers(SpineMeshType::Mesh2D, false, true), (MarkerAction::Attach, MarkerAction::Detach));
    assert_eq!(mesh_markers(SpineMeshType::Mesh3D, true, false), (MarkerAction::Detach, MarkerAction::Attach));
    assert_eq!(mesh_markers(SpineMeshType::Mesh2D, true, false), (MarkerAction::Keep, MarkerAction::Keep));
}

#[test]
fn default_settings() {
    let s = SpineSettings::default();
    assert!(s.default_materials);
    assert_eq!(s.mesh_type, SpineMeshType::Mesh2D);
    assert_eq!(s.drawer, SpineDrawer::Combined);
}
