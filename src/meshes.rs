//! The mesh builder: turns the renderables that a skeleton controller yields
//! each frame into the attribute streams of the skeleton's mesh entities.

use vstd::prelude::*;

use crate::materials::{BlendMode, SpineMaterialInfo};

verus! {

/// How the meshes of a skeleton are produced.
#[derive(Clone, Copy, Debug, PartialEq, Eq, Structural)]
pub enum SpineDrawer {
    /// One mesh per visible slot.
    Separated,
    /// Consecutive slots that share material state are batched into one mesh.
    Combined,
    /// Meshes are left alone; the user produces them.
    Disabled,
}

/// Whether the meshes are shown with the 2D or the 3D mesh marker.
#[derive(Clone, Copy, Debug, PartialEq, Eq, Structural)]
pub enum SpineMeshType {
    Mesh2D,
    Mesh3D,
}

/// How a skeleton updates and renders.
#[derive(Clone, Copy, Debug, PartialEq, Eq, Structural)]
pub struct SpineSettings {
    /// Attach the built-in material matching each mesh.
    pub default_materials: bool,
    pub mesh_type: SpineMeshType,
    pub drawer: SpineDrawer,
}

impl Default for SpineSettings {
    fn default() -> (r: SpineSettings)
        ensures
            r == (SpineSettings {
                default_materials: true,
                mesh_type: SpineMeshType::Mesh2D,
                drawer: SpineDrawer::Combined,
            }),
    {
        SpineSettings {
            default_materials: true,
            mesh_type: SpineMeshType::Mesh2D,
            drawer: SpineDrawer::Combined,
        }
    }
}

/// What happens to a mesh-kind marker of a mesh entity.
#[derive(Clone, Copy, Debug, PartialEq, Eq, Structural)]
pub enum MarkerAction {
    Keep,
    Attach,
    Detach,
}

pub open spec fn marker_action_of(wanted: bool, present: bool) -> MarkerAction {
    if wanted && !present {
        MarkerAction::Attach
    } else if !wanted && present {
        MarkerAction::Detach
    } else {
        MarkerAction::Keep
    }
}

fn marker_action(wanted: bool, present: bool) -> (r: MarkerAction)
    ensures
        r == marker_action_of(wanted, present),
{
    if wanted && !present {
        MarkerAction::Attach
    } else if !wanted && present {
        MarkerAction::Detach
    } else {
        MarkerAction::Keep
    }
}

/// The changes to the 2D and the 3D mesh markers of a mesh entity so that it
/// carries exactly the marker of the skeleton's mesh type.
pub fn mesh_markers(mesh_type: SpineMeshType, has_2d: bool, has_3d: bool) -> (r: (
    MarkerAction,
    MarkerAction,
))
    ensures
        r.0 == marker_action_of(mesh_type == SpineMeshType::Mesh2D, has_2d),
        r.1 == marker_action_of(mesh_type == SpineMeshType::Mesh3D, has_3d),
{
    (
        marker_action(mesh_type == SpineMeshType::Mesh2D, has_2d),
        marker_action(mesh_type == SpineMeshType::Mesh3D, has_3d),
    )
}

/// Geometry of one visible slot, as the controller yields it in separated mode.
///
/// `S` is the scalar type of the vertex data.
pub struct SkeletonRenderable<S> {
    pub slot_index: usize,
    /// Path of the texture page behind the slot's attachment, if it has one.
    pub texture: Option<String>,
    pub vertices: Vec<[S; 2]>,
    pub uvs: Vec<[S; 2]>,
    pub indices: Vec<u16>,
    pub color: [S; 4],
    pub dark_color: [S; 4],
    pub blend_mode: BlendMode,
    pub premultiplied_alpha: bool,
}

/// Geometry of a batch of consecutive slots, as the controller yields it in
/// combined mode.
pub struct SkeletonCombinedRenderable<S> {
    /// Path of the texture page shared by the batch, if it has one.
    pub texture: Option<String>,
    pub vertices: Vec<[S; 2]>,
    pub uvs: Vec<[S; 2]>,
    pub indices: Vec<u16>,
    pub colors: Vec<[S; 4]>,
    pub dark_colors: Vec<[S; 4]>,
    pub blend_mode: BlendMode,
    pub premultiplied_alpha: bool,
}

/// The renderables of one frame, in draw order.
pub enum SkeletonRenderableKind<S> {
    Simple(Vec<SkeletonRenderable<S>>),
    Combined(Vec<SkeletonCombinedRenderable<S>>),
}

/// The six attribute streams of one mesh.
pub struct MeshBuffers<S> {
    /// The index buffer; `None` when the mesh has none at all.
    pub indices: Option<Vec<u16>>,
    pub positions: Vec<[S; 2]>,
    pub normals: Vec<[S; 3]>,
    pub uvs: Vec<[S; 2]>,
    pub colors: Vec<[S; 4]>,
    pub dark_colors: Vec<[S; 4]>,
}

/// The state of a mesh entity.
pub enum SpineMeshState {
    /// No geometry: the mesh does not render.
    Empty,
    /// The mesh holds geometry and renders with this metadata.
    Renderable { info: SpineMaterialInfo },
}

/// What the builder writes into one mesh entity this frame.
pub struct MeshUpdate<S> {
    pub state: SpineMeshState,
    pub buffers: MeshBuffers<S>,
    /// Position among this frame's rendered meshes; the entity's depth is a
    /// fixed step times this value. `None` for an empty mesh.
    pub z_layer: Option<usize>,
}

impl<S> MeshBuffers<S> {
    /// All streams describe the same vertices, and every index names one of them.
    pub open spec fn wf(&self) -> bool {
        let n = self.positions@.len();
        &&& self.normals@.len() == n
        &&& self.uvs@.len() == n
        &&& self.colors@.len() == n
        &&& self.dark_colors@.len() == n
        &&& self.indices matches Some(ix) ==> indices_below(ix@, n as int)
    }

    /// Holds no vertex and no index buffer.
    pub open spec fn is_empty_mesh(&self) -> bool {
        &&& self.indices is None
        &&& self.positions@.len() == 0
        &&& self.normals@.len() == 0
        &&& self.uvs@.len() == 0
        &&& self.colors@.len() == 0
        &&& self.dark_colors@.len() == 0
    }

    /// The streams of a mesh that draws nothing.
    pub fn empty() -> (r: MeshBuffers<S>)
        ensures
            r.is_empty_mesh(),
            r.wf(),
    {
        MeshBuffers {
            indices: None,
            positions: Vec::new(),
            normals: Vec::new(),
            uvs: Vec::new(),
            colors: Vec::new(),
            dark_colors: Vec::new(),
        }
    }
}

/// Every index is below `n`.
pub open spec fn indices_below(ix: Seq<u16>, n: int) -> bool {
    forall|k: int| 0 <= k < ix.len() ==> (#[trigger] ix[k]) < n
}

/// Number of the first `i` mesh entities that can be written, that is, the
/// number of renderables consumed before entity `i`.
pub open spec fn consumed_before(avail: Seq<bool>, i: int) -> int
    decreases i,
{
    if i <= 0 {
        0
    } else {
        consumed_before(avail, i - 1) + if avail[i - 1] { 1int } else { 0int }
    }
}

/// Number of meshes among the first `i` updates that render.
pub open spec fn rendered_before<S>(updates: Seq<Option<MeshUpdate<S>>>, i: int) -> int
    decreases i,
{
    if i <= 0 {
        0
    } else {
        rendered_before(updates, i - 1) + if is_rendered(updates[i - 1]) { 1int } else { 0int }
    }
}

/// The update writes a renderable mesh.
pub open spec fn is_rendered<S>(u: Option<MeshUpdate<S>>) -> bool {
    u matches Some(m) && m.state is Renderable
}

/// The number of renderables of the frame.
pub open spec fn renderable_count<S>(kind: SkeletonRenderableKind<S>) -> int {
    match kind {
        SkeletonRenderableKind::Simple(v) => v@.len() as int,
        SkeletonRenderableKind::Combined(v) => v@.len() as int,
    }
}

/// A separated renderable can be drawn: it has a texture and coherent geometry.
pub open spec fn simple_drawable<S>(r: SkeletonRenderable<S>) -> bool {
    &&& r.texture is Some
    &&& r.uvs@.len() == r.vertices@.len()
    &&& indices_below(r.indices@, r.vertices@.len() as int)
}

/// A combined renderable can be drawn: it has a texture and coherent geometry.
pub open spec fn combined_drawable<S>(r: SkeletonCombinedRenderable<S>) -> bool {
    &&& r.texture is Some
    &&& r.uvs@.len() == r.vertices@.len()
    &&& r.colors@.len() == r.vertices@.len()
    &&& r.dark_colors@.len() == r.vertices@.len()
    &&& indices_below(r.indices@, r.vertices@.len() as int)
}

/// Renderable `k` exists and can be drawn.
pub open spec fn drawable_at<S>(kind: SkeletonRenderableKind<S>, k: int) -> bool {
    match kind {
        SkeletonRenderableKind::Simple(v) => 0 <= k < v@.len() && simple_drawable(v@[k]),
        SkeletonRenderableKind::Combined(v) => 0 <= k < v@.len() && combined_drawable(v@[k]),
    }
}

/// The mesh streams and metadata written for drawable separated renderable `r`.
pub open spec fn simple_written<S>(r: SkeletonRenderable<S>, zero: S, u: MeshUpdate<S>) -> bool {
    let n = r.vertices@.len();
    &&& u.buffers.indices matches Some(ix) && ix@ == r.indices@
    &&& u.buffers.positions@ == r.vertices@
    &&& u.buffers.normals@ == Seq::new(n, |_k: int| [zero, zero, zero])
    &&& u.buffers.uvs@ == r.uvs@
    &&& u.buffers.colors@ == Seq::new(n, |_k: int| r.color)
    &&& u.buffers.dark_colors@ == Seq::new(n, |_k: int| r.dark_color)
    &&& u.state matches SpineMeshState::Renderable { info } && {
        &&& info.slot_index == Some(r.slot_index)
        &&& r.texture matches Some(t) && info.texture@ == t@
        &&& info.blend_mode == r.blend_mode
        &&& info.premultiplied_alpha == r.premultiplied_alpha
    }
}

/// The mesh streams and metadata written for drawable combined renderable `r`.
pub open spec fn combined_written<S>(
    r: SkeletonCombinedRenderable<S>,
    zero: S,
    u: MeshUpdate<S>,
) -> bool {
    let n = r.vertices@.len();
    &&& u.buffers.indices matches Some(ix) && ix@ == r.indices@
    &&& u.buffers.positions@ == r.vertices@
    &&& u.buffers.normals@ == Seq::new(n, |_k: int| [zero, zero, zero])
    &&& u.buffers.uvs@ == r.uvs@
    &&& u.buffers.colors@ == r.colors@
    &&& u.buffers.dark_colors@ == r.dark_colors@
    &&& u.state matches SpineMeshState::Renderable { info } && {
        &&& info.slot_index is None
        &&& r.texture matches Some(t) && info.texture@ == t@
        &&& info.blend_mode == r.blend_mode
        &&& info.premultiplied_alpha == r.premultiplied_alpha
    }
}

/// What the builder writes for the mesh that receives renderable `k`, the
/// `layer`-th rendered mesh of the frame if it renders.
pub open spec fn update_for<S>(
    kind: SkeletonRenderableKind<S>,
    k: int,
    zero: S,
    layer: int,
    u: MeshUpdate<S>,
) -> bool {
    if drawable_at(kind, k) {
        &&& u.z_layer == Some(layer as usize)
        &&& match kind {
            SkeletonRenderableKind::Simple(v) => simple_written(v@[k], zero, u),
            SkeletonRenderableKind::Combined(v) => combined_written(v@[k], zero, u),
        }
    } else {
        &&& u.state is Empty
        &&& u.buffers.is_empty_mesh()
        &&& u.z_layer is None
    }
}

/// The complete outcome of one frame of the builder for one skeleton.
pub open spec fn planned<S>(
    drawer: SpineDrawer,
    kind: SkeletonRenderableKind<S>,
    avail: Seq<bool>,
    zero: S,
    r: Seq<Option<MeshUpdate<S>>>,
) -> bool {
    &&& r.len() == avail.len()
    &&& forall|i: int|
        0 <= i < r.len() ==> {
            if drawer is Disabled || !avail[i] {
                (#[trigger] r[i]) is None
            } else {
                r[i] matches Some(u) && update_for(
                    kind,
                    consumed_before(avail, i),
                    zero,
                    rendered_before(r, i),
                    u,
                )
            }
        }
}

/// Copies a stream.
fn copy_stream<T: Copy>(v: &Vec<T>) -> (r: Vec<T>)
    ensures
        r@ == v@,
{
    let mut r: Vec<T> = Vec::new();
    let mut i: usize = 0;
    while i < v.len()
        invariant
            i <= v@.len(),
            r@ == v@.subrange(0, i as int),
        decreases v@.len() - i,
    {
        r.push(v[i]);
        i = i + 1;
    }
    assert(r@ =~= v@);
    r
}

/// A stream of `n` copies of one value.
fn repeat_value<T: Copy>(x: T, n: usize) -> (r: Vec<T>)
    ensures
        r@ == Seq::new(n as nat, |_k: int| x),
{
    let mut r: Vec<T> = Vec::new();
    let mut i: usize = 0;
    while i < n
        invariant
            i <= n,
            r@ == Seq::new(i as nat, |_k: int| x),
        decreases n - i,
    {
        r.push(x);
        i = i + 1;
        assert(r@ =~= Seq::new(i as nat, |_k: int| x));
    }
    r
}

/// Whether every index is below `n`.
fn all_indices_below(ix: &Vec<u16>, n: usize) -> (r: bool)
    ensures
        r == indices_below(ix@, n as int),
{
    let mut i: usize = 0;
    while i < ix.len()
        invariant
            i <= ix@.len(),
            forall|k: int| 0 <= k < i ==> (#[trigger] ix@[k]) < n,
        decreases ix@.len() - i,
    {
        if ix[i] as usize >= n {
            return false;
        }
        i = i + 1;
    }
    true
}

/// The mesh written for separated renderable `r` (drawable or not).
fn write_simple<S: Copy>(r: &SkeletonRenderable<S>, zero: S, layer: usize) -> (u: MeshUpdate<S>)
    ensures
        simple_drawable(*r) ==> simple_written(*r, zero, u) && u.z_layer == Some(layer),
        !simple_drawable(*r) ==> u.state is Empty && u.buffers.is_empty_mesh()
            && u.z_layer is None,
        u.buffers.wf(),
{
    let n = r.vertices.len();
    match &r.texture {
        Some(t) => {
            if r.uvs.len() == n && all_indices_below(&r.indices, n) {
                let info = SpineMaterialInfo {
                    slot_index: Some(r.slot_index),
                    texture: t.clone(),
                    blend_mode: r.blend_mode,
                    premultiplied_alpha: r.premultiplied_alpha,
                };
                let buffers = MeshBuffers {
                    indices: Some(copy_stream(&r.indices)),
                    positions: copy_stream(&r.vertices),
                    normals: repeat_value([zero, zero, zero], n),
                    uvs: copy_stream(&r.uvs),
                    colors: repeat_value(r.color, n),
                    dark_colors: repeat_value(r.dark_color, n),
                };
                return MeshUpdate {
                    state: SpineMeshState::Renderable { info },
                    buffers,
                    z_layer: Some(layer),
                };
            }
        },
        None => {},
    }
    MeshUpdate { state: SpineMeshState::Empty, buffers: MeshBuffers::empty(), z_layer: None }
}

/// The mesh written for combined renderable `r` (drawable or not).
fn write_combined<S: Copy>(r: &SkeletonCombinedRenderable<S>, zero: S, layer: usize) -> (u:
    MeshUpdate<S>)
    ensures
        combined_drawable(*r) ==> combined_written(*r, zero, u) && u.z_layer == Some(layer),
        !combined_drawable(*r) ==> u.state is Empty && u.buffers.is_empty_mesh()
            && u.z_layer is None,
        u.buffers.wf(),
{
    let n = r.vertices.len();
    match &r.texture {
        Some(t) => {
            if r.uvs.len() == n && r.colors.len() == n && r.dark_colors.len() == n
                && all_indices_below(&r.indices, n) {
                let info = SpineMaterialInfo {
                    slot_index: None,
                    texture: t.clone(),
                    blend_mode: r.blend_mode,
                    premultiplied_alpha: r.premultiplied_alpha,
                };
                let buffers = MeshBuffers {
                    indices: Some(copy_stream(&r.indices)),
                    positions: copy_stream(&r.vertices),
                    normals: repeat_value([zero, zero, zero], n),
                    uvs: copy_stream(&r.uvs),
                    colors: copy_stream(&r.colors),
                    dark_colors: copy_stream(&r.dark_colors),
                };
                return MeshUpdate {
                    state: SpineMeshState::Renderable { info },
                    buffers,
                    z_layer: Some(layer),
                };
            }
        },
        None => {},
    }
    MeshUpdate { state: SpineMeshState::Empty, buffers: MeshBuffers::empty(), z_layer: None }
}

/// The mesh written for the `k`-th renderable, or an empty mesh past the end.
fn write_at<S: Copy>(kind: &SkeletonRenderableKind<S>, k: usize, zero: S, layer: usize) -> (u:
    MeshUpdate<S>)
    ensures
        update_for(*kind, k as int, zero, layer as int, u),
        u.buffers.wf(),
        u.state is Renderable <==> drawable_at(*kind, k as int),
{
    match kind {
        SkeletonRenderableKind::Simple(v) => {
            if k < v.len() {
                write_simple(&v[k], zero, layer)
            } else {
                MeshUpdate {
                    state: SpineMeshState::Empty,
                    buffers: MeshBuffers::empty(),
                    z_layer: None,
                }
            }
        },
        SkeletonRenderableKind::Combined(v) => {
            if k < v.len() {
                write_combined(&v[k], zero, layer)
            } else {
                MeshUpdate {
                    state: SpineMeshState::Empty,
                    buffers: MeshBuffers::empty(),
                    z_layer: None,
                }
            }
        },
    }
}

proof fn lemma_rendered_before_step<S>(r: Seq<Option<MeshUpdate<S>>>, x: Option<MeshUpdate<S>>)
    ensures
        forall|i: int| 0 <= i <= r.len() ==> rendered_before(r.push(x), i) == rendered_before(r, i),
{
    assert forall|i: int| 0 <= i <= r.len() implies rendered_before(r.push(x), i)
        == rendered_before(r, i) by {
        lemma_rendered_before_prefix(r, x, i);
    }
}

proof fn lemma_rendered_before_prefix<S>(
    r: Seq<Option<MeshUpdate<S>>>,
    x: Option<MeshUpdate<S>>,
    i: int,
)
    requires
        0 <= i <= r.len(),
    ensures
        rendered_before(r.push(x), i) == rendered_before(r, i),
    decreases i,
{
    if i > 0 {
        lemma_rendered_before_prefix(r, x, i - 1);
        assert(r.push(x)[i - 1] == r[i - 1]);
    }
}

/// One frame of the mesh builder for one skeleton.
///
/// `mesh_available[i]` tells whether the `i`-th mesh entity (in slot order) can
/// be written this frame. Each writable entity consumes the next renderable:
/// it renders it when the renderable has a texture and coherent geometry, and
/// is emptied otherwise (also past the last renderable). Entities that cannot
/// be written are left untouched and consume nothing. With the `Disabled` drawer
/// nothing is touched. Rendered meshes are numbered in draw order for depth.
pub fn plan_mesh_updates<S: Copy>(
    drawer: SpineDrawer,
    renderables: &SkeletonRenderableKind<S>,
    mesh_available: &Vec<bool>,
    zero: S,
) -> (r: Vec<Option<MeshUpdate<S>>>)
    ensures
        planned(drawer, *renderables, mesh_available@, zero, r@),
        forall|i: int| 0 <= i < r@.len() ==> (#[trigger] r@[i] matches Some(u) ==> u.buffers.wf()),
        layers_assigned(r@),
        drawer == SpineDrawer::Disabled ==> forall|i: int| 0 <= i < r@.len() ==> #[trigger] r@[i]
            is None,
{
    let mut r: Vec<Option<MeshUpdate<S>>> = Vec::new();
    let mut consumed: usize = 0;
    let mut layer: usize = 0;
    let mut i: usize = 0;
    while i < mesh_available.len()
        invariant
            i <= mesh_available@.len(),
            r@.len() == i,
            consumed as int == consumed_before(mesh_available@, i as int),
            consumed <= i,
            layer as int == rendered_before(r@, i as int),
            layer <= i,
            forall|j: int|
                0 <= j < i ==> {
                    if drawer is Disabled || !mesh_available@[j] {
                        (#[trigger] r@[j]) is None
                    } else {
                        r@[j] matches Some(u) && update_for(
                            *renderables,
                            consumed_before(mesh_available@, j),
                            zero,
                            rendered_before(r@, j),
                            u,
                        )
                    }
                },
            forall|j: int| 0 <= j < i ==> (#[trigger] r@[j] matches Some(u) ==> u.buffers.wf()),
            forall|j: int|
                0 <= j < i ==> (#[trigger] r@[j] matches Some(u) ==> (u.z_layer matches Some(
                    z,
                ) ==> z == rendered_before(r@, j))),
            forall|j: int|
                0 <= j < i ==> (#[trigger] r@[j] matches Some(u) ==> (u.state is Renderable
                    <==> u.z_layer is Some)),
        decreases mesh_available@.len() - i,
    {
        let ghost old_r = r@;
        let item: Option<MeshUpdate<S>>;
        if !mesh_available[i] {
            item = None;
        } else {
            if drawer == SpineDrawer::Disabled {
                item = None;
            } else {
                item = Some(write_at(renderables, consumed, zero, layer));
            }
            consumed = consumed + 1;
        }
        let rendered = match &item {
            Some(u) => match &u.state {
                SpineMeshState::Renderable { .. } => true,
                SpineMeshState::Empty => false,
            },
            None => false,
        };
        r.push(item);
        proof {
            lemma_rendered_before_step(old_r, item);
            assert(r@ == old_r.push(item));
            assert(r@[i as int] == item);
        }
        if rendered {
            layer = layer + 1;
        }
        i = i + 1;
    }
    r
}

proof fn lemma_rendered_before_monotone<S>(r: Seq<Option<MeshUpdate<S>>>, a: int, b: int)
    requires
        0 <= a <= b,
    ensures
        rendered_before(r, a) <= rendered_before(r, b),
    decreases b,
{
    if a < b {
        lemma_rendered_before_monotone(r, a, b - 1);
    }
}

/// Depth layers as the builder assigns them: a mesh renders exactly when it
/// has a layer, and its layer counts the rendered meshes before it.
pub open spec fn layers_assigned<S>(r: Seq<Option<MeshUpdate<S>>>) -> bool {
    forall|k: int|
        0 <= k < r.len() ==> (#[trigger] r[k] matches Some(u) ==> {
            &&& u.state is Renderable <==> u.z_layer is Some
            &&& u.z_layer matches Some(z) ==> z == rendered_before(r, k)
        })
}

/// Within a skeleton, depth grows strictly with draw order: a rendered mesh
/// lies above every rendered mesh before it, and exactly one step above the
/// previous one.
pub proof fn lemma_depth_layers_increase<S>(r: Seq<Option<MeshUpdate<S>>>, i: int, j: int)
    requires
        layers_assigned(r),
        0 <= i < j < r.len(),
        is_rendered(r[i]),
        is_rendered(r[j]),
    ensures
        r[i]->Some_0.z_layer->Some_0 < r[j]->Some_0.z_layer->Some_0,
        (forall|k: int| i < k < j ==> !is_rendered(#[trigger] r[k])) ==> r[j]->Some_0.z_layer->Some_0
            == r[i]->Some_0.z_layer->Some_0 + 1,
{
    assert(rendered_before(r, i + 1) == rendered_before(r, i) + 1);
    lemma_rendered_before_monotone(r, i + 1, j);
    if forall|k: int| i < k < j ==> !is_rendered(#[trigger] r[k]) {
        lemma_no_rendered_between(r, i + 1, j);
    }
}

proof fn lemma_no_rendered_between<S>(r: Seq<Option<MeshUpdate<S>>>, a: int, b: int)
    requires
        0 <= a <= b <= r.len(),
        forall|k: int| a <= k < b ==> !is_rendered(#[trigger] r[k]),
    ensures
        rendered_before(r, b) == rendered_before(r, a),
    decreases b,
{
    if a < b {
        lemma_no_rendered_between(r, a, b - 1);
    }
}

/// A skeleton without slots has no mesh entities, so no frame of the builder
/// yields a renderable mesh for it.
pub proof fn lemma_zero_slots_never_render<S>(
    drawer: SpineDrawer,
    kind: SkeletonRenderableKind<S>,
    zero: S,
    r: Seq<Option<MeshUpdate<S>>>,
)
    requires
        planned(drawer, kind, Seq::<bool>::empty(), zero, r),
    ensures
        r.len() == 0,
        forall|k: int| 0 <= k < r.len() ==> !is_rendered(#[trigger] r[k]),
{
}

} // verus!
