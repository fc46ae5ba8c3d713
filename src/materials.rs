//! Per-mesh render metadata, the blend-state catalogue of the built-in
//! materials and the attach / update / detach decision of the material binder.

use vstd::prelude::*;

use crate::meshes::SpineSettings;

verus! {

/// How a slot's pixels combine with what is already drawn.
#[derive(Clone, Copy, Debug, PartialEq, Eq, Structural)]
pub enum BlendMode {
    Normal,
    Additive,
    Multiply,
    Screen,
}

/// What a material needs to know of one renderable mesh.
pub struct SpineMaterialInfo {
    /// The slot drawn by this mesh; only the separated drawer sets it.
    pub slot_index: Option<usize>,
    /// Path of the texture page the mesh samples.
    pub texture: String,
    pub blend_mode: BlendMode,
    pub premultiplied_alpha: bool,
}

/// Shader location of the dark-colour vertex attribute.
pub const DARK_COLOR_SHADER_POSITION: usize = 10;

/// A blend factor of the render pipeline.
#[derive(Clone, Copy, Debug, PartialEq, Eq, Structural)]
pub enum BlendFactor {
    One,
    SrcAlpha,
    OneMinusSrcAlpha,
    OneMinusSrc,
    Dst,
}

/// How weighted source and destination are combined.
#[derive(Clone, Copy, Debug, PartialEq, Eq, Structural)]
pub enum BlendOperation {
    Add,
}

#[derive(Clone, Copy, Debug, PartialEq, Eq, Structural)]
pub struct BlendComponent {
    pub src_factor: BlendFactor,
    pub dst_factor: BlendFactor,
    pub operation: BlendOperation,
}

/// Blending of the colour and of the alpha channel.
#[derive(Clone, Copy, Debug, PartialEq, Eq, Structural)]
pub struct BlendState {
    pub color: BlendComponent,
    pub alpha: BlendComponent,
}

/// One of the built-in materials: a blend mode with or without
/// premultiplied alpha.
#[derive(Clone, Copy, Debug, PartialEq, Eq, Structural)]
pub struct MaterialKind {
    pub blend_mode: BlendMode,
    pub premultiplied_alpha: bool,
}

pub open spec fn add_component(src: BlendFactor, dst: BlendFactor) -> BlendComponent {
    BlendComponent { src_factor: src, dst_factor: dst, operation: BlendOperation::Add }
}

/// The blend state of each built-in material.
pub open spec fn blend_state_of(kind: MaterialKind) -> BlendState {
    match (kind.blend_mode, kind.premultiplied_alpha) {
        (BlendMode::Normal, false) => BlendState {
            color: add_component(BlendFactor::SrcAlpha, BlendFactor::OneMinusSrcAlpha),
            alpha: add_component(BlendFactor::One, BlendFactor::OneMinusSrcAlpha),
        },
        (BlendMode::Additive, false) => BlendState {
            color: add_component(BlendFactor::SrcAlpha, BlendFactor::One),
            alpha: add_component(BlendFactor::One, BlendFactor::One),
        },
        (BlendMode::Normal, true) => BlendState {
            color: add_component(BlendFactor::One, BlendFactor::OneMinusSrcAlpha),
            alpha: add_component(BlendFactor::One, BlendFactor::OneMinusSrcAlpha),
        },
        (BlendMode::Additive, true) => BlendState {
            color: add_component(BlendFactor::One, BlendFactor::One),
            alpha: add_component(BlendFactor::One, BlendFactor::One),
        },
        (BlendMode::Multiply, _) => BlendState {
            color: add_component(BlendFactor::Dst, BlendFactor::OneMinusSrcAlpha),
            alpha: add_component(BlendFactor::OneMinusSrcAlpha, BlendFactor::OneMinusSrcAlpha),
        },
        (BlendMode::Screen, _) => BlendState {
            color: add_component(BlendFactor::One, BlendFactor::OneMinusSrcAlpha),
            alpha: add_component(BlendFactor::OneMinusSrc, BlendFactor::OneMinusSrcAlpha),
        },
    }
}

fn component(src: BlendFactor, dst: BlendFactor) -> (r: BlendComponent)
    ensures
        r == add_component(src, dst),
{
    BlendComponent { src_factor: src, dst_factor: dst, operation: BlendOperation::Add }
}

/// The blend state the render pipeline of a built-in material uses.
pub fn blend_state(kind: MaterialKind) -> (r: BlendState)
    ensures
        r == blend_state_of(kind),
{
    match (kind.blend_mode, kind.premultiplied_alpha) {
        (BlendMode::Normal, false) => BlendState {
            color: component(BlendFactor::SrcAlpha, BlendFactor::OneMinusSrcAlpha),
            alpha: component(BlendFactor::One, BlendFactor::OneMinusSrcAlpha),
        },
        (BlendMode::Additive, false) => BlendState {
            color: component(BlendFactor::SrcAlpha, BlendFactor::One),
            alpha: component(BlendFactor::One, BlendFactor::One),
        },
        (BlendMode::Normal, true) => BlendState {
            color: component(BlendFactor::One, BlendFactor::OneMinusSrcAlpha),
            alpha: component(BlendFactor::One, BlendFactor::OneMinusSrcAlpha),
        },
        (BlendMode::Additive, true) => BlendState {
            color: component(BlendFactor::One, BlendFactor::One),
            alpha: component(BlendFactor::One, BlendFactor::One),
        },
        (BlendMode::Multiply, _) => BlendState {
            color: component(BlendFactor::Dst, BlendFactor::OneMinusSrcAlpha),
            alpha: component(BlendFactor::OneMinusSrcAlpha, BlendFactor::OneMinusSrcAlpha),
        },
        (BlendMode::Screen, _) => BlendState {
            color: component(BlendFactor::One, BlendFactor::OneMinusSrcAlpha),
            alpha: component(BlendFactor::OneMinusSrc, BlendFactor::OneMinusSrcAlpha),
        },
    }
}

spec fn mode_at(i: int) -> BlendMode {
    if i == 0 {
        BlendMode::Normal
    } else if i == 1 {
        BlendMode::Additive
    } else if i == 2 {
        BlendMode::Multiply
    } else {
        BlendMode::Screen
    }
}

/// The eight built-in materials: every blend mode, without and with
/// premultiplied alpha.
pub fn builtin_material_kinds() -> (r: Vec<MaterialKind>)
    ensures
        r@.len() == 8,
        forall|k: MaterialKind| r@.contains(k),
        forall|i: int, j: int| 0 <= i < j < r@.len() ==> r@[i] != r@[j],
{
    let mut r: Vec<MaterialKind> = Vec::new();
    let pma = [false, true];
    let mut p: usize = 0;
    while p < 2
        invariant
            p <= 2,
            pma@ == seq![false, true],
            r@.len() == 4 * p,
            forall|i: int|
                0 <= i < r@.len() ==> (#[trigger] r@[i]).premultiplied_alpha == (i >= 4) && r@[i].blend_mode == mode_at(i % 4),
        decreases 2 - p,
    {
        let a = pma[p];
        r.push(MaterialKind { blend_mode: BlendMode::Normal, premultiplied_alpha: a });
        r.push(MaterialKind { blend_mode: BlendMode::Additive, premultiplied_alpha: a });
        r.push(MaterialKind { blend_mode: BlendMode::Multiply, premultiplied_alpha: a });
        r.push(MaterialKind { blend_mode: BlendMode::Screen, premultiplied_alpha: a });
        p = p + 1;
    }
    assert forall|k: MaterialKind| r@.contains(k) by {
        let i = match k.blend_mode {
            BlendMode::Normal => 0int,
            BlendMode::Additive => 1,
            BlendMode::Multiply => 2,
            BlendMode::Screen => 3,
        } + if k.premultiplied_alpha { 4int } else { 0 };
        assert(r@[i] == k);
    }
    r
}

/// Whether the built-in material `kind` belongs on a mesh with the given
/// blend mode and premultiplied-alpha flag: default materials are enabled for
/// its skeleton (settings absent count as the defaults) and the mesh's blend
/// mode and flag are the material's.
pub fn default_material_applies(
    settings: Option<SpineSettings>,
    blend_mode: BlendMode,
    premultiplied_alpha: bool,
    kind: MaterialKind,
) -> (r: bool)
    ensures
        r == (match settings {
            Some(s) => s.default_materials,
            None => true,
        } && blend_mode == kind.blend_mode && premultiplied_alpha == kind.premultiplied_alpha),
{
    let s = match settings {
        Some(s) => s,
        None => SpineSettings::default(),
    };
    s.default_materials && blend_mode == kind.blend_mode && premultiplied_alpha
        == kind.premultiplied_alpha
}

/// What the material binder does to a mesh's material this frame.
#[derive(Clone, Copy, Debug, PartialEq, Eq, Structural)]
pub enum MaterialAction {
    /// Leave things as they are.
    Keep,
    /// Overwrite the attached material in place with the proposed one.
    Update,
    /// Create a material asset from the proposal and attach it.
    Create,
    /// Detach the material from the mesh and drop its asset.
    Remove,
}

/// The binder's decision for a renderable mesh, given whether a material is
/// attached (handle and asset both present) and whether the adapter proposed
/// one.
pub fn material_action(attached: bool, proposed: bool) -> (r: MaterialAction)
    ensures
        attached && proposed ==> r == MaterialAction::Update,
        attached && !proposed ==> r == MaterialAction::Remove,
        !attached && proposed ==> r == MaterialAction::Create,
        !attached && !proposed ==> r == MaterialAction::Keep,
{
    if attached {
        if proposed {
            MaterialAction::Update
        } else {
            MaterialAction::Remove
        }
    } else if proposed {
        MaterialAction::Create
    } else {
        MaterialAction::Keep
    }
}

} // verus!
