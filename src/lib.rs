//! Frame-lifecycle logic of a Spine skeletal-animation integration for an
//! entity/component engine: asset readiness, spawning, bone synchronisation,
//! mesh building, material selection and the texture bridge.

use vstd::prelude::*;

pub mod assets;
pub mod crossfades;
pub mod events;
pub mod loader;
pub mod materials;
pub mod meshes;
pub mod spawn;
pub mod sync;
pub mod target;
pub mod textures;

pub use target::Target;
