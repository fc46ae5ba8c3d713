//! The composite skeleton-data asset and its readiness state machine.

use vstd::prelude::*;

verus! {

/// Where the skeleton of a skeleton-data asset comes from. `J` and `B` are
/// the handle types of the JSON and binary skeleton assets.
pub enum SkeletonDataKind<J, B> {
    BinaryFile(B),
    JsonFile(J),
}

/// Readiness of a skeleton-data asset. `D` is the shared, parsed skeleton data.
pub enum SkeletonDataStatus<D> {
    Loaded(D),
    Loading,
    Failed,
}

} // verus!

verus! {

/// The composite skeleton-data asset: an atlas plus a JSON or binary skeleton,
/// with the readiness status that the loader stage advances. `A` is the atlas
/// handle type.
pub struct SkeletonData<A, J, B, D> {
    pub atlas_handle: A,
    pub kind: SkeletonDataKind<J, B>,
    pub status: SkeletonDataStatus<D>,
    /// Copied from the atlas's first page once the atlas is present.
    pub premultiplied_alpha: bool,
}

impl<A, J, B, D> SkeletonData<A, J, B, D> {
    /// A skeleton-data asset read from a JSON skeleton; it starts loading.
    pub fn new_from_json(json: J, atlas: A) -> (r: Self)
        ensures
            r.atlas_handle == atlas,
            r.kind == SkeletonDataKind::<J, B>::JsonFile(json),
            r.status is Loading,
            !r.premultiplied_alpha,
    {
        SkeletonData {
            atlas_handle: atlas,
            kind: SkeletonDataKind::JsonFile(json),
            status: SkeletonDataStatus::Loading,
            premultiplied_alpha: false,
        }
    }

    /// A skeleton-data asset read from a binary skeleton; it starts loading.
    pub fn new_from_binary(binary: B, atlas: A) -> (r: Self)
        ensures
            r.atlas_handle == atlas,
            r.kind == SkeletonDataKind::<J, B>::BinaryFile(binary),
            r.status is Loading,
            !r.premultiplied_alpha,
    {
        SkeletonData {
            atlas_handle: atlas,
            kind: SkeletonDataKind::BinaryFile(binary),
            status: SkeletonDataStatus::Loading,
            premultiplied_alpha: false,
        }
    }

    pub fn is_loaded(&self) -> (r: bool)
        ensures
            r == self.status is Loaded,
    {
        match &self.status {
            SkeletonDataStatus::Loaded(_) => true,
            _ => false,
        }
    }

    pub fn is_loading(&self) -> (r: bool)
        ensures
            r == self.status is Loading,
    {
        match &self.status {
            SkeletonDataStatus::Loading => true,
            _ => false,
        }
    }

    /// Whether this frame's loader step reads the skeleton bytes: the asset
    /// is loading and both its atlas and its bytes are present.
    pub fn needs_parse(&self, atlas_present: bool, bytes_present: bool) -> (r: bool)
        ensures
            r == (self.status is Loading && atlas_present && bytes_present),
    {
        self.is_loading() && atlas_present && bytes_present
    }

    /// The shared skeleton data, once loaded.
    pub fn skeleton_data(&self) -> (r: Option<D>) where D: Clone
        ensures
            match self.status {
                SkeletonDataStatus::Loaded(d) => r matches Some(x) && cloned(d, x),
                _ => r is None,
            },
    {
        match &self.status {
            SkeletonDataStatus::Loaded(d) => Some(d.clone()),
            _ => None,
        }
    }

    /// One loader-stage step for this asset.
    ///
    /// `atlas` is `None` while the atlas asset is missing, else the
    /// premultiplied-alpha flag of its first page (if it has a page).
    /// `parsed` is `None` while the skeleton bytes are missing, else the
    /// result of parsing them with the atlas. Only a loading asset changes: a
    /// missing dependency leaves it loading, a parse decides it for good.
    pub fn advance<E>(&mut self, atlas: Option<Option<bool>>, parsed: Option<Result<D, E>>)
        ensures
            final(self).atlas_handle == old(self).atlas_handle,
            final(self).kind == old(self).kind,
            !(old(self).status is Loading) || atlas is None ==> *final(self) == *old(self),
            old(self).status is Loading && atlas is Some ==> {
                &&& final(self).premultiplied_alpha == match atlas->Some_0 {
                    Some(pma) => pma,
                    None => old(self).premultiplied_alpha,
                }
                &&& final(self).status == match parsed {
                    None => SkeletonDataStatus::<D>::Loading,
                    Some(Ok(d)) => SkeletonDataStatus::Loaded(d),
                    Some(Err(_)) => SkeletonDataStatus::Failed,
                }
            },
    {
        if !self.is_loading() {
            return;
        }
        match atlas {
            None => {},
            Some(first_page_pma) => {
                match first_page_pma {
                    Some(pma) => {
                        self.premultiplied_alpha = pma;
                    },
                    None => {},
                }
                match parsed {
                    None => {},
                    Some(Ok(d)) => {
                        self.status = SkeletonDataStatus::Loaded(d);
                    },
                    Some(Err(_)) => {
                        self.status = SkeletonDataStatus::Failed;
                    },
                }
            },
        }
    }
}

} // verus!
