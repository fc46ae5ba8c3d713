//! The loader stage's step for one skeleton-data asset, with the atlas read
//! through the runtime.
//!
//! The runtime's skeleton readers are not called here: they trust their
//! input (JSON without a bone list, or truncated binary data, makes them
//! read through null or past the end), and no precondition over the bytes
//! short of the whole file format would keep such input out. The caller
//! runs the reader when `SkeletonData::needs_parse` says so and hands the
//! outcome in.

use std::sync::Arc;

use vstd::prelude::*;

use crate::assets::{SkeletonData, SkeletonDataStatus};

verus! {

#[verifier::external_type_specification]
#[verifier::external_body]
pub struct ExAtlas(rusty_spine::Atlas);

/// The premultiplied-alpha flag of each page of an atlas, in page order.
pub uninterp spec fn atlas_page_pmas(atlas: rusty_spine::Atlas) -> Seq<bool>;

/// The flag of the first page, if the atlas has a page.
pub open spec fn first_pma_of(atlas: rusty_spine::Atlas) -> Option<bool> {
    if atlas_page_pmas(atlas).len() > 0 {
        Some(atlas_page_pmas(atlas)[0])
    } else {
        None
    }
}

/// Relies on `rusty_spine::Atlas::pages` (the page list, from the first page
/// on) and `AtlasPage::pma`: the flag of the first page, if there is one.
#[verifier::external_body]
fn first_page_pma(atlas: &rusty_spine::Atlas) -> (r: Option<bool>)
    ensures
        r == (if atlas_page_pmas(*atlas).len() > 0 {
            Some(atlas_page_pmas(*atlas)[0])
        } else {
            None
        }),
{
    match atlas.pages().next() {
        Some(page) => Some(page.pma()),
        None => None,
    }
}

/// One loader-stage step for a skeleton-data asset.
///
/// `atlas` is the atlas asset, if present. `parsed` is `None` while the
/// skeleton bytes are missing, else the outcome of reading them with the
/// atlas (by the reader of the asset's kind). A loading asset with its atlas
/// takes the first page's premultiplied-alpha flag (kept if the atlas has no
/// page) and, with an outcome, becomes loaded with the parsed data or failed.
/// Anything else is left as it is.
pub fn load_skeleton_data<A, J, B, D, E>(
    data: &mut SkeletonData<A, J, B, Arc<D>>,
    atlas: Option<&Arc<rusty_spine::Atlas>>,
    parsed: Option<Result<D, E>>,
)
    ensures
        final(data).atlas_handle == old(data).atlas_handle,
        final(data).kind == old(data).kind,
        !(old(data).status is Loading) || atlas is None ==> *final(data) == *old(data),
        old(data).status is Loading && atlas is Some ==> {
            &&& final(data).premultiplied_alpha == match first_pma_of(**atlas->Some_0) {
                Some(pma) => pma,
                None => old(data).premultiplied_alpha,
            }
            &&& match parsed {
                None => final(data).status is Loading,
                Some(Ok(d)) => final(data).status matches SkeletonDataStatus::Loaded(s) && *s == d,
                Some(Err(_)) => final(data).status is Failed,
            }
        },
{
    if !data.is_loading() {
        return;
    }
    match atlas {
        None => {},
        Some(a) => {
            let pma = first_page_pma(&**a);
            let shared = match parsed {
                None => None,
                Some(Ok(d)) => Some(Ok(Arc::new(d))),
                Some(Err(e)) => Some(Err(e)),
            };
            data.advance(Some(pma), shared);
        },
    }
}

} // verus!
