//! The texture bridge between the runtime's texture callbacks and the
//! engine's images, and the post-pass that fixes up newly created textures.

use vstd::multiset::Multiset;
use vstd::prelude::*;

verus! {

/// Texture filter of an atlas page.
#[derive(Clone, Copy, Debug, PartialEq, Eq, Structural)]
pub enum AtlasFilter {
    UnknownFilter,
    Nearest,
    Linear,
    Mipmap,
    MipmapNearestNearest,
    MipmapLinearNearest,
    MipmapNearestLinear,
    MipmapLinearLinear,
}

/// Texture wrap mode of an atlas page.
#[derive(Clone, Copy, Debug, PartialEq, Eq, Structural)]
pub enum AtlasWrap {
    MirroredRepeat,
    ClampToEdge,
    Repeat,
    Unknown,
}

/// Filter of an engine image sampler.
#[derive(Clone, Copy, Debug, PartialEq, Eq, Structural)]
pub enum ImageFilterMode {
    Nearest,
    Linear,
}

/// Address mode of an engine image sampler.
#[derive(Clone, Copy, Debug, PartialEq, Eq, Structural)]
pub enum ImageAddressMode {
    ClampToEdge,
    Repeat,
    MirrorRepeat,
}

/// How a texture page is to be sampled and whether its pixels are
/// premultiplied.
#[derive(Clone, Copy, Debug, PartialEq, Eq, Structural)]
pub struct SpineTextureConfig {
    pub premultiplied_alpha: bool,
    pub min_filter: AtlasFilter,
    pub mag_filter: AtlasFilter,
    pub u_wrap: AtlasWrap,
    pub v_wrap: AtlasWrap,
}

/// The sampler state installed on a texture page's image.
#[derive(Clone, Copy, Debug, PartialEq, Eq, Structural)]
pub struct SamplerSettings {
    pub min_filter: ImageFilterMode,
    pub mag_filter: ImageFilterMode,
    pub address_mode_u: ImageAddressMode,
    pub address_mode_v: ImageAddressMode,
}

/// The sampler filter for an atlas filter; `None` when it has no counterpart.
pub open spec fn filter_of(f: AtlasFilter) -> Option<ImageFilterMode> {
    match f {
        AtlasFilter::Nearest => Some(ImageFilterMode::Nearest),
        AtlasFilter::Linear => Some(ImageFilterMode::Linear),
        _ => None,
    }
}

/// The sampler address mode for an atlas wrap; `None` when it has no counterpart.
pub open spec fn wrap_of(w: AtlasWrap) -> Option<ImageAddressMode> {
    match w {
        AtlasWrap::ClampToEdge => Some(ImageAddressMode::ClampToEdge),
        AtlasWrap::MirroredRepeat => Some(ImageAddressMode::MirrorRepeat),
        AtlasWrap::Repeat => Some(ImageAddressMode::Repeat),
        AtlasWrap::Unknown => None,
    }
}

/// Translates an atlas filter; `None` for one the sampler does not support.
pub fn convert_filter(f: AtlasFilter) -> (r: Option<ImageFilterMode>)
    ensures
        r == filter_of(f),
{
    match f {
        AtlasFilter::Nearest => Some(ImageFilterMode::Nearest),
        AtlasFilter::Linear => Some(ImageFilterMode::Linear),
        _ => None,
    }
}

/// Translates an atlas wrap mode; `None` for one the sampler does not support.
pub fn convert_wrap(w: AtlasWrap) -> (r: Option<ImageAddressMode>)
    ensures
        r == wrap_of(w),
{
    match w {
        AtlasWrap::ClampToEdge => Some(ImageAddressMode::ClampToEdge),
        AtlasWrap::MirroredRepeat => Some(ImageAddressMode::MirrorRepeat),
        AtlasWrap::Repeat => Some(ImageAddressMode::Repeat),
        AtlasWrap::Unknown => None,
    }
}

/// The sampler state for a page: unsupported filters fall back to nearest,
/// unsupported wrap modes to clamp-to-edge.
pub fn sampler_for(config: SpineTextureConfig) -> (r: SamplerSettings)
    ensures
        r.min_filter == filter_of(config.min_filter).unwrap_or(ImageFilterMode::Nearest),
        r.mag_filter == filter_of(config.mag_filter).unwrap_or(ImageFilterMode::Nearest),
        r.address_mode_u == wrap_of(config.u_wrap).unwrap_or(ImageAddressMode::ClampToEdge),
        r.address_mode_v == wrap_of(config.v_wrap).unwrap_or(ImageAddressMode::ClampToEdge),
{
    SamplerSettings {
        min_filter: convert_filter(config.min_filter).unwrap_or(ImageFilterMode::Nearest),
        mag_filter: convert_filter(config.mag_filter).unwrap_or(ImageFilterMode::Nearest),
        address_mode_u: convert_wrap(config.u_wrap).unwrap_or(ImageAddressMode::ClampToEdge),
        address_mode_v: convert_wrap(config.v_wrap).unwrap_or(ImageAddressMode::ClampToEdge),
    }
}

/// The value stored in a page's renderer-object slot: the page's texture path.
pub struct SpineTexture(pub String);

/// A texture the runtime created and the bridge has not handed on yet.
pub struct PendingTexture {
    pub path: String,
    /// Identity of the atlas that owns the page.
    pub atlas_address: usize,
    pub config: SpineTextureConfig,
}

/// Sent for each texture the runtime created whose atlas is still known.
pub struct SpineTextureCreateEvent<I, A> {
    pub path: String,
    pub handle: I,
    pub atlas: A,
    pub config: SpineTextureConfig,
}

/// Sent for each texture the runtime disposed, after its create event.
pub struct SpineTextureDisposeEvent<I> {
    pub path: String,
    pub handle: I,
}

/// The bridge tables, guarded together by the caller. `I` is the image
/// handle type.
pub struct SpineTextures<I> {
    /// Live textures: path and image handle.
    pub handles: Vec<(String, I)>,
    /// Creates reported by the runtime, oldest first.
    pub remember: Vec<PendingTexture>,
    /// Paths of disposes reported by the runtime, oldest first.
    pub forget: Vec<String>,
}

/// An entry of the live table, as path and handle.
pub open spec fn entry_view<I>(e: (String, I)) -> (Seq<char>, I) {
    (e.0@, e.1)
}

/// The atlas with identity `address` among `atlases[i..]`, the first one found.
pub open spec fn atlas_from<A>(atlases: Seq<(usize, A)>, address: usize, i: int) -> Option<A>
    decreases atlases.len() - i,
{
    if i < 0 || i >= atlases.len() {
        None
    } else if atlases[i].0 == address {
        Some(atlases[i].1)
    } else {
        atlas_from(atlases, address, i + 1)
    }
}

/// Finds the first atlas whose identity is `address`.
pub fn find_matching_atlas<A: Copy>(atlases: &Vec<(usize, A)>, address: usize) -> (r: Option<A>)
    ensures
        r == atlas_from(atlases@, address, 0),
{
    let mut i: usize = 0;
    while i < atlases.len()
        invariant
            i <= atlases@.len(),
            atlas_from(atlases@, address, 0) == atlas_from(atlases@, address, i as int),
        decreases atlases@.len() - i,
    {
        if atlases[i].0 == address {
            return Some(atlases[i].1);
        }
        i = i + 1;
    }
    None
}

/// What the first `i` pending creates hand on: path, image, atlas and config
/// of each one whose atlas is known.
pub open spec fn created<I, A>(
    pending: Seq<PendingTexture>,
    images: Seq<I>,
    atlases: Seq<(usize, A)>,
    i: int,
) -> Seq<(Seq<char>, I, A, SpineTextureConfig)>
    decreases i,
{
    if i <= 0 {
        Seq::empty()
    } else {
        let prev = created(pending, images, atlases, i - 1);
        let t = pending[i - 1];
        match atlas_from(atlases, t.atlas_address, 0) {
            Some(a) => prev.push((t.path@, images[i - 1], a, t.config)),
            None => prev,
        }
    }
}

/// Index of the first live entry with path `p` among `live[j..]`.
pub open spec fn first_with_path<I>(live: Seq<(Seq<char>, I)>, p: Seq<char>, j: int) -> Option<int>
    decreases live.len() - j,
{
    if j < 0 || j >= live.len() {
        None
    } else if live[j].0 == p {
        Some(j)
    } else {
        first_with_path(live, p, j + 1)
    }
}

/// The live table and the dispose events after the first `i` pending
/// disposes: each removes the first live entry with its path, if any.
pub open spec fn disposed<I>(live: Seq<(Seq<char>, I)>, forget: Seq<Seq<char>>, i: int) -> (Seq<
    (Seq<char>, I),
>, Seq<(Seq<char>, I)>)
    decreases i,
{
    if i <= 0 {
        (live, Seq::empty())
    } else {
        let (l, ev) = disposed(live, forget, i - 1);
        match first_with_path(l, forget[i - 1], 0) {
            Some(k) => (l.remove(k), ev.push(l[k])),
            None => (l, ev),
        }
    }
}

proof fn lemma_first_with_path<I>(live: Seq<(Seq<char>, I)>, p: Seq<char>, j: int)
    requires
        0 <= j,
    ensures
        first_with_path(live, p, j) matches Some(k) ==> j <= k < live.len() && live[k].0 == p,
    decreases live.len() - j,
{
    if j < live.len() && live[j].0 != p {
        lemma_first_with_path(live, p, j + 1);
    }
}

impl<I> SpineTextures<I> {
    pub open spec fn live_view(&self) -> Seq<(Seq<char>, I)> {
        self.handles@.map_values(|e: (String, I)| entry_view(e))
    }

    pub open spec fn forget_view(&self) -> Seq<Seq<char>> {
        self.forget@.map_values(|s: String| s@)
    }

    /// Empty tables.
    pub fn init() -> (r: Self)
        ensures
            r.handles@.len() == 0,
            r.remember@.len() == 0,
            r.forget@.len() == 0,
    {
        SpineTextures { handles: Vec::new(), remember: Vec::new(), forget: Vec::new() }
    }

    /// Records a texture the runtime created for a page of atlas `atlas_address`.
    pub fn on_create(&mut self, path: String, atlas_address: usize, config: SpineTextureConfig)
        ensures
            final(self).remember@ == old(self).remember@.push(
                PendingTexture { path, atlas_address, config },
            ),
            final(self).handles == old(self).handles,
            final(self).forget == old(self).forget,
    {
        self.remember.push(PendingTexture { path, atlas_address, config });
    }

    /// Records a texture the runtime disposed.
    pub fn on_dispose(&mut self, path: String)
        ensures
            final(self).forget@ == old(self).forget@.push(path),
            final(self).handles == old(self).handles,
            final(self).remember == old(self).remember,
    {
        self.forget.push(path);
    }

    /// Paths of the pending creates, oldest first: the images to request.
    pub fn pending_create_paths(&self) -> (r: Vec<String>)
        ensures
            r@.len() == self.remember@.len(),
            forall|k: int| 0 <= k < r@.len() ==> (#[trigger] r@[k])@ == self.remember@[k].path@,
    {
        let mut r: Vec<String> = Vec::new();
        let mut i: usize = 0;
        while i < self.remember.len()
            invariant
                i <= self.remember@.len(),
                r@.len() == i,
                forall|k: int| 0 <= k < i ==> (#[trigger] r@[k])@ == self.remember@[k].path@,
            decreases self.remember@.len() - i,
        {
            r.push(self.remember[i].path.clone());
            i = i + 1;
        }
        r
    }

    /// Hands on the pending creates in the order the runtime reported them
    /// (oldest first, so events follow the order of page creation; the order
    /// is otherwise free). `images[k]` is the image
    /// requested for the `k`-th one. A create whose atlas is no longer among
    /// `atlases` (identity and handle) is dropped; the others enter the live
    /// table and yield a create event with a clone of the image handle.
    pub fn update_creates<A: Copy>(&mut self, images: Vec<I>, atlases: &Vec<(usize, A)>) -> (r: Vec<
        SpineTextureCreateEvent<I, A>,
    >) where I: Clone
        requires
            images@.len() == old(self).remember@.len(),
        ensures
            ({
                let c = created(old(self).remember@, images@, atlases@, images@.len() as int);
                &&& final(self).live_view() == old(self).live_view() + c.map_values(
                    |t: (Seq<char>, I, A, SpineTextureConfig)| (t.0, t.1),
                )
                &&& r@.len() == c.len()
                &&& forall|k: int|
                    0 <= k < r@.len() ==> {
                        &&& (#[trigger] r@[k]).path@ == c[k].0
                        &&& cloned(c[k].1, r@[k].handle)
                        &&& r@[k].atlas == c[k].2
                        &&& r@[k].config == c[k].3
                    }
            }),
            final(self).remember@.len() == 0,
            final(self).forget == old(self).forget,
    {
        let ghost pending = self.remember@;
        let ghost imgs = images@;
        let ghost live0 = self.live_view();
        let mut remember: Vec<PendingTexture> = Vec::new();
        std::mem::swap(&mut remember, &mut self.remember);
        let total = remember.len();
        let mut images = images;
        let mut events: Vec<SpineTextureCreateEvent<I, A>> = Vec::new();
        let mut i: usize = 0;
        while remember.len() > 0
            invariant
                remember@ == pending.subrange(i as int, pending.len() as int),
                images@ == imgs.subrange(i as int, imgs.len() as int),
                imgs.len() == pending.len(),
                pending.len() == total,
                i <= pending.len(),
                self.remember@.len() == 0,
                self.forget == old(self).forget,
                ({
                    let c = created(pending, imgs, atlases@, i as int);
                    &&& self.live_view() == live0 + c.map_values(
                        |t: (Seq<char>, I, A, SpineTextureConfig)| (t.0, t.1),
                    )
                    &&& events@.len() == c.len()
                    &&& forall|k: int|
                        0 <= k < events@.len() ==> {
                            &&& (#[trigger] events@[k]).path@ == c[k].0
                            &&& cloned(c[k].1, events@[k].handle)
                            &&& events@[k].atlas == c[k].2
                            &&& events@[k].config == c[k].3
                        }
                }),
            decreases remember@.len(),
        {
            assert(remember@.len() == pending.len() - i);
            let t = remember.remove(0);
            let image = images.remove(0);
            let ghost c0 = created(pending, imgs, atlases@, i as int);
            let ghost h0 = self.handles@;
            assert(t == pending[i as int]);
            assert(image == imgs[i as int]);
            match find_matching_atlas(atlases, t.atlas_address) {
                Some(atlas) => {
                    let handle = image.clone();
                    let ghost e = (t.path@, image, atlas, t.config);
                    events.push(
                        SpineTextureCreateEvent { path: t.path.clone(), handle, atlas, config: t.config },
                    );
                    self.handles.push((t.path, image));
                    proof {
                        let c1 = created(pending, imgs, atlases@, i + 1);
                        assert(c1 == c0.push(e));
                        assert(self.handles@ == h0.push((t.path, image)));
                        assert(self.live_view() =~= h0.map_values(|e: (String, I)| entry_view(e)).push(
                            (e.0, e.1),
                        ));
                        assert(c1.map_values(|t: (Seq<char>, I, A, SpineTextureConfig)| (t.0, t.1))
                            =~= c0.map_values(
                            |t: (Seq<char>, I, A, SpineTextureConfig)| (t.0, t.1),
                        ).push((e.0, e.1)));
                        assert(self.live_view() =~= live0 + c1.map_values(
                            |t: (Seq<char>, I, A, SpineTextureConfig)| (t.0, t.1),
                        ));
                    }
                },
                None => {},
            }
            i = i + 1;
            assert(remember@ =~= pending.subrange(i as int, pending.len() as int));
            assert(images@ =~= imgs.subrange(i as int, imgs.len() as int));
        }
        assert(i == pending.len());
        events
    }

    /// Hands on the pending disposes in the order the runtime reported them
    /// (oldest first): each removes the first
    /// live entry with its path and yields a dispose event with that entry's
    /// handle; a dispose with no live entry is dropped.
    pub fn update_disposes(&mut self) -> (r: Vec<SpineTextureDisposeEvent<I>>)
        ensures
            ({
                let (l, ev) = disposed(
                    old(self).live_view(),
                    old(self).forget_view(),
                    old(self).forget@.len() as int,
                );
                &&& final(self).live_view() == l
                &&& r@.map_values(|e: SpineTextureDisposeEvent<I>| (e.path@, e.handle)) == ev
            }),
            final(self).forget@.len() == 0,
            final(self).remember == old(self).remember,
    {
        let ghost live0 = self.live_view();
        let ghost fv = self.forget_view();
        let mut forget: Vec<String> = Vec::new();
        std::mem::swap(&mut forget, &mut self.forget);
        let total = forget.len();
        let ghost n = forget@.len();
        let mut events: Vec<SpineTextureDisposeEvent<I>> = Vec::new();
        let mut i: usize = 0;
        while forget.len() > 0
            invariant
                forget@.map_values(|s: String| s@) == fv.subrange(i as int, n as int),
                fv.len() == n,
                n == total,
                i <= n,
                self.forget@.len() == 0,
                self.remember == old(self).remember,
                ({
                    let (l, ev) = disposed(live0, fv, i as int);
                    &&& self.live_view() == l
                    &&& events@.map_values(|e: SpineTextureDisposeEvent<I>| (e.path@, e.handle))
                        == ev
                }),
            decreases forget@.len(),
        {
            let ghost fb = forget@;
            let ghost fm = forget@.map_values(|s: String| s@);
            assert(fm.len() == n - i);
            let path = forget.remove(0);
            assert(path == fb[0]);
            assert(fm[0] == fb[0]@);
            assert(path@ == fm[0]);
            assert(fm[0] == fv.subrange(i as int, n as int)[0]);
            assert(path@ == fv[i as int]);
            let ghost st = disposed(live0, fv, i as int);
            let ghost lv = self.live_view();
            // find the first live entry with this path
            let mut j: usize = 0;
            let mut found: Option<usize> = None;
            while j < self.handles.len()
                invariant_except_break
                    found is None,
                    first_with_path(lv, path@, 0) == first_with_path(lv, path@, j as int),
                invariant
                    j <= self.handles@.len(),
                    lv == self.live_view(),
                    lv.len() == self.handles@.len(),
                ensures
                    found matches Some(k) ==> first_with_path(lv, path@, 0) == Some(k as int) && k
                        < self.handles@.len(),
                    found is None ==> first_with_path(lv, path@, 0) is None,
                decreases self.handles@.len() - j,
            {
                if self.handles[j].0 == path {
                    found = Some(j);
                    break;
                }
                j = j + 1;
            }
            match found {
                Some(k) => {
                    let entry = self.handles.remove(k);
                    let ghost ev0 = events@;
                    events.push(SpineTextureDisposeEvent { path: entry.0, handle: entry.1 });
                    proof {
                        assert(self.live_view() =~= lv.remove(k as int));
                        assert(events@.map_values(
                            |e: SpineTextureDisposeEvent<I>| (e.path@, e.handle),
                        ) =~= ev0.map_values(
                            |e: SpineTextureDisposeEvent<I>| (e.path@, e.handle),
                        ).push(lv[k as int]));
                    }
                },
                None => {},
            }
            proof {
                assert(forget@ == fb.remove(0));
                let fa = forget@.map_values(|s: String| s@);
                assert forall|k: int| 0 <= k < forget@.len() implies #[trigger] fa[k] == fv.subrange(
                    i + 1,
                    n as int,
                )[k] by {
                    assert(forget@[k] == fb[k + 1]);
                    assert(fm[k + 1] == fb[k + 1]@);
                    assert(fm[k + 1] == fv.subrange(i as int, n as int)[k + 1]);
                }
            }
            i = i + 1;
            assert(forget@.map_values(|s: String| s@) =~= fv.subrange(i as int, n as int));
        }
        events
    }
}

impl<I> SpineTextures<I> {
    /// The loader stage's drain of the bridge: first the pending creates (see
    /// `update_creates`), then the pending disposes against the updated live
    /// table (see `update_disposes`).
    pub fn update<A: Copy>(&mut self, images: Vec<I>, atlases: &Vec<(usize, A)>) -> (r: (
        Vec<SpineTextureCreateEvent<I, A>>,
        Vec<SpineTextureDisposeEvent<I>>,
    )) where I: Clone
        requires
            images@.len() == old(self).remember@.len(),
        ensures
            ({
                let c = created(old(self).remember@, images@, atlases@, images@.len() as int);
                let mid = old(self).live_view() + c.map_values(
                    |t: (Seq<char>, I, A, SpineTextureConfig)| (t.0, t.1),
                );
                let (l, ev) = disposed(mid, old(self).forget_view(), old(self).forget@.len() as int);
                &&& r.0@.len() == c.len()
                &&& forall|k: int|
                    0 <= k < r.0@.len() ==> {
                        &&& (#[trigger] r.0@[k]).path@ == c[k].0
                        &&& cloned(c[k].1, r.0@[k].handle)
                        &&& r.0@[k].atlas == c[k].2
                        &&& r.0@[k].config == c[k].3
                    }
                &&& final(self).live_view() == l
                &&& r.1@.map_values(|e: SpineTextureDisposeEvent<I>| (e.path@, e.handle)) == ev
            }),
            final(self).remember@.len() == 0,
            final(self).forget@.len() == 0,
    {
        let creates = self.update_creates(images, atlases);
        let disposes = self.update_disposes();
        (creates, disposes)
    }
}

/// Dispose handling only ever removes live entries: every dispose event is an
/// entry that was live (so it came from an earlier create event for the same
/// path), and each event removes exactly one entry.
pub proof fn lemma_disposes_match_creates<I>(live: Seq<(Seq<char>, I)>, forget: Seq<Seq<char>>, i: int)
    requires
        0 <= i <= forget.len(),
    ensures
        ({
            let (l, ev) = disposed(live, forget, i);
            &&& l.len() + ev.len() == live.len()
            &&& forall|k: int| 0 <= k < ev.len() ==> live.contains(#[trigger] ev[k])
            &&& forall|k: int| 0 <= k < l.len() ==> live.contains(#[trigger] l[k])
            &&& forall|k: int| 0 <= k < ev.len() ==> (#[trigger] ev[k]).0 == forget[k]
                || exists|m: int| 0 <= m < i && forget[m] == ev[k].0
        }),
    decreases i,
{
    if i > 0 {
        lemma_disposes_match_creates(live, forget, i - 1);
        let (l, ev) = disposed(live, forget, i - 1);
        lemma_first_with_path(l, forget[i - 1], 0);
        match first_with_path(l, forget[i - 1], 0) {
            Some(k) => {
                let l2 = l.remove(k);
                let ev2 = ev.push(l[k]);
                assert forall|j: int| 0 <= j < l2.len() implies live.contains(#[trigger] l2[j]) by {
                    if j < k {
                        assert(l2[j] == l[j]);
                    } else {
                        assert(l2[j] == l[j + 1]);
                    }
                }
                assert forall|j: int| 0 <= j < ev2.len() implies live.contains(#[trigger] ev2[j]) by {
                    if j < ev.len() {
                        assert(ev2[j] == ev[j]);
                    } else {
                        assert(ev2[j] == l[k]);
                    }
                }
                assert forall|j: int| 0 <= j < ev2.len() implies (#[trigger] ev2[j]).0 == forget[j]
                    || exists|m: int| 0 <= m < i && forget[m] == ev2[j].0 by {
                    if j < ev.len() {
                        assert(ev2[j] == ev[j]);
                        if ev[j].0 != forget[j] {
                            let m = choose|m: int| 0 <= m < i - 1 && forget[m] == ev[j].0;
                            assert(0 <= m < i && forget[m] == ev2[j].0);
                        }
                    } else {
                        assert(ev2[j].0 == forget[i - 1]);
                    }
                }
            },
            None => {},
        }
    }
}

/// One drain of the disposes only moves entries: what stays live plus what
/// the dispose events hand out is what was live before.
pub proof fn lemma_disposes_balance<I>(live: Seq<(Seq<char>, I)>, forget: Seq<Seq<char>>, i: int)
    requires
        0 <= i <= forget.len(),
    ensures
        ({
            let (l, ev) = disposed(live, forget, i);
            l.to_multiset().add(ev.to_multiset()) == live.to_multiset()
        }),
    decreases i,
{
    broadcast use vstd::multiset::group_multiset_axioms;

    if i == 0 {
        assert(Seq::<(Seq<char>, I)>::empty().to_multiset() =~= Multiset::empty()) by {
            Seq::<(Seq<char>, I)>::empty().to_multiset_ensures();
        }
        assert(live.to_multiset().add(Multiset::empty()) =~= live.to_multiset());
    } else {
        lemma_disposes_balance(live, forget, i - 1);
        let (l, ev) = disposed(live, forget, i - 1);
        lemma_first_with_path(l, forget[i - 1], 0);
        if let Some(k) = first_with_path(l, forget[i - 1], 0) {
            l.to_multiset_ensures();
            ev.to_multiset_ensures();
            assert(l.remove(k).to_multiset() == l.to_multiset().remove(l[k]));
            assert(ev.push(l[k]).to_multiset() == ev.to_multiset().insert(l[k]));
            assert(l.to_multiset().count(l[k]) > 0) by {
                assert(l.contains(l[k]));
            }
            assert(l.remove(k).to_multiset().add(ev.push(l[k]).to_multiset()) =~= l.to_multiset().add(
                ev.to_multiset(),
            ));
        }
    }
}

/// One call of `SpineTextures::update` balances: the live table after it,
/// plus its dispose events, equals the live table before it plus the
/// entries its creates added (`created` as in the contract of `update`).
pub proof fn lemma_update_balance<I>(
    live: Seq<(Seq<char>, I)>,
    created: Seq<(Seq<char>, I)>,
    forget: Seq<Seq<char>>,
)
    ensures
        ({
            let (l, ev) = disposed(live + created, forget, forget.len() as int);
            l.to_multiset().add(ev.to_multiset()) == live.to_multiset().add(created.to_multiset())
        }),
{
    lemma_disposes_balance(live + created, forget, forget.len() as int);
    vstd::seq_lib::lemma_multiset_commutative(live, created);
}

/// Everything handed out over a run of calls, one sequence per call.
pub open spec fn all_handed_out<T>(calls: Seq<Seq<T>>) -> Multiset<T>
    decreases calls.len(),
{
    if calls.len() == 0 {
        Multiset::empty()
    } else {
        all_handed_out(calls.drop_last()).add(calls.last().to_multiset())
    }
}

proof fn lemma_run_prefix<I>(
    lives: Seq<Seq<(Seq<char>, I)>>,
    created: Seq<Seq<(Seq<char>, I)>>,
    disposes: Seq<Seq<(Seq<char>, I)>>,
    k: int,
)
    requires
        lives.len() == created.len() + 1,
        disposes.len() == created.len(),
        lives[0].len() == 0,
        forall|j: int|
            0 <= j < created.len() ==> #[trigger] lives[j + 1].to_multiset().add(
                disposes[j].to_multiset(),
            ) == lives[j].to_multiset().add(created[j].to_multiset()),
        0 <= k <= created.len(),
    ensures
        lives[k].to_multiset().add(all_handed_out(disposes.subrange(0, k))) == all_handed_out(
            created.subrange(0, k),
        ),
    decreases k,
{
    broadcast use vstd::multiset::group_multiset_axioms;

    if k == 0 {
        lives[0].to_multiset_ensures();
        assert(lives[0].to_multiset() =~= Multiset::empty());
        assert(lives[0].to_multiset().add(Multiset::empty()) =~= Multiset::empty());
    } else {
        lemma_run_prefix(lives, created, disposes, k - 1);
        assert(disposes.subrange(0, k).drop_last() =~= disposes.subrange(0, k - 1));
        assert(created.subrange(0, k).drop_last() =~= created.subrange(0, k - 1));
        let a = lives[k - 1].to_multiset();
        let b = lives[k].to_multiset();
        let d = disposes[k - 1].to_multiset();
        let c = created[k - 1].to_multiset();
        let dd = all_handed_out(disposes.subrange(0, k - 1));
        let cc = all_handed_out(created.subrange(0, k - 1));
        let j = k - 1;
        assert(lives[j + 1].to_multiset().add(disposes[j].to_multiset()) == lives[j].to_multiset().add(
            created[j].to_multiset(),
        ));
        assert(lives[j + 1] == lives[k]);
        assert(b.add(d) == a.add(c));
        assert(all_handed_out(disposes.subrange(0, k)) == dd.add(d));
        assert(all_handed_out(created.subrange(0, k)) == cc.add(c));
        assert(a.add(dd) == cc);
        assert forall|x: (Seq<char>, I)| #[trigger] b.add(dd.add(d)).count(x) == cc.add(c).count(x) by {
            assert(b.add(d).count(x) == a.add(c).count(x));
            assert(a.add(dd).count(x) == cc.count(x));
        }
        assert(b.add(dd.add(d)) =~= cc.add(c));
    }
}

/// Over a run of drains from empty tables (each step as `lemma_update_balance`
/// states it), the live table plus every dispose event handed out so far is
/// exactly every entry the creates added: the table holds one entry per
/// create not yet disposed, and every dispose event hands out an entry that
/// an earlier create added, so no path is disposed more often than created.
pub proof fn lemma_live_table_over_run<I>(
    lives: Seq<Seq<(Seq<char>, I)>>,
    created: Seq<Seq<(Seq<char>, I)>>,
    disposes: Seq<Seq<(Seq<char>, I)>>,
)
    requires
        lives.len() == created.len() + 1,
        disposes.len() == created.len(),
        lives[0].len() == 0,
        forall|j: int|
            0 <= j < created.len() ==> #[trigger] lives[j + 1].to_multiset().add(
                disposes[j].to_multiset(),
            ) == lives[j].to_multiset().add(created[j].to_multiset()),
    ensures
        lives.last().to_multiset().add(all_handed_out(disposes)) == all_handed_out(created),
        all_handed_out(disposes).subset_of(all_handed_out(created)),
{
    broadcast use vstd::multiset::group_multiset_axioms;

    let n = created.len() as int;
    lemma_run_prefix(lives, created, disposes, n);
    assert(disposes.subrange(0, n) =~= disposes);
    assert(created.subrange(0, n) =~= created);
}

/// Newly created textures waiting for the post-pass, oldest first.
pub struct TextureAdjustQueue<I> {
    pub handles: Vec<(I, SpineTextureConfig)>,
}

/// The items of `items` whose flag in `flags` equals `keep`, in order.
pub open spec fn select<T>(items: Seq<T>, flags: Seq<bool>, keep: bool) -> Seq<T>
    decreases items.len(),
{
    if items.len() == 0 {
        Seq::empty()
    } else {
        let rest = select(items.drop_last(), flags, keep);
        if flags[items.len() - 1] == keep {
            rest.push(items.last())
        } else {
            rest
        }
    }
}

impl<I> TextureAdjustQueue<I> {
    pub fn new() -> (r: Self)
        ensures
            r.handles@.len() == 0,
    {
        TextureAdjustQueue { handles: Vec::new() }
    }

    /// Queues a created texture.
    pub fn push(&mut self, handle: I, config: SpineTextureConfig)
        ensures
            final(self).handles@ == old(self).handles@.push((handle, config)),
    {
        self.handles.push((handle, config));
    }

    /// Takes out the queued textures whose image is available
    /// (`available[k]` for the `k`-th), in order; the others stay queued, in
    /// order. Each queued texture is thus handed out once.
    pub fn take_available(&mut self, available: &Vec<bool>) -> (r: Vec<(I, SpineTextureConfig)>)
        requires
            available@.len() == old(self).handles@.len(),
        ensures
            r@ == select(old(self).handles@, available@, true),
            final(self).handles@ == select(old(self).handles@, available@, false),
    {
        let ghost items = self.handles@;
        let mut rest: Vec<(I, SpineTextureConfig)> = Vec::new();
        std::mem::swap(&mut rest, &mut self.handles);
        let total = rest.len();
        let mut taken: Vec<(I, SpineTextureConfig)> = Vec::new();
        let mut i: usize = 0;
        while rest.len() > 0
            invariant
                rest@ == items.subrange(i as int, items.len() as int),
                items.len() == total,
                available@.len() == total,
                i <= total,
                taken@ == select(items.subrange(0, i as int), available@, true),
                self.handles@ == select(items.subrange(0, i as int), available@, false),
            decreases rest@.len(),
        {
            assert(rest@.len() == total - i);
            let x = rest.remove(0);
            assert(x == items[i as int]);
            proof {
                let pre = items.subrange(0, i as int + 1);
                assert(pre.drop_last() =~= items.subrange(0, i as int));
                assert(pre.last() == x);
            }
            if available[i] {
                taken.push(x);
            } else {
                self.handles.push(x);
            }
            i = i + 1;
            assert(rest@ =~= items.subrange(i as int, items.len() as int));
        }
        assert(items.subrange(0, i as int) =~= items);
        taken
    }
}

/// Per-byte lookup for converting straight-alpha sRGB pixels premultiplied in
/// sRGB into pixels premultiplied in linear light.
pub struct PremultiplyTable {
    /// Entry `a * 256 + c`: the converted colour channel `c` of a pixel with
    /// alpha `a`.
    pub channel: Vec<u8>,
    /// Entry `a`: the converted alpha.
    pub alpha: Vec<u8>,
}

impl PremultiplyTable {
    pub open spec fn wf(&self) -> bool {
        self.channel@.len() == 65536 && self.alpha@.len() == 256
    }
}

/// Byte `i` of pixel data `src` after the conversion: a pixel with zero alpha
/// becomes transparent black, any other pixel is looked up in the table by its
/// alpha; bytes past the last whole pixel are kept.
pub open spec fn premultiplied_byte(src: Seq<u8>, t: PremultiplyTable, i: int) -> u8 {
    let p = i / 4;
    let a = src[4 * p + 3];
    if 4 * p + 4 > src.len() {
        src[i]
    } else if a == 0 {
        0
    } else if i % 4 == 3 {
        t.alpha@[a as int]
    } else {
        t.channel@[a as int * 256 + src[i] as int]
    }
}

/// `out` is `src` after the conversion.
pub open spec fn premultiplied(src: Seq<u8>, t: PremultiplyTable, out: Seq<u8>) -> bool {
    &&& out.len() == src.len()
    &&& forall|i: int| 0 <= i < src.len() ==> #[trigger] out[i] == premultiplied_byte(src, t, i)
}

/// Converts RGBA8 pixel data in place (see `premultiplied_byte`).
pub fn premultiply_pixels(data: &mut Vec<u8>, table: &PremultiplyTable)
    requires
        table.wf(),
    ensures
        premultiplied(old(data)@, *table, final(data)@),
{
    let ghost src = data@;
    let n = data.len();
    let pixels = n / 4;
    let mut p: usize = 0;
    while p < pixels
        invariant
            pixels == n / 4,
            n == src.len(),
            data@.len() == n,
            p <= pixels,
            table.wf(),
            forall|i: int| 0 <= i < 4 * p ==> #[trigger] data@[i] == premultiplied_byte(src, *table, i),
            forall|i: int| 4 * p <= i < n ==> #[trigger] data@[i] == src[i],
        decreases pixels - p,
    {
        let base = 4 * p;
        let a = data[base + 3];
        if a == 0 {
            data.set(base, 0);
            data.set(base + 1, 0);
            data.set(base + 2, 0);
            data.set(base + 3, 0);
        } else {
            let row = a as usize * 256;
            let r = table.channel[row + data[base] as usize];
            let g = table.channel[row + data[base + 1] as usize];
            let b = table.channel[row + data[base + 2] as usize];
            let na = table.alpha[a as usize];
            data.set(base, r);
            data.set(base + 1, g);
            data.set(base + 2, b);
            data.set(base + 3, na);
        }
        proof {
            assert forall|i: int| 4 * p <= i < 4 * p + 4 implies #[trigger] data@[i]
                == premultiplied_byte(src, *table, i) by {
                assert(i / 4 == p);
            }
        }
        p = p + 1;
    }
    proof {
        assert forall|i: int| 4 * pixels <= i < n implies #[trigger] data@[i] == premultiplied_byte(
            src,
            *table,
            i,
        ) by {
            assert(i / 4 == pixels);
        }
    }
}

/// The conversion is a function of the source bytes: recomputing it from the
/// same source gives the same pixels, so converting once per created texture
/// is all that is needed.
pub proof fn lemma_premultiply_deterministic(
    src: Seq<u8>,
    t: PremultiplyTable,
    out1: Seq<u8>,
    out2: Seq<u8>,
)
    requires
        premultiplied(src, t, out1),
        premultiplied(src, t, out2),
    ensures
        out1 == out2,
{
    assert(out1 =~= out2);
}

} // verus!
