use vstd::prelude::*;
use crate::texture::{ColorImage, ImageView, Sampling, TextureHandle, TextureOptions, MAX_SIDE, composite, patched_spec, sampling_spec};

verus! {

/// Errors that a texture upload or a draw can report.
#[derive(Clone, Copy, Debug, PartialEq, Eq, Structural)]
pub enum PaintError {
    /// A patch names a handle that has no image yet.
    MissingTextureForPatch,
    /// A mesh or a lookup names a handle that is not in the cache.
    UnknownTexture,
    /// The backend cannot build an image from the given buffer.
    ResourceCreationFailure,
}

/// A retained image and the sampling of the shader built from it.
#[derive(Debug)]
pub struct RetainedTexture {
    pub image: ColorImage,
    pub sampling: Sampling,
}

pub struct TextureView {
    pub image: ImageView,
    pub sampling: Sampling,
}

impl View for RetainedTexture {
    type V = TextureView;

    open spec fn view(&self) -> TextureView {
        TextureView { image: self.image@, sampling: self.sampling }
    }
}

/// A full image, or a patch placed at `pos` within an existing texture.
#[derive(Debug)]
pub struct ImageDelta {
    pub image: ColorImage,
    pub options: TextureOptions,
    pub pos: Option<(usize, usize)>,
}

pub struct DeltaView {
    pub image: ImageView,
    pub options: TextureOptions,
    pub pos: Option<(usize, usize)>,
}

impl View for ImageDelta {
    type V = DeltaView;

    open spec fn view(&self) -> DeltaView {
        DeltaView { image: self.image@, options: self.options, pos: self.pos }
    }
}

/// What uploading `d` at `h` reports, given the textures `m`.
pub open spec fn upload_result(m: Map<TextureHandle, TextureView>, h: TextureHandle, d: DeltaView) -> Result<
    (),
    PaintError,
> {
    if !d.image.creatable() {
        Err(PaintError::ResourceCreationFailure)
    } else if d.pos.is_some() && !m.contains_key(h) {
        Err(PaintError::MissingTextureForPatch)
    } else {
        Ok(())
    }
}

/// The textures after uploading `d` at `h`: a full image replaces the entry of `h`,
/// a patch is composited onto it; a failed upload changes nothing.
pub open spec fn upload_spec(m: Map<TextureHandle, TextureView>, h: TextureHandle, d: DeltaView) -> Map<
    TextureHandle,
    TextureView,
> {
    if upload_result(m, h, d).is_err() {
        m
    } else {
        match d.pos {
            None => m.insert(h, TextureView { image: d.image, sampling: sampling_spec(d.options) }),
            Some(p) => m.insert(
                h,
                TextureView {
                    image: patched_spec(m[h].image, d.image, p.0 as nat, p.1 as nat),
                    sampling: sampling_spec(d.options),
                },
            ),
        }
    }
}

#[derive(Debug)]
pub struct Entry {
    pub handle: TextureHandle,
    pub texture: RetainedTexture,
}

/// The texture of `h` in a list of entries; a later entry shadows an earlier one.
pub open spec fn lookup_in(s: Seq<Entry>, h: TextureHandle) -> Option<TextureView>
    decreases s.len(),
{
    if s.len() == 0 {
        None
    } else if s.last().handle == h {
        Some(s.last().texture@)
    } else {
        lookup_in(s.drop_last(), h)
    }
}

/// The textures retained between frames, by handle.
#[derive(Debug)]
pub struct TextureCache {
    entries: Vec<Entry>,
}

impl View for TextureCache {
    type V = Map<TextureHandle, TextureView>;

    closed spec fn view(&self) -> Map<TextureHandle, TextureView> {
        Map::new(|g: TextureHandle| self.texture(g).is_some(), |g: TextureHandle| self.texture(g)->0)
    }
}

impl TextureCache {
    /// The map view agrees with `texture` on every handle.
    pub proof fn lemma_view(&self)
        ensures
            forall|g: TextureHandle| #[trigger] self@.contains_key(g) == self.texture(g).is_some(),
            forall|g: TextureHandle| self@.contains_key(g) ==> Some(#[trigger] self@[g]) == self.texture(g),
    {
    }

    /// The texture that `h` names, if any.
    pub closed spec fn texture(&self, h: TextureHandle) -> Option<TextureView> {
        lookup_in(self.entries@, h)
    }

    /// Every retained image is one the backend could build.
    pub open spec fn wf(&self) -> bool {
        forall|g: TextureHandle| #[trigger] self.texture(g).is_some() ==> self.texture(g)->0.image.creatable()
    }

    pub fn new() -> (r: TextureCache)
        ensures
            r.wf(),
            forall|h: TextureHandle| r.texture(h).is_none(),
            r@ == Map::<TextureHandle, TextureView>::empty(),
    {
        let r = TextureCache { entries: Vec::new() };
        proof {
            r.lemma_view();
            assert(r@ =~= Map::<TextureHandle, TextureView>::empty());
        }
        r
    }

    /// Removes the texture of `h` and hands it back.
    fn take(&mut self, h: TextureHandle) -> (r: Option<RetainedTexture>)
        requires
            old(self).wf(),
        ensures
            final(self).wf(),
            r.is_some() == old(self).texture(h).is_some(),
            r.is_some() ==> Some(r->0@) == old(self).texture(h),
            final(self).texture(h).is_none(),
            forall|g: TextureHandle| g != h ==> #[trigger] final(self).texture(g) == old(self).texture(g),
    {
        let ghost s = self.entries@;
        let mut rest: Vec<Entry> = Vec::new();
        std::mem::swap(&mut rest, &mut self.entries);
        let mut kept: Vec<Entry> = Vec::new();
        let mut taken: Option<RetainedTexture> = None;
        let ghost mut k: int = 0;
        while rest.len() > 0
            invariant
                0 <= k <= s.len(),
                rest@ == s.subrange(k, s.len() as int),
                taken.is_some() == lookup_in(s.subrange(0, k), h).is_some(),
                taken.is_some() ==> Some(taken->0@) == lookup_in(s.subrange(0, k), h),
                lookup_in(kept@, h).is_none(),
                forall|g: TextureHandle| g != h ==> #[trigger] lookup_in(kept@, g) == lookup_in(s.subrange(0, k), g),
            decreases rest.len(),
        {
            let e = rest.remove(0);
            proof {
                assert(s.subrange(0, k + 1).drop_last() =~= s.subrange(0, k));
                assert(s.subrange(0, k + 1).last() == e);
            }
            let ghost prev = s.subrange(0, k);
            let ghost next = s.subrange(0, k + 1);
            if e.handle == h {
                taken = Some(e.texture);
                assert forall|g: TextureHandle| g != h implies #[trigger] lookup_in(kept@, g) == lookup_in(
                    next,
                    g,
                ) by {
                    assert(lookup_in(next, g) == lookup_in(prev, g));
                }
            } else {
                let ghost before = kept@;
                kept.push(e);
                proof {
                    assert(kept@.drop_last() =~= before);
                    assert(kept@.last() == e);
                    assert forall|g: TextureHandle| g != h implies #[trigger] lookup_in(kept@, g) == lookup_in(
                        next,
                        g,
                    ) by {
                        if g != e.handle {
                            assert(lookup_in(kept@, g) == lookup_in(before, g));
                            assert(lookup_in(next, g) == lookup_in(prev, g));
                        }
                    }
                }
            }
            proof {
                k = k + 1;
            }
        }
        assert(s.subrange(0, k) =~= s);
        self.entries = kept;
        assert forall|g: TextureHandle| #[trigger] self.texture(g).is_some() implies self.texture(
            g,
        )->0.image.creatable() by {
            assert(g != h);
            assert(old(self).texture(g) == lookup_in(s, g));
        }
        taken
    }

    fn insert(&mut self, h: TextureHandle, t: RetainedTexture)
        requires
            old(self).wf(),
            t@.image.creatable(),
        ensures
            final(self).wf(),
            final(self).texture(h) == Some(t@),
            forall|g: TextureHandle| g != h ==> #[trigger] final(self).texture(g) == old(self).texture(g),
    {
        let _ = self.take(h);
        let ghost mid = *self;
        let ghost before = self.entries@;
        self.entries.push(Entry { handle: h, texture: t });
        assert(self.entries@.drop_last() =~= before);
        assert(self.entries@.last().handle == h);
        assert forall|g: TextureHandle| #[trigger] self.texture(g) == (if g == h {
            Some(t@)
        } else {
            mid.texture(g)
        }) by {}
    }

    fn upload_entry(&mut self, h: TextureHandle, delta: ImageDelta) -> (r: Result<(), PaintError>)
        requires
            old(self).wf(),
        ensures
            final(self).wf(),
            !delta.image@.creatable() ==> r == Err::<(), PaintError>(PaintError::ResourceCreationFailure),
            delta.image@.creatable() && delta.pos.is_some() && old(self).texture(h).is_none()
                ==> r == Err::<(), PaintError>(PaintError::MissingTextureForPatch),
            r.is_err() ==> forall|g: TextureHandle| #[trigger] final(self).texture(g) == old(self).texture(g),
            r.is_ok() ==> forall|g: TextureHandle| g != h ==> #[trigger] final(self).texture(g) == old(self).texture(g),
            delta.image@.creatable() && delta.pos.is_none() ==> r == Ok::<(), PaintError>(()) && final(self).texture(h) == Some(
                TextureView { image: delta.image@, sampling: sampling_spec(delta.options) },
            ),
            delta.image@.creatable() && delta.pos.is_some() && old(self).texture(h).is_some() ==> r == Ok::<(), PaintError>(())
                && final(self).texture(h) == Some(
                TextureView {
                    image: patched_spec(
                        old(self).texture(h)->0.image,
                        delta.image@,
                        delta.pos.unwrap().0 as nat,
                        delta.pos.unwrap().1 as nat,
                    ),
                    sampling: sampling_spec(delta.options),
                },
            ),
    {
        let w = delta.image.width;
        let ht = delta.image.height;
        if w == 0 || w > MAX_SIDE || ht == 0 || ht > MAX_SIDE {
            return Err(PaintError::ResourceCreationFailure);
        }
        assert((w as int) * (ht as int) <= (MAX_SIDE as int) * (MAX_SIDE as int)) by (nonlinear_arith)
            requires
                w <= MAX_SIDE,
                ht <= MAX_SIDE,
        ;
        if delta.image.pixels.len() as u128 != (w as u128) * (ht as u128) {
            return Err(PaintError::ResourceCreationFailure);
        }
        let sampling = delta.options.sampling();
        match delta.pos {
            None => {
                self.insert(h, RetainedTexture { image: delta.image, sampling });
                Ok(())
            },
            Some((x, y)) => {
                let ghost before = *self;
                match self.take(h) {
                    None => {
                        proof {
                            assert forall|g: TextureHandle| #[trigger] self.texture(g) == before.texture(g) by {}
                        }
                        Err(PaintError::MissingTextureForPatch)
                    },
                    Some(old_texture) => {
                        let image = composite(&old_texture.image, &delta.image, x, y);
                        self.insert(h, RetainedTexture { image, sampling });
                        Ok(())
                    },
                }
            },
        }
    }

    /// Uploads a full image, or patches the image that `h` already has.
    ///
    /// A full image replaces any earlier texture of `h`, with the image's own size.
    /// A patch keeps the earlier texture's size: the region it covers is replaced
    /// and every pixel outside it stays as it was. Sampling follows `delta.options`.
    pub fn upload(&mut self, h: TextureHandle, delta: ImageDelta) -> (r: Result<(), PaintError>)
        requires
            old(self).wf(),
        ensures
            final(self).wf(),
            r == upload_result(old(self)@, h, delta@),
            final(self)@ == upload_spec(old(self)@, h, delta@),
            forall|g: TextureHandle| g != h ==> #[trigger] final(self).texture(g) == old(self).texture(g),
            delta.pos.is_none() && r.is_ok() ==> final(self)@[h].image == delta.image@,
            delta.pos.is_some() && r.is_ok() ==> final(self)@[h].image.width == old(self)@[h].image.width
                && final(self)@[h].image.height == old(self)@[h].image.height,
    {
        let ghost pre = *self;
        let ghost d = delta@;
        let r = self.upload_entry(h, delta);
        proof {
            pre.lemma_view();
            self.lemma_view();
            assert(pre@.contains_key(h) == pre.texture(h).is_some());
            assert(r == upload_result(pre@, h, d));
            let m = upload_spec(pre@, h, d);
            assert(self@ =~= m);
        }
        r
    }

    /// Looks up the texture that `h` names.
    pub fn lookup(&self, h: TextureHandle) -> (r: Result<&RetainedTexture, PaintError>)
        ensures
            self.texture(h).is_none() <==> r == Err::<&RetainedTexture, PaintError>(PaintError::UnknownTexture),
            r.is_ok() ==> Some(r->Ok_0@) == self.texture(h),
            !self@.contains_key(h) <==> r == Err::<&RetainedTexture, PaintError>(PaintError::UnknownTexture),
            r.is_ok() ==> r->Ok_0@ == self@[h],
            r.is_ok() <==> self@.contains_key(h),
    {
        proof {
            self.lemma_view();
        }
        let n = self.entries.len();
        let mut i: usize = n;
        assert(self.entries@.subrange(0, n as int) =~= self.entries@);
        while i > 0
            invariant
                i <= n,
                n == self.entries@.len(),
                lookup_in(self.entries@, h) == lookup_in(self.entries@.subrange(0, i as int), h),
            decreases i,
        {
            let ghost pre = self.entries@.subrange(0, i as int);
            assert(pre.drop_last() =~= self.entries@.subrange(0, i - 1));
            assert(pre.last() == self.entries@[i - 1]);
            if self.entries[i - 1].handle == h {
                return Ok(&self.entries[i - 1].texture);
            }
            i = i - 1;
        }
        assert(self.entries@.subrange(0, 0) =~= Seq::<Entry>::empty());
        Err(PaintError::UnknownTexture)
    }

    /// Removes the texture of `h`, if any; later lookups of `h` fail.
    pub fn free(&mut self, h: TextureHandle)
        requires
            old(self).wf(),
        ensures
            final(self).wf(),
            final(self)@ == old(self)@.remove(h),
            final(self).texture(h).is_none(),
            forall|g: TextureHandle| g != h ==> #[trigger] final(self).texture(g) == old(self).texture(g),
    {
        let ghost pre = *self;
        let _ = self.take(h);
        proof {
            pre.lemma_view();
            self.lemma_view();
            assert(self@ =~= pre@.remove(h));
        }
    }
}

/// Once a handle is freed the cache holds no texture for it, so a lookup of it
/// fails with `UnknownTexture`.
pub proof fn lemma_freed_is_unknown(m: Map<TextureHandle, TextureView>, h: TextureHandle)
    ensures
        !m.remove(h).contains_key(h),
{
}

} // verus!
