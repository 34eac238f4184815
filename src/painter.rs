use vstd::prelude::*;
use crate::cache::{ImageDelta, PaintError, TextureCache, TextureView, upload_result, upload_spec};
use crate::mesh::{
    Mesh, Mesh16, backend_vertex_spec, split_spec, uv_split_spec, split_texture_meshes, split_to_u16, uv_zero,
};
use crate::texture::TextureHandle;

verus! {

/// A rectangle in logical units, as the bit patterns of four 32-bit floats.
#[derive(Clone, Copy, Debug, PartialEq, Eq, Structural)]
pub struct RectBits {
    pub min_x: u32,
    pub min_y: u32,
    pub max_x: u32,
    pub max_y: u32,
}

/// A custom draw routine, named by the caller's number for it, and the
/// rectangle it draws into.
#[derive(Clone, Copy, Debug, PartialEq, Eq, Structural)]
pub struct CallbackPrimitive {
    pub callback: usize,
    pub rect: RectBits,
}

#[derive(Debug)]
pub enum Primitive {
    Mesh(Mesh),
    Callback(CallbackPrimitive),
}

/// A primitive and the rectangle outside which it must not draw.
#[derive(Debug)]
pub struct ClippedPrimitive {
    pub clip_rect: RectBits,
    pub primitive: Primitive,
}

impl ClippedPrimitive {
    /// A mesh names only its own vertices and no triangle spans more than
    /// 16-bit indices can address.
    pub open spec fn wf(&self) -> bool {
        match self.primitive {
            Primitive::Mesh(m) => m.wf() && m.triangles_fit(),
            Primitive::Callback(_) => true,
        }
    }
}

/// The textures to upload or patch, in order, and those to free afterwards.
#[derive(Debug)]
pub struct TexturesDelta {
    pub set: Vec<(TextureHandle, ImageDelta)>,
    pub free: Vec<TextureHandle>,
}

/// The textures after each upload of `sets`, in order.
pub open spec fn sets_spec(m: Map<TextureHandle, TextureView>, sets: Seq<(TextureHandle, ImageDelta)>) -> Map<
    TextureHandle,
    TextureView,
>
    decreases sets.len(),
{
    if sets.len() == 0 {
        m
    } else {
        upload_spec(sets_spec(m, sets.drop_last()), sets.last().0, sets.last().1@)
    }
}

/// The textures after each handle of `frees` is removed.
pub open spec fn frees_spec(m: Map<TextureHandle, TextureView>, frees: Seq<TextureHandle>) -> Map<
    TextureHandle,
    TextureView,
>
    decreases frees.len(),
{
    if frees.len() == 0 {
        m
    } else {
        frees_spec(m, frees.drop_last()).remove(frees.last())
    }
}

/// The textures after a whole delta: every upload, then every free.
pub open spec fn delta_spec(m: Map<TextureHandle, TextureView>, d: TexturesDelta) -> Map<
    TextureHandle,
    TextureView,
> {
    frees_spec(sets_spec(m, d.set@), d.free@)
}

impl TexturesDelta {
    pub fn new() -> (r: TexturesDelta)
        ensures
            r.set@.len() == 0,
            r.free@.len() == 0,
    {
        TexturesDelta { set: Vec::new(), free: Vec::new() }
    }

    /// Appends a later frame's delta: its uploads and frees come after ours.
    pub fn append(&mut self, mut newer: TexturesDelta)
        ensures
            final(self).set@ == old(self).set@ + newer.set@,
            final(self).free@ == old(self).free@ + newer.free@,
    {
        self.set.append(&mut newer.set);
        self.free.append(&mut newer.free);
    }

    pub fn is_empty(&self) -> (r: bool)
        ensures
            r == (self.set@.len() == 0 && self.free@.len() == 0),
    {
        self.set.len() == 0 && self.free.len() == 0
    }
}

proof fn lemma_sets_concat(m: Map<TextureHandle, TextureView>, a: Seq<(TextureHandle, ImageDelta)>, b: Seq<(TextureHandle, ImageDelta)>)
    ensures
        sets_spec(m, a + b) == sets_spec(sets_spec(m, a), b),
    decreases b.len(),
{
    if b.len() == 0 {
        assert(a + b =~= a);
    } else {
        assert((a + b).drop_last() =~= a + b.drop_last());
        lemma_sets_concat(m, a, b.drop_last());
    }
}

proof fn lemma_frees_concat(m: Map<TextureHandle, TextureView>, a: Seq<TextureHandle>, b: Seq<TextureHandle>)
    ensures
        frees_spec(m, a + b) == frees_spec(frees_spec(m, a), b),
    decreases b.len(),
{
    if b.len() == 0 {
        assert(a + b =~= a);
    } else {
        assert((a + b).drop_last() =~= a + b.drop_last());
        lemma_frees_concat(m, a, b.drop_last());
    }
}

/// Deltas of two frames appended and applied at once act as the uploads of
/// both frames in order, followed by the frees of both frames in order.
pub proof fn lemma_appended_deltas(m: Map<TextureHandle, TextureView>, first: TexturesDelta, second: TexturesDelta, both: TexturesDelta)
    requires
        both.set@ == first.set@ + second.set@,
        both.free@ == first.free@ + second.free@,
    ensures
        delta_spec(m, both) == frees_spec(
            frees_spec(sets_spec(sets_spec(m, first.set@), second.set@), first.free@),
            second.free@,
        ),
{
    lemma_sets_concat(m, first.set@, second.set@);
    lemma_frees_concat(sets_spec(m, both.set@), first.free@, second.free@);
}

/// A texture uploaded by one delta and freed by a later one is gone once the
/// appended deltas are applied, whatever else they upload.
pub proof fn lemma_freed_after_upload(m: Map<TextureHandle, TextureView>, d: TexturesDelta, h: TextureHandle)
    requires
        d.free@.contains(h),
    ensures
        !delta_spec(m, d).contains_key(h),
{
    lemma_freed_stays_freed(sets_spec(m, d.set@), d.free@, h);
}

proof fn lemma_freed_stays_freed(m: Map<TextureHandle, TextureView>, frees: Seq<TextureHandle>, h: TextureHandle)
    requires
        frees.contains(h),
    ensures
        !frees_spec(m, frees).contains_key(h),
    decreases frees.len(),
{
    if frees.last() != h {
        let i = choose|i: int| 0 <= i < frees.len() && frees[i] == h;
        assert(frees.drop_last()[i] == h);
        lemma_freed_stays_freed(m, frees.drop_last(), h);
    }
}

/// An empty delta leaves the textures as they were, and a frame of no
/// primitives draws nothing.
pub proof fn lemma_empty_frame(m: Map<TextureHandle, TextureView>, d: TexturesDelta, groups: Seq<Seq<Result<DrawCommand, PaintError>>>)
    requires
        d.set@.len() == 0,
        d.free@.len() == 0,
        groups.len() == 0,
    ensures
        delta_spec(m, d) == m,
        concat(groups).len() == 0,
{
}

/// What a mesh is drawn with: a texture's shader, or plain opaque white.
#[derive(Clone, Copy, Debug, PartialEq, Eq, Structural)]
pub enum MeshPaint {
    Texture(TextureHandle),
    White,
}

/// One draw call for the backend.
#[derive(Debug)]
pub enum DrawCommand {
    /// Draw `mesh` (vertices already converted for the backend) with `paint`,
    /// scaled by pixels-per-point and clipped to `clip_rect`.
    Mesh { clip_rect: RectBits, mesh: Mesh16, paint: MeshPaint },
    /// Record the callback into a surface of its pixel-scaled rectangle and
    /// replay it clipped to `clip_rect`.
    Callback { clip_rect: RectBits, callback: CallbackPrimitive },
}

/// `m` is `run` with every vertex converted for the backend.
pub open spec fn backend_mesh(run: Mesh16, m: Mesh16) -> bool {
    &&& m.indices@ == run.indices@
    &&& m.texture == run.texture
    &&& m.vertices@.len() == run.vertices@.len()
    &&& forall|i: int| 0 <= i < m.vertices@.len() ==> #[trigger] m.vertices@[i] == backend_vertex_spec(run.vertices@[i])
}

/// A run is drawn in plain white when the workaround is on and its first
/// vertex has the zero texture coordinate (or it has no vertex).
pub open spec fn uses_white(workaround: bool, run: Mesh16) -> bool {
    workaround && (run.vertices@.len() == 0 || uv_zero(run.vertices@[0]))
}

/// `r` is how `run` is drawn, clipped to `clip`, with the textures `m`.
pub open spec fn mesh_draw(
    m: Map<TextureHandle, TextureView>,
    workaround: bool,
    clip: RectBits,
    run: Mesh16,
    r: Result<DrawCommand, PaintError>,
) -> bool {
    if !uses_white(workaround, run) && !m.contains_key(run.texture) {
        r == Err::<DrawCommand, PaintError>(PaintError::UnknownTexture)
    } else {
        match r {
            Ok(DrawCommand::Mesh { clip_rect, mesh, paint }) => clip_rect == clip && backend_mesh(run, mesh) && paint == (
            if uses_white(workaround, run) {
                MeshPaint::White
            } else {
                MeshPaint::Texture(run.texture)
            }),
            _ => false,
        }
    }
}

/// The runs a mesh is drawn as: its 16-bit split, further cut by texture
/// coordinate status when the workaround is on.
pub open spec fn parts_of(workaround: bool, mesh: &Mesh, parts: Seq<Mesh16>) -> bool {
    if workaround {
        exists|runs: Seq<Mesh16>, groups: Seq<Seq<Mesh16>>|
            #[trigger] split_spec(mesh, runs) && #[trigger] concat(groups) == parts && groups.len() == runs.len()
                && forall|k: int| 0 <= k < runs.len() ==> uv_split_spec(&runs[k], #[trigger] groups[k])
    } else {
        split_spec(mesh, parts)
    }
}

/// `rs` is how the primitive `p` is drawn with the textures `m`.
pub open spec fn primitive_draws(
    m: Map<TextureHandle, TextureView>,
    workaround: bool,
    p: ClippedPrimitive,
    rs: Seq<Result<DrawCommand, PaintError>>,
) -> bool {
    match p.primitive {
        Primitive::Callback(cb) => rs.len() == 1 && match rs[0] {
            Ok(DrawCommand::Callback { clip_rect, callback }) => clip_rect == p.clip_rect && callback == cb,
            _ => false,
        },
        Primitive::Mesh(mesh) => exists|parts: Seq<Mesh16>|
            #[trigger] parts_of(workaround, &mesh, parts) && parts.len() == rs.len() && forall|k: int|
                0 <= k < parts.len() ==> mesh_draw(m, workaround, p.clip_rect, parts[k], #[trigger] rs[k]),
    }
}

/// The sequences of `groups`, one after another.
pub open spec fn concat<A>(groups: Seq<Seq<A>>) -> Seq<A>
    decreases groups.len(),
{
    if groups.len() == 0 {
        Seq::empty()
    } else {
        concat(groups.drop_last()) + groups.last()
    }
}

/// What painting a frame reports: the result of each upload, in order, and
/// each draw call or the error that kept it from being drawn, in draw order.
#[derive(Debug)]
pub struct FrameOutput {
    pub uploads: Vec<Result<(), PaintError>>,
    pub draws: Vec<Result<DrawCommand, PaintError>>,
}

/// Turns a frame's primitives into draw calls and keeps the texture cache in step.
#[derive(Debug)]
pub struct Painter {
    pub textures: TextureCache,
    pub vertex_precision_workaround: bool,
}

impl Default for Painter {
    /// A painter with no textures and the workaround off.
    fn default() -> (r: Painter)
        ensures
            r.wf(),
            r.textures@ == Map::<TextureHandle, TextureView>::empty(),
            !r.vertex_precision_workaround,
    {
        Painter::new(false)
    }
}

impl Painter {
    /// A painter with no textures. `vertex_precision_workaround` turns on the
    /// cut of meshes by texture coordinate status, drawing untextured parts in white.
    pub fn new(vertex_precision_workaround: bool) -> (r: Painter)
        ensures
            r.wf(),
            r.textures@ == Map::<TextureHandle, TextureView>::empty(),
            r.vertex_precision_workaround == vertex_precision_workaround,
    {
        let textures = TextureCache::new();
        Painter { textures, vertex_precision_workaround }
    }

    pub open spec fn wf(&self) -> bool {
        self.textures.wf()
    }

    /// Draws one run, clipped to `clip`.
    fn paint_mesh(&self, clip: RectBits, run: &Mesh16) -> (r: Result<DrawCommand, PaintError>)
        ensures
            mesh_draw(self.textures@, self.vertex_precision_workaround, clip, *run, r),
    {
        let white = self.vertex_precision_workaround && (run.vertices.len() == 0
            || crate::mesh::uv_zero_exec(&run.vertices[0]));
        let paint = if white {
            MeshPaint::White
        } else {
            match self.textures.lookup(run.texture) {
                Ok(_) => MeshPaint::Texture(run.texture),
                Err(e) => {
                    return Err(e);
                },
            }
        };
        Ok(DrawCommand::Mesh { clip_rect: clip, mesh: run.to_backend(), paint })
    }

    /// The runs that `mesh` is drawn as.
    fn mesh_parts(&self, mesh: &Mesh) -> (r: Vec<Mesh16>)
        requires
            mesh.wf(),
            mesh.triangles_fit(),
        ensures
            parts_of(self.vertex_precision_workaround, mesh, r@),
    {
        let runs = split_to_u16(mesh);
        if !self.vertex_precision_workaround {
            return runs;
        }
        let mut out: Vec<Mesh16> = Vec::new();
        let ghost mut groups: Seq<Seq<Mesh16>> = Seq::empty();
        let mut i: usize = 0;
        while i < runs.len()
            invariant
                i <= runs@.len(),
                split_spec(mesh, runs@),
                groups.len() == i,
                concat(groups) == out@,
                forall|k: int| 0 <= k < i ==> uv_split_spec(&runs@[k], #[trigger] groups[k]),
            decreases runs@.len() - i,
        {
            assert(crate::mesh::run_at(mesh, runs@, i as int));
            let mut parts = split_texture_meshes(&runs[i]);
            let ghost old_groups = groups;
            proof {
                groups = groups.push(parts@);
                assert(groups.drop_last() =~= old_groups);
                assert forall|k: int| 0 <= k < i + 1 implies uv_split_spec(&runs@[k], #[trigger] groups[k]) by {
                    if k < i {
                        assert(groups[k] == old_groups[k]);
                    }
                }
            }
            out.append(&mut parts);
            i = i + 1;
        }
        assert(split_spec(mesh, runs@) && concat(groups) == out@ && groups.len() == runs@.len());
        out
    }

    /// Draws one primitive: a mesh as its runs, a callback as one replay.
    fn paint_primitive(&self, p: ClippedPrimitive) -> (r: Vec<Result<DrawCommand, PaintError>>)
        requires
            p.wf(),
        ensures
            primitive_draws(self.textures@, self.vertex_precision_workaround, p, r@),
    {
        let ghost gp = p;
        let clip = p.clip_rect;
        match p.primitive {
            Primitive::Callback(cb) => {
                let r = vec![Ok(DrawCommand::Callback { clip_rect: clip, callback: cb })];
                r
            },
            Primitive::Mesh(mesh) => {
                let parts = self.mesh_parts(&mesh);
                let mut out: Vec<Result<DrawCommand, PaintError>> = Vec::new();
                let mut i: usize = 0;
                while i < parts.len()
                    invariant
                        i <= parts@.len(),
                        out@.len() == i,
                        forall|k: int|
                            0 <= k < i ==> mesh_draw(
                                self.textures@,
                                self.vertex_precision_workaround,
                                clip,
                                parts@[k],
                                #[trigger] out@[k],
                            ),
                    decreases parts@.len() - i,
                {
                    let d = self.paint_mesh(clip, &parts[i]);
                    out.push(d);
                    i = i + 1;
                }
                assert(parts_of(self.vertex_precision_workaround, &mesh, parts@));
                out
            },
        }
    }

    /// Applies each upload of `set` in order and reports each one's result.
    pub fn update_textures(&mut self, set: Vec<(TextureHandle, ImageDelta)>) -> (r: Vec<Result<(), PaintError>>)
        requires
            old(self).wf(),
        ensures
            final(self).wf(),
            final(self).vertex_precision_workaround == old(self).vertex_precision_workaround,
            final(self).textures@ == sets_spec(old(self).textures@, set@),
            r@.len() == set@.len(),
            forall|i: int|
                0 <= i < set@.len() ==> #[trigger] r@[i] == upload_result(
                    sets_spec(old(self).textures@, set@.subrange(0, i)),
                    set@[i].0,
                    set@[i].1@,
                ),
    {
        let ghost m0 = self.textures@;
        let ghost w0 = self.vertex_precision_workaround;
        let ghost sets = set@;
        let mut set = set;
        let mut uploads: Vec<Result<(), PaintError>> = Vec::new();
        let mut i: usize = 0;
        let n = set.len();
        while set.len() > 0
            invariant
                self.wf(),
                self.vertex_precision_workaround == w0,
                i <= n,
                n == sets.len(),
                set@ == sets.subrange(i as int, n as int),
                self.textures@ == sets_spec(m0, sets.subrange(0, i as int)),
                uploads@.len() == i,
                forall|k: int|
                    0 <= k < i ==> #[trigger] uploads@[k] == upload_result(
                        sets_spec(m0, sets.subrange(0, k)),
                        sets[k].0,
                        sets[k].1@,
                    ),
            decreases set@.len(),
        {
            let (h, d) = set.remove(0);
            proof {
                assert(sets.subrange(0, i + 1).drop_last() =~= sets.subrange(0, i as int));
                assert(sets[i as int] == (h, d));
            }
            let u = self.textures.upload(h, d);
            uploads.push(u);
            i = i + 1;
        }
        assert(sets.subrange(0, n as int) =~= sets);
        uploads
    }

    /// Turns the primitives, in order, into draw calls with the current textures;
    /// a mesh whose texture is missing gives `UnknownTexture` in its place.
    pub fn draw_primitives(&self, primitives: Vec<ClippedPrimitive>) -> (r: Vec<Result<DrawCommand, PaintError>>)
        requires
            forall|i: int| 0 <= i < primitives@.len() ==> (#[trigger] primitives@[i]).wf(),
        ensures
            exists|groups: Seq<Seq<Result<DrawCommand, PaintError>>>|
                #[trigger] concat(groups) == r@ && groups.len() == primitives@.len() && forall|i: int|
                    0 <= i < groups.len() ==> primitive_draws(
                        self.textures@,
                        self.vertex_precision_workaround,
                        primitives@[i],
                        #[trigger] groups[i],
                    ),
    {
        let mut draws: Vec<Result<DrawCommand, PaintError>> = Vec::new();
        let ghost mut groups: Seq<Seq<Result<DrawCommand, PaintError>>> = Seq::empty();
        let ghost prims = primitives@;
        let mut primitives = primitives;
        let np = primitives.len();
        let mut j: usize = 0;
        while primitives.len() > 0
            invariant
                j <= np,
                np == prims.len(),
                primitives@ == prims.subrange(j as int, np as int),
                forall|q: int| 0 <= q < prims.len() ==> (#[trigger] prims[q]).wf(),
                groups.len() == j,
                concat(groups) == draws@,
                forall|q: int|
                    0 <= q < j ==> primitive_draws(
                        self.textures@,
                        self.vertex_precision_workaround,
                        prims[q],
                        #[trigger] groups[q],
                    ),
            decreases primitives@.len(),
        {
            let p = primitives.remove(0);
            assert(p == prims[j as int]);
            let mut rs = self.paint_primitive(p);
            let ghost g = rs@;
            let ghost old_groups = groups;
            draws.append(&mut rs);
            proof {
                groups = groups.push(g);
                assert(groups.drop_last() =~= old_groups);
                assert forall|q: int| 0 <= q < j + 1 implies primitive_draws(
                    self.textures@,
                    self.vertex_precision_workaround,
                    prims[q],
                    #[trigger] groups[q],
                ) by {
                    if q < j {
                        assert(groups[q] == old_groups[q]);
                    }
                }
            }
            j = j + 1;
        }
        assert(concat(groups) == draws@ && groups.len() == prims.len());
        draws
    }

    /// Frees each texture of `free`, in order.
    pub fn free_textures(&mut self, free: &Vec<TextureHandle>)
        requires
            old(self).wf(),
        ensures
            final(self).wf(),
            final(self).vertex_precision_workaround == old(self).vertex_precision_workaround,
            final(self).textures@ == frees_spec(old(self).textures@, free@),
    {
        let ghost m1 = self.textures@;
        let ghost w0 = self.vertex_precision_workaround;
        let mut k: usize = 0;
        while k < free.len()
            invariant
                self.wf(),
                self.vertex_precision_workaround == w0,
                k <= free@.len(),
                self.textures@ == frees_spec(m1, free@.subrange(0, k as int)),
            decreases free@.len() - k,
        {
            self.textures.free(free[k]);
            proof {
                assert(free@.subrange(0, k + 1).drop_last() =~= free@.subrange(0, k as int));
            }
            k = k + 1;
        }
        assert(free@.subrange(0, k as int) =~= free@);
    }

    /// Paints one frame: applies every upload of `delta` in order, draws the
    /// primitives in order (later ones over earlier ones), then applies every free.
    /// A failed upload or a mesh whose texture is missing is reported in its
    /// place and the rest of the frame goes on.
    pub fn paint_and_update_textures(&mut self, primitives: Vec<ClippedPrimitive>, delta: TexturesDelta) -> (r:
        FrameOutput)
        requires
            old(self).wf(),
            forall|i: int| 0 <= i < primitives@.len() ==> (#[trigger] primitives@[i]).wf(),
        ensures
            final(self).wf(),
            final(self).vertex_precision_workaround == old(self).vertex_precision_workaround,
            final(self).textures@ == delta_spec(old(self).textures@, delta),
            r.uploads@.len() == delta.set@.len(),
            forall|i: int|
                0 <= i < delta.set@.len() ==> #[trigger] r.uploads@[i] == upload_result(
                    sets_spec(old(self).textures@, delta.set@.subrange(0, i)),
                    delta.set@[i].0,
                    delta.set@[i].1@,
                ),
            exists|groups: Seq<Seq<Result<DrawCommand, PaintError>>>|
                #[trigger] concat(groups) == r.draws@ && groups.len() == primitives@.len() && forall|i: int|
                    0 <= i < groups.len() ==> primitive_draws(
                        sets_spec(old(self).textures@, delta.set@),
                        old(self).vertex_precision_workaround,
                        primitives@[i],
                        #[trigger] groups[i],
                    ),
    {
        let TexturesDelta { set, free } = delta;
        let uploads = self.update_textures(set);
        let draws = self.draw_primitives(primitives);
        self.free_textures(&free);
        FrameOutput { uploads, draws }
    }
}

} // verus!
