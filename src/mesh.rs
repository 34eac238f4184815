use vstd::prelude::*;
use crate::color::{Color32, straight_spec};
use crate::texture::TextureHandle;

verus! {

/// Number of vertices that 16-bit indices can address.
pub const MAX_VERTICES: usize = 65536;

/// A mesh vertex. Positions and texture coordinates are the bit patterns of
/// 32-bit floats; the color is premultiplied.
#[derive(Clone, Copy, Debug, PartialEq, Eq, Structural)]
pub struct Vertex {
    pub pos_x: u32,
    pub pos_y: u32,
    pub uv_x: u32,
    pub uv_y: u32,
    pub color: Color32,
}

/// A triangle mesh with 32-bit indices.
#[derive(Clone, Debug)]
pub struct Mesh {
    pub indices: Vec<u32>,
    pub vertices: Vec<Vertex>,
    pub texture: TextureHandle,
}

/// A triangle mesh whose indices fit the backend's 16-bit index buffer.
#[derive(Clone, Debug)]
pub struct Mesh16 {
    pub indices: Vec<u16>,
    pub vertices: Vec<Vertex>,
    pub texture: TextureHandle,
}

impl Mesh {
    /// Every index names a vertex, and the indices form whole triangles.
    pub open spec fn wf(&self) -> bool {
        &&& self.indices@.len() % 3 == 0
        &&& forall|j: int| 0 <= j < self.indices@.len() ==> (#[trigger] self.indices@[j]) < self.vertices@.len()
    }

    /// No single triangle spans more vertex numbers than 16-bit indices can address.
    pub open spec fn triangles_fit(&self) -> bool {
        forall|j: int, i: int|
            0 <= j < self.indices@.len() && 0 <= i < self.indices@.len() && j / 3 == i / 3
                ==> #[trigger] self.indices@[j] < #[trigger] self.indices@[i] + MAX_VERTICES
    }
}

impl Mesh16 {
    /// Every index names one of the mesh's own vertices, of which there are
    /// no more than 16-bit indices can address.
    pub open spec fn wf(&self) -> bool {
        &&& self.vertices@.len() <= MAX_VERTICES
        &&& forall|j: int| 0 <= j < self.indices@.len() ==> (#[trigger] self.indices@[j] as int) < self.vertices@.len()
    }
}

/// Where the indices of run `k` start in the source mesh's index list.
pub open spec fn index_offset(runs: Seq<Mesh16>, k: int) -> int
    decreases k,
{
    if k <= 0 {
        0
    } else {
        index_offset(runs, k - 1) + runs[k - 1].indices@.len()
    }
}

/// `run` draws the indices of `mesh` from `start` on, over the contiguous
/// vertices of `mesh` from `base` on, renumbered from zero.
pub open spec fn run_of(mesh: &Mesh, run: Mesh16, start: int, base: int) -> bool {
    &&& run.wf()
    &&& run.texture == mesh.texture
    &&& 0 <= start && start + run.indices@.len() <= mesh.indices@.len()
    &&& 0 <= base && base + run.vertices@.len() <= mesh.vertices@.len()
    &&& run.vertices@ == mesh.vertices@.subrange(base, base + run.vertices@.len())
    &&& forall|j: int|
        0 <= j < run.indices@.len() ==> run.indices@[j] + base == #[trigger] mesh.indices@[start + j]
}

/// Run `k` of `runs` draws its share of `mesh`'s indices over some contiguous vertices.
pub open spec fn run_at(mesh: &Mesh, runs: Seq<Mesh16>, k: int) -> bool {
    exists|base: int| #[trigger] run_of(mesh, runs[k], index_offset(runs, k), base)
}

/// `runs` split `mesh` into consecutive runs that together draw every index once, in order;
/// a mesh that 16-bit indices can already address is kept whole.
pub open spec fn split_spec(mesh: &Mesh, runs: Seq<Mesh16>) -> bool {
    &&& forall|k: int| 0 <= k < runs.len() ==> #[trigger] run_at(mesh, runs, k)
    &&& index_offset(runs, runs.len() as int) == mesh.indices@.len()
    &&& mesh.vertices@.len() <= MAX_VERTICES ==> runs.len() == 1 && run_of(mesh, runs[0], 0, 0)
        && runs[0].vertices@ == mesh.vertices@
}

proof fn lemma_index_offset_push(runs: Seq<Mesh16>, run: Mesh16, k: int)
    requires
        0 <= k <= runs.len(),
    ensures
        index_offset(runs.push(run), k) == index_offset(runs, k),
    decreases k,
{
    if k > 0 {
        lemma_index_offset_push(runs, run, k - 1);
    }
}

/// A mesh whose indices reach further apart than 16-bit indices can address
/// is split into two runs or more.
pub proof fn lemma_wide_mesh_splits(mesh: &Mesh, runs: Seq<Mesh16>, i: int, j: int)
    requires
        split_spec(mesh, runs),
        0 <= i < mesh.indices@.len(),
        0 <= j < mesh.indices@.len(),
        mesh.indices@[i] >= mesh.indices@[j] + MAX_VERTICES,
    ensures
        runs.len() >= 2,
{
    if runs.len() == 0 {
        assert(index_offset(runs, 0) == 0);
    } else if runs.len() == 1 {
        assert(index_offset(runs, 1) == index_offset(runs, 0) + runs[0].indices@.len());
        assert(index_offset(runs, 0) == 0);
        assert(run_at(mesh, runs, 0));
        let base = choose|base: int| #[trigger] run_of(mesh, runs[0], index_offset(runs, 0), base);
        let run = runs[0];
        assert(run.indices@[i] + base == mesh.indices@[0 + i]);
        assert(run.indices@[j] + base == mesh.indices@[0 + j]);
        assert(run.indices@[i] < run.vertices@.len());
    }
}

/// The vertices `lo..=hi` of `mesh` and its indices `start..end`, renumbered from `lo`.
fn make_run(mesh: &Mesh, start: usize, end: usize, lo: u32, hi: u32) -> (r: Mesh16)
    requires
        start <= end <= mesh.indices@.len(),
        lo <= hi < mesh.vertices@.len(),
        hi - lo < MAX_VERTICES,
        forall|j: int| start <= j < end ==> lo <= #[trigger] mesh.indices@[j] <= hi,
    ensures
        run_of(mesh, r, start as int, lo as int),
        r.vertices@.len() == hi - lo + 1,
        r.indices@.len() == end - start,
{
    let mut vertices: Vec<Vertex> = Vec::new();
    let total = mesh.vertices.len();
    let mut v: usize = lo as usize;
    while v <= hi as usize
        invariant
            total == mesh.vertices@.len(),
            lo <= v <= hi + 1,
            hi < mesh.vertices@.len(),
            vertices@ == mesh.vertices@.subrange(lo as int, v as int),
        decreases hi + 1 - v,
    {
        vertices.push(mesh.vertices[v]);
        v = v + 1;
        assert(vertices@ =~= mesh.vertices@.subrange(lo as int, v as int));
    }
    let mut indices: Vec<u16> = Vec::new();
    let mut j: usize = start;
    while j < end
        invariant
            start <= j <= end,
            end <= mesh.indices@.len(),
            indices@.len() == j - start,
            forall|q: int| start <= q < end ==> lo <= #[trigger] mesh.indices@[q] <= hi,
            hi - lo < MAX_VERTICES,
            forall|q: int| 0 <= q < indices@.len() ==> #[trigger] indices@[q] + lo == mesh.indices@[start + q],
        decreases end - j,
    {
        let idx = mesh.indices[j];
        assert(lo <= mesh.indices@[j as int] <= hi);
        indices.push((idx - lo) as u16);
        j = j + 1;
    }
    let r = Mesh16 { indices, vertices, texture: mesh.texture };
    assert forall|q: int| 0 <= q < r.indices@.len() implies (#[trigger] r.indices@[q] as int) < r.vertices@.len() by {
        assert(r.indices@[q] + lo == mesh.indices@[start + q]);
        assert(lo <= mesh.indices@[start + q] <= hi);
    }
    r
}

/// Splits a mesh into runs that 16-bit indices can address. A mesh with few
/// enough vertices stays whole; a larger one is cut, triangle by triangle, into
/// maximal runs of triangles whose vertex numbers span no more than that.
pub fn split_to_u16(mesh: &Mesh) -> (r: Vec<Mesh16>)
    requires
        mesh.wf(),
        mesh.triangles_fit(),
    ensures
        split_spec(mesh, r@),
{
    let nv = mesh.vertices.len();
    let n = mesh.indices.len();
    if nv <= MAX_VERTICES {
        if nv == 0 {
            let run = Mesh16 { indices: Vec::new(), vertices: Vec::new(), texture: mesh.texture };
            assert(mesh.indices@.len() == 0) by {
                if mesh.indices@.len() > 0 {
                    assert(mesh.indices@[0] < mesh.vertices@.len());
                }
            }
            assert(run.vertices@ =~= mesh.vertices@);
            assert(mesh.vertices@.subrange(0, 0) =~= run.vertices@);
            assert(run_of(mesh, run, 0, 0));
            let r = vec![run];
            assert(run_of(mesh, r@[0], index_offset(r@, 0), 0));
            assert(index_offset(r@, 1) == index_offset(r@, 0) + r@[0].indices@.len());
            return r;
        }
        let run = make_run(mesh, 0, n, 0, (nv - 1) as u32);
        assert(run.vertices@ =~= mesh.vertices@);
        let r = vec![run];
        assert(index_offset(r@, 1) == index_offset(r@, 0) + r@[0].indices@.len());
        assert(run_of(mesh, r@[0], index_offset(r@, 0), 0));
        return r;
    }
    let mut out: Vec<Mesh16> = Vec::new();
    let mut cursor: usize = 0;
    while cursor < n
        invariant
            mesh.wf(),
            mesh.triangles_fit(),
            n == mesh.indices@.len(),
            nv == mesh.vertices@.len(),
            nv > MAX_VERTICES,
            cursor <= n,
            cursor % 3 == 0,
            index_offset(out@, out@.len() as int) == cursor,
            forall|k: int| 0 <= k < out@.len() ==> #[trigger] run_at(mesh, out@, k),
        decreases n - cursor,
    {
        let start = cursor;
        let mut lo = mesh.indices[cursor];
        let mut hi = lo;
        let mut grow = true;
        while grow && cursor < n
            invariant
                mesh.wf(),
                mesh.triangles_fit(),
                n == mesh.indices@.len(),
                nv == mesh.vertices@.len(),
                start <= cursor <= n,
                start < n,
                cursor % 3 == 0,
                start % 3 == 0,
                lo <= hi < nv,
                hi - lo < MAX_VERTICES,
                forall|j: int| start <= j < cursor ==> lo <= #[trigger] mesh.indices@[j] <= hi,
                cursor == start ==> lo == hi && lo == mesh.indices@[start as int],
                !grow ==> cursor > start,
            decreases n - cursor + (if grow { 1int } else { 0int }),
        {
            assert(cursor + 3 <= n);
            let a = mesh.indices[cursor];
            let b = mesh.indices[cursor + 1];
            let c = mesh.indices[cursor + 2];
            let mut nlo = lo;
            let mut nhi = hi;
            if a < nlo { nlo = a; }
            if b < nlo { nlo = b; }
            if c < nlo { nlo = c; }
            if a > nhi { nhi = a; }
            if b > nhi { nhi = b; }
            if c > nhi { nhi = c; }
            proof {
                assert(mesh.indices@[cursor as int] < mesh.vertices@.len());
                assert(mesh.indices@[cursor + 1] < mesh.vertices@.len());
                assert(mesh.indices@[cursor + 2] < mesh.vertices@.len());
                if cursor == start {
                    let t = cursor as int;
                    assert(t / 3 == (t + 1) / 3 && t / 3 == (t + 2) / 3);
                    assert(mesh.indices@[t] < mesh.indices@[t + 1] + MAX_VERTICES);
                    assert(mesh.indices@[t] < mesh.indices@[t + 2] + MAX_VERTICES);
                    assert(mesh.indices@[t + 1] < mesh.indices@[t] + MAX_VERTICES);
                    assert(mesh.indices@[t + 2] < mesh.indices@[t] + MAX_VERTICES);
                    assert(mesh.indices@[t + 1] < mesh.indices@[t + 2] + MAX_VERTICES);
                    assert(mesh.indices@[t + 2] < mesh.indices@[t + 1] + MAX_VERTICES);
                }
            }
            if nhi - nlo < MAX_VERTICES as u32 {
                lo = nlo;
                hi = nhi;
                cursor = cursor + 3;
            } else {
                grow = false;
            }
        }
        let run = make_run(mesh, start, cursor, lo, hi);
        let ghost before = out@;
        out.push(run);
        proof {
            assert(out@.drop_last() == before);
            lemma_index_offset_push(before, run, before.len() as int);
            assert(index_offset(out@, out@.len() as int) == index_offset(out@, before.len() as int) + run.indices@.len());
            assert forall|k: int| 0 <= k < out@.len() implies #[trigger] run_at(mesh, out@, k) by {
                if k < before.len() {
                    lemma_index_offset_push(before, run, k);
                    assert(out@[k] == before[k]);
                    assert(run_at(mesh, before, k));
                } else {
                    assert(run_of(mesh, out@[k], index_offset(out@, k), lo as int));
                }
            }
        }
    }
    out
}

/// The 32-bit float with bit pattern `b` is not a number.
pub open spec fn is_nan_bits(b: u32) -> bool {
    (b & 0x7f80_0000u32) == 0x7f80_0000u32 && (b & 0x007f_ffffu32) != 0
}

/// The 32-bit float with bit pattern `b` equals zero (of either sign).
pub open spec fn is_zero_bits(b: u32) -> bool {
    (b & 0x7fff_ffffu32) == 0
}

/// The vertex's texture coordinate is exactly (0, 0).
pub open spec fn uv_zero(v: Vertex) -> bool {
    is_zero_bits(v.uv_x) && is_zero_bits(v.uv_y)
}

/// The vertex as the backend takes it: a position with a NaN component moves
/// to the origin, and the color is converted to straight alpha.
pub open spec fn backend_vertex_spec(v: Vertex) -> Vertex {
    Vertex {
        pos_x: if is_nan_bits(v.pos_x) || is_nan_bits(v.pos_y) { 0 } else { v.pos_x },
        pos_y: if is_nan_bits(v.pos_x) || is_nan_bits(v.pos_y) { 0 } else { v.pos_y },
        uv_x: v.uv_x,
        uv_y: v.uv_y,
        color: straight_spec(v.color),
    }
}

pub fn is_nan_bits_exec(b: u32) -> (r: bool)
    ensures
        r == is_nan_bits(b),
{
    (b & 0x7f80_0000u32) == 0x7f80_0000u32 && (b & 0x007f_ffffu32) != 0
}

pub fn uv_zero_exec(v: &Vertex) -> (r: bool)
    ensures
        r == uv_zero(*v),
{
    (v.uv_x & 0x7fff_ffffu32) == 0 && (v.uv_y & 0x7fff_ffffu32) == 0
}

impl Vertex {
    pub fn to_backend(&self) -> (r: Vertex)
        ensures
            r == backend_vertex_spec(*self),
    {
        let nan = is_nan_bits_exec(self.pos_x) || is_nan_bits_exec(self.pos_y);
        Vertex {
            pos_x: if nan { 0 } else { self.pos_x },
            pos_y: if nan { 0 } else { self.pos_y },
            uv_x: self.uv_x,
            uv_y: self.uv_y,
            color: self.color.to_straight(),
        }
    }
}

impl Mesh16 {
    /// The mesh with every vertex converted for the backend; indices and texture are kept.
    pub fn to_backend(&self) -> (r: Mesh16)
        ensures
            r.indices@ == self.indices@,
            r.texture == self.texture,
            r.vertices@.len() == self.vertices@.len(),
            forall|i: int| 0 <= i < r.vertices@.len() ==> #[trigger] r.vertices@[i] == backend_vertex_spec(self.vertices@[i]),
    {
        let mut vertices: Vec<Vertex> = Vec::new();
        let mut i: usize = 0;
        while i < self.vertices.len()
            invariant
                i <= self.vertices@.len(),
                vertices@.len() == i,
                forall|k: int| 0 <= k < i ==> #[trigger] vertices@[k] == backend_vertex_spec(self.vertices@[k]),
            decreases self.vertices@.len() - i,
        {
            vertices.push(self.vertices[i].to_backend());
            i = i + 1;
        }
        let mut indices: Vec<u16> = Vec::new();
        let mut j: usize = 0;
        while j < self.indices.len()
            invariant
                j <= self.indices@.len(),
                indices@ == self.indices@.subrange(0, j as int),
            decreases self.indices@.len() - j,
        {
            indices.push(self.indices[j]);
            j = j + 1;
            assert(indices@ =~= self.indices@.subrange(0, j as int));
        }
        assert(indices@ =~= self.indices@);
        Mesh16 { indices, vertices, texture: self.texture }
    }
}

/// The vertices that a mesh's indices name, in index order.
pub open spec fn expanded(mesh: &Mesh16) -> Seq<Vertex> {
    Seq::new(mesh.indices@.len(), |j: int| mesh.vertices@[mesh.indices@[j] as int])
}

/// Where the vertices of part `k` start in the expanded vertex list.
pub open spec fn vertex_offset(parts: Seq<Mesh16>, k: int) -> int
    decreases k,
{
    if k <= 0 {
        0
    } else {
        vertex_offset(parts, k - 1) + parts[k - 1].vertices@.len()
    }
}

/// `part` lists, without sharing, the expanded vertices of `mesh` from `off` on,
/// all on the same side of the zero texture coordinate.
pub open spec fn uv_part(mesh: &Mesh16, part: Mesh16, off: int) -> bool {
    &&& part.texture == mesh.texture
    &&& part.vertices@.len() <= MAX_VERTICES
    &&& part.indices@.len() == part.vertices@.len()
    &&& forall|q: int| 0 <= q < part.indices@.len() ==> #[trigger] part.indices@[q] == q
    &&& 0 <= off && off + part.vertices@.len() <= mesh.indices@.len()
    &&& forall|q: int| 0 <= q < part.vertices@.len() ==> #[trigger] part.vertices@[q] == expanded(mesh)[off + q]
    &&& forall|q: int| 0 <= q < part.vertices@.len() ==> uv_zero(#[trigger] part.vertices@[q]) == uv_zero(part.vertices@[0])
}

/// `parts` cut the expanded vertices of `mesh` into maximal runs of equal
/// zero-texture-coordinate status, each within the 16-bit index range.
pub open spec fn uv_split_spec(mesh: &Mesh16, parts: Seq<Mesh16>) -> bool {
    &&& parts.len() >= 1
    &&& forall|k: int| 0 <= k < parts.len() ==> #[trigger] uv_part(mesh, parts[k], vertex_offset(parts, k))
    &&& vertex_offset(parts, parts.len() as int) == mesh.indices@.len()
    &&& mesh.indices@.len() > 0 ==> forall|k: int| 0 <= k < parts.len() ==> (#[trigger] parts[k]).vertices@.len() > 0
    &&& forall|k: int|
        0 <= k < parts.len() - 1 ==> (#[trigger] parts[k]).vertices@.len() == MAX_VERTICES || uv_zero(
            parts[k + 1].vertices@[0],
        ) != uv_zero(parts[k].vertices@[0])
}

proof fn lemma_vertex_offset_push(parts: Seq<Mesh16>, part: Mesh16, k: int)
    requires
        0 <= k <= parts.len(),
    ensures
        vertex_offset(parts.push(part), k) == vertex_offset(parts, k),
    decreases k,
{
    if k > 0 {
        lemma_vertex_offset_push(parts, part, k - 1);
    }
}

/// Cuts a mesh into parts whose vertices all have, or all lack, the zero
/// texture coordinate, so each part can be drawn with the texture or with plain white.
/// Each part lists its vertices in index order and numbers them 0, 1, 2, ...
pub fn split_texture_meshes(mesh: &Mesh16) -> (r: Vec<Mesh16>)
    requires
        mesh.wf(),
    ensures
        uv_split_spec(mesh, r@),
{
    let n = mesh.indices.len();
    let mut out: Vec<Mesh16> = Vec::new();
    let mut cur_v: Vec<Vertex> = Vec::new();
    let mut cur_i: Vec<u16> = Vec::new();
    let mut cur_zero = false;
    let mut j: usize = 0;
    while j < n
        invariant
            mesh.wf(),
            n == mesh.indices@.len(),
            j <= n,
            vertex_offset(out@, out@.len() as int) + cur_v@.len() == j,
            forall|k: int| 0 <= k < out@.len() ==> #[trigger] uv_part(mesh, out@[k], vertex_offset(out@, k)),
            forall|k: int| 0 <= k < out@.len() ==> (#[trigger] out@[k]).vertices@.len() > 0,
            forall|k: int|
                0 <= k < out@.len() - 1 ==> (#[trigger] out@[k]).vertices@.len() == MAX_VERTICES || uv_zero(
                    out@[k + 1].vertices@[0],
                ) != uv_zero(out@[k].vertices@[0]),
            out@.len() > 0 ==> cur_v@.len() > 0 && (out@.last().vertices@.len() == MAX_VERTICES || uv_zero(
                out@.last().vertices@[0],
            ) != cur_zero),
            uv_part(mesh, Mesh16 { indices: cur_i, vertices: cur_v, texture: mesh.texture }, vertex_offset(out@, out@.len() as int)),
            cur_v@.len() > 0 ==> uv_zero(cur_v@[0]) == cur_zero,
        decreases n - j,
    {
        let idx = mesh.indices[j] as usize;
        let v = mesh.vertices[idx];
        let z = uv_zero_exec(&v);
        if cur_v.len() > 0 && (z != cur_zero || cur_v.len() == MAX_VERTICES) {
            let mut done_v: Vec<Vertex> = Vec::new();
            let mut done_i: Vec<u16> = Vec::new();
            std::mem::swap(&mut done_v, &mut cur_v);
            std::mem::swap(&mut done_i, &mut cur_i);
            let part = Mesh16 { indices: done_i, vertices: done_v, texture: mesh.texture };
            let ghost before = out@;
            out.push(part);
            proof {
                assert(out@.drop_last() == before);
                lemma_vertex_offset_push(before, part, before.len() as int);
                assert forall|k: int| 0 <= k < out@.len() implies #[trigger] uv_part(mesh, out@[k], vertex_offset(out@, k)) by {
                    lemma_vertex_offset_push(before, part, k);
                    if k < before.len() {
                        assert(out@[k] == before[k]);
                    }
                }
                assert forall|k: int| 0 <= k < out@.len() - 1 implies (#[trigger] out@[k]).vertices@.len() == MAX_VERTICES || uv_zero(
                    out@[k + 1].vertices@[0],
                ) != uv_zero(out@[k].vertices@[0]) by {
                    if k < before.len() - 1 {
                        assert(out@[k] == before[k]);
                        assert(out@[k + 1] == before[k + 1]);
                    } else {
                        assert(out@[k] == before.last());
                        assert(out@[k + 1] == part);
                    }
                }
                assert(vertex_offset(out@, out@.len() as int) == vertex_offset(out@, before.len() as int) + part.vertices@.len());
            }
        }
        if cur_v.len() == 0 {
            cur_zero = z;
        }
        let ghost off = vertex_offset(out@, out@.len() as int);
        let ghost prev_v = cur_v@;
        let ghost prev_i = cur_i@;
        cur_i.push(cur_v.len() as u16);
        cur_v.push(v);
        proof {
            assert(expanded(mesh)[j as int] == v);
            assert(off + prev_v.len() == j);
            let cur = Mesh16 { indices: cur_i, vertices: cur_v, texture: mesh.texture };
            assert forall|q: int| 0 <= q < cur.vertices@.len() implies #[trigger] cur.vertices@[q] == expanded(mesh)[off + q] by {
                if q < prev_v.len() {
                    assert(cur.vertices@[q] == prev_v[q]);
                }
            }
            assert forall|q: int| 0 <= q < cur.indices@.len() implies #[trigger] cur.indices@[q] == q by {
                if q < prev_i.len() {
                    assert(cur.indices@[q] == prev_i[q]);
                }
            }
            assert forall|q: int| 0 <= q < cur.vertices@.len() implies uv_zero(#[trigger] cur.vertices@[q]) == uv_zero(cur.vertices@[0]) by {
                if q < prev_v.len() {
                    assert(cur.vertices@[q] == prev_v[q]);
                }
            }
            assert(uv_part(mesh, cur, off));
        }
        j = j + 1;
    }
    let part = Mesh16 { indices: cur_i, vertices: cur_v, texture: mesh.texture };
    let ghost before = out@;
    out.push(part);
    proof {
        assert(out@.drop_last() == before);
        lemma_vertex_offset_push(before, part, before.len() as int);
        assert forall|k: int| 0 <= k < out@.len() implies #[trigger] uv_part(mesh, out@[k], vertex_offset(out@, k)) by {
            lemma_vertex_offset_push(before, part, k);
            if k < before.len() {
                assert(out@[k] == before[k]);
            }
        }
        assert forall|k: int| 0 <= k < out@.len() - 1 implies (#[trigger] out@[k]).vertices@.len() == MAX_VERTICES || uv_zero(
            out@[k + 1].vertices@[0],
        ) != uv_zero(out@[k].vertices@[0]) by {
            if k < before.len() - 1 {
                assert(out@[k] == before[k]);
                assert(out@[k + 1] == before[k + 1]);
            } else {
                assert(out@[k] == before.last());
                assert(out@[k + 1] == part);
            }
        }
        assert(vertex_offset(out@, out@.len() as int) == vertex_offset(out@, before.len() as int) + part.vertices@.len());
        if n > 0 {
            assert forall|k: int| 0 <= k < out@.len() implies (#[trigger] out@[k]).vertices@.len() > 0 by {
                if k < before.len() {
                    assert(out@[k] == before[k]);
                }
            }
        }
    }
    out
}

} // verus!
