//! Triangle meshes. Coordinates are 32-bit IEEE-754 numbers held by their bit
//! patterns; the mesh operations here only move, copy and negate them.
use vstd::prelude::*;

verus! {

/// Errors of geometry operations.
#[derive(Debug)]
pub enum GeometryError {
    InvalidParameter(String),
    BooleanFailed(String),
    TessellationFailed(String),
    FilletFailed(String),
    SketchError(String),
    EmptyGeometry,
    TopologyError(String),
}

/// Boolean operations between solids.
#[derive(Debug, Clone, Copy, PartialEq, Eq, Structural)]
pub enum BooleanOp {
    /// Add two solids.
    Union,
    /// Remove the second solid from the first.
    Subtract,
    /// Keep what both solids share.
    Intersect,
}

/// The bit pattern of `-x` for the 32-bit float with bit pattern `x`.
pub open spec fn negated(x: u32) -> u32 {
    x ^ 0x8000_0000u32
}

/// Mesh data for rendering.
#[derive(Debug, Clone)]
pub struct Mesh {
    /// Vertex positions, x y z per vertex (bit patterns).
    pub positions: Vec<u32>,
    /// Vertex normals, x y z per vertex (bit patterns).
    pub normals: Vec<u32>,
    /// Triangle vertex indices, three per triangle.
    pub indices: Vec<u32>,
    /// Texture coordinates, u v per vertex (bit patterns).
    pub uvs: Option<Vec<u32>>,
    /// Vertex colors, r g b a per vertex (bit patterns).
    pub colors: Option<Vec<u32>>,
}

/// The vertex count of a mesh with `n` position components.
pub open spec fn vertex_count_of(n: nat) -> nat {
    n / 3
}

/// The normals of a mesh, negated, with the last two vertices of every
/// triangle swapped.
pub open spec fn flipped_indices(ix: Seq<u32>) -> Seq<u32> {
    Seq::new(
        ix.len(),
        |i: int|
            if i < 3 * (ix.len() / 3) && i % 3 == 1 {
                ix[i + 1]
            } else if i < 3 * (ix.len() / 3) && i % 3 == 2 {
                ix[i - 1]
            } else {
                ix[i]
            },
    )
}

/// The indices of `other` shifted by `offset`.
pub open spec fn shifted(ix: Seq<u32>, offset: int) -> Seq<u32> {
    ix.map_values(|i: u32| (i + offset) as u32)
}

/// Whether every index of `ix` stays below `u32::MAX + 1` when shifted by `offset`.
pub open spec fn fits_shift(ix: Seq<u32>, offset: int) -> bool {
    forall|i: int| 0 <= i < ix.len() ==> #[trigger] ix[i] + offset <= u32::MAX
}

impl Mesh {
    /// An empty mesh.
    pub fn new() -> (m: Mesh)
        ensures
            m.positions@.len() == 0,
            m.normals@.len() == 0,
            m.indices@.len() == 0,
            m.uvs is None,
            m.colors is None,
    {
        Mesh { positions: Vec::new(), normals: Vec::new(), indices: Vec::new(), uvs: None, colors: None }
    }

    /// Number of vertices: a third of the position components.
    pub fn vertex_count(&self) -> (n: usize)
        ensures
            n == self.positions@.len() / 3,
    {
        self.positions.len() / 3
    }

    /// Number of triangles: a third of the indices.
    pub fn triangle_count(&self) -> (n: usize)
        ensures
            n == self.indices@.len() / 3,
    {
        self.indices.len() / 3
    }

    /// Whether the mesh has no positions.
    pub fn is_empty(&self) -> (b: bool)
        ensures
            b == (self.positions@.len() == 0),
    {
        self.positions.len() == 0
    }

    /// Appends `other`: its vertex data follows this mesh's, and its indices
    /// are shifted past this mesh's vertices. Texture coordinates and colors are
    /// appended only when both meshes have them.
    pub fn merge(&mut self, other: &Mesh)
        requires
            fits_shift(other.indices@, ((old(self).positions@.len() / 3) as u32) as int),
        ensures
            final(self).positions@ == old(self).positions@ + other.positions@,
            final(self).normals@ == old(self).normals@ + other.normals@,
            final(self).indices@ == old(self).indices@ + shifted(
                other.indices@,
                ((old(self).positions@.len() / 3) as u32) as int,
            ),
            match (old(self).uvs, other.uvs) {
                (Some(a), Some(b)) => final(self).uvs matches Some(c) && c@ == a@ + b@,
                _ => final(self).uvs == old(self).uvs,
            },
            match (old(self).colors, other.colors) {
                (Some(a), Some(b)) => final(self).colors matches Some(c) && c@ == a@ + b@,
                _ => final(self).colors == old(self).colors,
            },
    {
        let vertex_offset = (self.vertex_count()) as u32;
        append_all(&mut self.positions, &other.positions);
        append_all(&mut self.normals, &other.normals);
        let ghost before = self.indices@;
        let ghost pos = self.positions@;
        let ghost nor = self.normals@;
        let ghost uv0 = self.uvs;
        let ghost col0 = self.colors;
        let mut i: usize = 0;
        while i < other.indices.len()
            invariant
                pos == old(self).positions@ + other.positions@,
                nor == old(self).normals@ + other.normals@,
                self.positions@ == pos,
                self.normals@ == nor,
                self.uvs == uv0,
                self.colors == col0,
                uv0 == old(self).uvs,
                col0 == old(self).colors,
                vertex_offset == ((old(self).positions@.len() / 3) as u32),
                before == old(self).indices@,
                i <= other.indices@.len(),
                fits_shift(other.indices@, vertex_offset as int),
                self.indices@ == before + shifted(other.indices@.take(i as int), vertex_offset as int),
            decreases other.indices@.len() - i,
        {
            let ix = other.indices[i];
            self.indices.push(ix + vertex_offset);
            assert(shifted(other.indices@.take(i + 1), vertex_offset as int) =~= shifted(
                other.indices@.take(i as int),
                vertex_offset as int,
            ).push((ix + vertex_offset) as u32));
            i = i + 1;
        }
        assert(other.indices@.take(i as int) =~= other.indices@);
        match (self.uvs.take(), &other.uvs) {
            (Some(mut a), Some(b)) => {
                append_all(&mut a, b);
                self.uvs = Some(a);
            },
            (a, _) => {
                self.uvs = a;
            },
        }
        match (self.colors.take(), &other.colors) {
            (Some(mut a), Some(b)) => {
                append_all(&mut a, b);
                self.colors = Some(a);
            },
            (a, _) => {
                self.colors = a;
            },
        }
    }

    /// Reverses the orientation: every normal is negated and the winding of
    /// every triangle is reversed.
    pub fn flip_normals(&mut self)
        ensures
            final(self).normals@ == old(self).normals@.map_values(|x: u32| negated(x)),
            final(self).indices@ == flipped_indices(old(self).indices@),
            final(self).positions == old(self).positions,
            final(self).uvs == old(self).uvs,
            final(self).colors == old(self).colors,
    {
        let ghost n0 = self.normals@;
        let ghost ix0 = self.indices@;
        let mut i: usize = 0;
        while i < self.normals.len()
            invariant
                n0 == old(self).normals@,
                ix0 == old(self).indices@,
                self.indices@ == ix0,
                self.positions == old(self).positions,
                self.uvs == old(self).uvs,
                self.colors == old(self).colors,
                i <= n0.len(),
                self.normals@.len() == n0.len(),
                forall|k: int| 0 <= k < i ==> #[trigger] self.normals@[k] == negated(n0[k]),
                forall|k: int| i <= k < n0.len() ==> #[trigger] self.normals@[k] == n0[k],
            decreases n0.len() - i,
        {
            let x = self.normals[i];
            self.normals.set(i, x ^ 0x8000_0000u32);
            i = i + 1;
        }
        assert(self.normals@ =~= n0.map_values(|x: u32| negated(x)));
        let ghost nf = self.normals@;
        let tcount = self.triangle_count();
        let total = self.indices.len();
        let mut t: usize = 0;
        while t < tcount
            invariant
                ix0 == old(self).indices@,
                nf == old(self).normals@.map_values(|x: u32| negated(x)),
                self.normals@ == nf,
                self.positions == old(self).positions,
                self.uvs == old(self).uvs,
                self.colors == old(self).colors,
                tcount == ix0.len() / 3,
                total == ix0.len(),
                t <= tcount,
                self.indices@.len() == ix0.len(),
                forall|k: int| 0 <= k < 3 * t ==> #[trigger] self.indices@[k] == flipped_indices(ix0)[k],
                forall|k: int| 3 * t <= k < ix0.len() ==> #[trigger] self.indices@[k] == ix0[k],
            decreases tcount - t,
        {
            assert(3 * t + 3 <= ix0.len()) by (nonlinear_arith)
                requires
                    t < ix0.len() / 3,
            ;
            let idx = t * 3;
            let a = self.indices[idx + 1];
            let b = self.indices[idx + 2];
            self.indices.set(idx + 1, b);
            self.indices.set(idx + 2, a);
            proof {
                assert forall|k: int| 0 <= k < 3 * t + 3 implies #[trigger] self.indices@[k] == flipped_indices(ix0)[k] by {
                    if k >= 3 * t {
                        assert(k / 3 == t as int);
                    }
                }
            }
            t = t + 1;
        }
        assert(self.indices@ =~= flipped_indices(ix0));
    }
}

/// Appends a copy of every element of `src` to `dst`.
fn append_all(dst: &mut Vec<u32>, src: &Vec<u32>)
    ensures
        final(dst)@ == old(dst)@ + src@,
{
    let mut i: usize = 0;
    while i < src.len()
        invariant
            i <= src@.len(),
            dst@ == old(dst)@ + src@.take(i as int),
        decreases src@.len() - i,
    {
        dst.push(src[i]);
        assert(old(dst)@ + src@.take(i + 1) =~= (old(dst)@ + src@.take(i as int)).push(src@[i as int]));
        i = i + 1;
    }
    assert(src@.take(i as int) =~= src@);
}

/// Flipping twice gives back the same normals and triangles.
pub proof fn law_flip_twice_restores(normals: Seq<u32>, indices: Seq<u32>)
    ensures
        normals.map_values(|x: u32| negated(x)).map_values(|x: u32| negated(x)) == normals,
        flipped_indices(flipped_indices(indices)) == indices,
{
    assert forall|k: int| 0 <= k < normals.len() implies normals.map_values(|x: u32| negated(x)).map_values(
        |x: u32| negated(x),
    )[k] == normals[k] by {
        let x = normals[k];
        assert((x ^ 0x8000_0000u32) ^ 0x8000_0000u32 == x) by (bit_vector);
    }
    assert(normals.map_values(|x: u32| negated(x)).map_values(|x: u32| negated(x)) =~= normals);
    assert(flipped_indices(flipped_indices(indices)) =~= indices);
}

/// Merging adds up the vertices and the triangles.
pub proof fn law_merge_counts(a_positions: Seq<u32>, b_positions: Seq<u32>, a_indices: Seq<u32>, b_indices: Seq<u32>, offset: int)
    requires
        a_positions.len() % 3 == 0,
        a_indices.len() % 3 == 0,
    ensures
        vertex_count_of((a_positions + b_positions).len()) == vertex_count_of(a_positions.len())
            + vertex_count_of(b_positions.len()),
        (a_indices + shifted(b_indices, offset)).len() / 3 == a_indices.len() / 3 + b_indices.len() / 3,
{
}

/// All position components of `ms`, mesh after mesh.
pub open spec fn all_positions(ms: Seq<Mesh>) -> Seq<u32>
    decreases ms.len(),
{
    if ms.len() == 0 {
        Seq::empty()
    } else {
        all_positions(ms.drop_last()) + ms.last().positions@
    }
}

/// All normal components of `ms`, mesh after mesh.
pub open spec fn all_normals(ms: Seq<Mesh>) -> Seq<u32>
    decreases ms.len(),
{
    if ms.len() == 0 {
        Seq::empty()
    } else {
        all_normals(ms.drop_last()) + ms.last().normals@
    }
}

/// The index offset of the mesh that follows `ms`: the vertices before it, as a `u32`.
pub open spec fn base_after(ms: Seq<Mesh>) -> int {
    ((all_positions(ms).len() / 3) as u32) as int
}

/// All indices of `ms`, each mesh's shifted past the vertices before it.
pub open spec fn all_indices(ms: Seq<Mesh>) -> Seq<u32>
    decreases ms.len(),
{
    if ms.len() == 0 {
        Seq::empty()
    } else {
        all_indices(ms.drop_last()) + shifted(ms.last().indices@, base_after(ms.drop_last()))
    }
}

/// Whether no shifted index of `ms` overflows a `u32`.
pub open spec fn merge_fits(ms: Seq<Mesh>) -> bool {
    forall|k: int| 0 <= k < ms.len() ==> fits_shift(#[trigger] ms[k].indices@, base_after(ms.take(k)))
}

/// The merged mesh data of an import.
#[derive(Debug)]
pub struct ImportResponse {
    pub success: bool,
    pub message: String,
    /// Positions, x y z per vertex (bit patterns).
    pub positions: Vec<u32>,
    /// Normals, x y z per vertex (bit patterns).
    pub normals: Vec<u32>,
    pub indices: Vec<u32>,
    pub vertex_count: usize,
    pub triangle_count: usize,
}

impl ImportResponse {
    /// A failed import with the given message and no data.
    pub fn error(message: &str) -> (r: ImportResponse)
        ensures
            !r.success,
            r.message@ == message@,
            r.positions@.len() == 0,
            r.normals@.len() == 0,
            r.indices@.len() == 0,
            r.vertex_count == 0,
            r.triangle_count == 0,
    {
        ImportResponse {
            success: false,
            message: String::from_str(message),
            positions: Vec::new(),
            normals: Vec::new(),
            indices: Vec::new(),
            vertex_count: 0,
            triangle_count: 0,
        }
    }
}

/// Merges meshes into one response: data concatenated, each mesh's indices
/// shifted past the vertices of the meshes before it.
pub fn merge_meshes(meshes: &[Mesh]) -> (r: ImportResponse)
    requires
        merge_fits(meshes@),
    ensures
        r.success,
        r.message@ == "imported"@,
        r.positions@ == all_positions(meshes@),
        r.normals@ == all_normals(meshes@),
        r.indices@ == all_indices(meshes@),
        r.vertex_count == all_positions(meshes@).len() / 3,
        r.triangle_count == all_indices(meshes@).len() / 3,
{
    let mut positions: Vec<u32> = Vec::new();
    let mut normals: Vec<u32> = Vec::new();
    let mut indices: Vec<u32> = Vec::new();
    let mut k: usize = 0;
    while k < meshes.len()
        invariant
            k <= meshes@.len(),
            merge_fits(meshes@),
            positions@ == all_positions(meshes@.take(k as int)),
            normals@ == all_normals(meshes@.take(k as int)),
            indices@ == all_indices(meshes@.take(k as int)),
        decreases meshes@.len() - k,
    {
        let mesh = &meshes[k];
        let base = (positions.len() / 3) as u32;
        proof {
            assert(meshes@.take(k + 1).drop_last() =~= meshes@.take(k as int));
            assert(meshes@.take(k + 1).last() == meshes@[k as int]);
            assert(fits_shift(meshes@[k as int].indices@, base_after(meshes@.take(k as int))));
        }
        append_all(&mut positions, &mesh.positions);
        append_all(&mut normals, &mesh.normals);
        let ghost before = indices@;
        let mut i: usize = 0;
        while i < mesh.indices.len()
            invariant
                i <= mesh.indices@.len(),
                fits_shift(mesh.indices@, base as int),
                indices@ == before + shifted(mesh.indices@.take(i as int), base as int),
            decreases mesh.indices@.len() - i,
        {
            let ix = mesh.indices[i];
            indices.push(ix + base);
            assert(shifted(mesh.indices@.take(i + 1), base as int) =~= shifted(mesh.indices@.take(i as int), base as int).push(
                (ix + base) as u32,
            ));
            i = i + 1;
        }
        assert(mesh.indices@.take(i as int) =~= mesh.indices@);
        k = k + 1;
    }
    assert(meshes@.take(k as int) =~= meshes@);
    let vertex_count = positions.len() / 3;
    let triangle_count = indices.len() / 3;
    ImportResponse {
        success: true,
        message: String::from_str("imported"),
        positions,
        normals,
        indices,
        vertex_count,
        triangle_count,
    }
}

} // verus!
