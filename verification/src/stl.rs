//! Binary STL: telling it from ASCII STL, reading its triangles, and writing a
//! mesh as triangle records. Coordinates stay 32-bit float bit patterns.
use vstd::prelude::*;
use crate::bytes::{le_u32, le_bytes, le_words, push_le_u32, read_le_u32};
use crate::formats::IoError;
use crate::mesh::Mesh;

verus! {

/// Whether an STL header reads as ASCII: it starts with `solid`, and the
/// bytes after that are not a space followed by a NUL byte.
pub open spec fn looks_ascii(h: Seq<u8>) -> bool {
    &&& h.len() >= 5
    &&& h[0] == 0x73u8 && h[1] == 0x6Fu8 && h[2] == 0x6Cu8 && h[3] == 0x69u8 && h[4] == 0x64u8
    &&& !(h.len() >= 7 && h[5] == 0x20u8 && h[6] == 0u8)
}

/// Tells an ASCII STL file from a binary one by its header.
pub fn looks_like_ascii_stl(header: &[u8]) -> (b: bool)
    ensures
        b == looks_ascii(header@),
{
    if header.len() < 5 {
        return false;
    }
    let solid = header[0] == 0x73u8 && header[1] == 0x6Fu8 && header[2] == 0x6Cu8 && header[3] == 0x69u8
        && header[4] == 0x64u8;
    let space_nul = header.len() >= 7 && header[5] == 0x20u8 && header[6] == 0u8;
    solid && !space_nul
}

/// The number of triangles a binary STL file announces.
pub open spec fn announced(d: Seq<u8>) -> nat {
    le_u32(d, 80) as nat
}

/// The twelve words of triangle `t` of a binary STL file: its normal, then its
/// three vertices.
pub open spec fn triangle_words(d: Seq<u8>, t: int) -> Seq<u32> {
    Seq::new(12, |w: int| le_u32(d, 84 + 50 * t + 4 * w))
}

/// The vertex positions of the first `n` triangles, three vertices each.
pub open spec fn stl_positions(d: Seq<u8>, n: nat) -> Seq<u32>
    decreases n,
{
    if n == 0 {
        Seq::empty()
    } else {
        stl_positions(d, (n - 1) as nat) + triangle_words(d, n - 1).subrange(3, 12)
    }
}

/// The vertex normals of the first `n` triangles: each vertex takes its
/// triangle's normal.
pub open spec fn stl_normals(d: Seq<u8>, n: nat) -> Seq<u32>
    decreases n,
{
    if n == 0 {
        Seq::empty()
    } else {
        let nrm = triangle_words(d, n - 1).subrange(0, 3);
        stl_normals(d, (n - 1) as nat) + nrm + nrm + nrm
    }
}

/// Whether a binary STL file holds every triangle it announces.
pub open spec fn complete(d: Seq<u8>) -> bool {
    d.len() >= 84 && d.len() >= 84 + 50 * announced(d)
}

fn read_triangle(data: &[u8], t: usize) -> (ws: Vec<u32>)
    requires
        84 + 50 * t + 50 <= data@.len(),
    ensures
        ws@ == triangle_words(data@, t as int),
{
    let len = data.len();
    let at = 84 + 50 * t;
    let mut ws: Vec<u32> = Vec::new();
    let mut w: usize = 0;
    while w < 12
        invariant
            at == 84 + 50 * t,
            at + 50 <= data@.len(),
            len == data@.len(),
            w <= 12,
            ws@ == triangle_words(data@, t as int).take(w as int),
        decreases 12 - w,
    {
        let x = read_le_u32(data, at + 4 * w);
        ws.push(x);
        w = w + 1;
        assert(ws@ =~= triangle_words(data@, t as int).take(w as int));
    }
    assert(ws@ =~= triangle_words(data@, t as int));
    ws
}

/// `std::io::Error::from(ErrorKind::UnexpectedEof)`: the error a read that
/// meets the end of the data too early reports. Nothing is stated of the value.
#[verifier::external_body]
fn unexpected_eof() -> std::io::Error {
    std::io::Error::from(std::io::ErrorKind::UnexpectedEof)
}

/// Reads a binary STL file (header included): every triangle gives three
/// vertices of its own, each with the triangle's normal, and the indices
/// number the vertices in order. A file shorter than the triangles it
/// announces is an I/O error, as the end of the data is met early.
pub fn import_binary_stl(data: &[u8]) -> (r: Result<Mesh, IoError>)
    ensures
        r is Ok <==> complete(data@),
        r matches Ok(m) ==> {
            &&& m.positions@ == stl_positions(data@, announced(data@))
            &&& m.normals@ == stl_normals(data@, announced(data@))
            &&& m.indices@ == Seq::new(3 * announced(data@), |k: int| k as u32)
            &&& m.uvs is None
            &&& m.colors is None
        },
        r matches Err(e) ==> e is Io,
{
    if data.len() < 84 {
        return Err(IoError::Io(unexpected_eof()));
    }
    let count = read_le_u32(data, 80);
    let need: u64 = 84 + 50 * (count as u64);
    if (data.len() as u64) < need {
        return Err(IoError::Io(unexpected_eof()));
    }
    let n = count as usize;
    let len = data.len();
    let mut mesh = Mesh::new();
    let mut t: usize = 0;
    while t < n
        invariant
            n == announced(data@),
            84 + 50 * n <= data@.len(),
            len == data@.len(),
            t <= n,
            mesh.positions@ == stl_positions(data@, t as nat),
            mesh.normals@ == stl_normals(data@, t as nat),
            mesh.indices@ == Seq::new(3 * t as nat, |k: int| k as u32),
            mesh.uvs is None,
            mesh.colors is None,
        decreases n - t,
    {
        let ws = read_triangle(data, t);
        let ghost p0 = mesh.positions@;
        let ghost n0 = mesh.normals@;
        let ghost i0 = mesh.indices@;
        let mut c: usize = 3;
        while c < 12
            invariant
                3 <= c <= 12,
                ws@.len() == 12,
                mesh.positions@ == p0 + ws@.subrange(3, c as int),
                mesh.normals@ == n0,
                mesh.indices@ == i0,
                mesh.uvs is None,
                mesh.colors is None,
            decreases 12 - c,
        {
            mesh.positions.push(ws[c]);
            c = c + 1;
            assert(mesh.positions@ =~= p0 + ws@.subrange(3, c as int));
        }
        let k: usize = 3 * t;
        let k0: u32 = #[verifier::truncate] (k as u32);
        let k1: u32 = #[verifier::truncate] ((k + 1) as u32);
        let k2: u32 = #[verifier::truncate] ((k + 2) as u32);
        mesh.normals.push(ws[0]);
        mesh.normals.push(ws[1]);
        mesh.normals.push(ws[2]);
        mesh.normals.push(ws[0]);
        mesh.normals.push(ws[1]);
        mesh.normals.push(ws[2]);
        mesh.normals.push(ws[0]);
        mesh.normals.push(ws[1]);
        mesh.normals.push(ws[2]);
        mesh.indices.push(k0);
        mesh.indices.push(k1);
        mesh.indices.push(k2);
        proof {
            let nrm = triangle_words(data@, t as int).subrange(0, 3);
            assert(mesh.normals@ =~= n0 + nrm + nrm + nrm);
            assert(mesh.indices@ =~= Seq::new(3 * (t + 1) as nat, |k: int| k as u32));
        }
        t = t + 1;
    }
    Ok(mesh)
}

/// The 79-byte banner that starts a binary STL file written here: the text
/// `Binary STL exported by rCAD` padded with spaces.
pub open spec fn stl_banner() -> Seq<u8> {
    seq![
        66u8, 105u8, 110u8, 97u8, 114u8, 121u8, 32u8, 83u8, 84u8, 76u8, 32u8, 101u8, 120u8, 112u8,
        111u8, 114u8, 116u8, 101u8, 100u8, 32u8, 98u8, 121u8, 32u8, 114u8, 67u8, 65u8, 68u8,
    ] + Seq::new(52, |i: int| 32u8)
}

/// The twelve words written for triangle `t`: its facet normal, then the
/// positions of its three vertices.
pub open spec fn record_words(pos: Seq<u32>, ix: Seq<u32>, nrm: Seq<[u32; 3]>, t: int) -> Seq<u32> {
    let a = 3 * ix[3 * t] as int;
    let b = 3 * ix[3 * t + 1] as int;
    let c = 3 * ix[3 * t + 2] as int;
    seq![
        nrm[t][0], nrm[t][1], nrm[t][2],
        pos[a], pos[a + 1], pos[a + 2],
        pos[b], pos[b + 1], pos[b + 2],
        pos[c], pos[c + 1], pos[c + 2],
    ]
}

/// The records of the first `n` triangles: twelve words, then a zero attribute
/// count of two bytes.
pub open spec fn stl_records(pos: Seq<u32>, ix: Seq<u32>, nrm: Seq<[u32; 3]>, n: nat) -> Seq<u8>
    decreases n,
{
    if n == 0 {
        Seq::empty()
    } else {
        stl_records(pos, ix, nrm, (n - 1) as nat) + le_words(record_words(pos, ix, nrm, n - 1)) + seq![0u8, 0u8]
    }
}

/// Whether every index of a whole triangle names a vertex of `pos`.
pub open spec fn indices_in_range(pos: Seq<u32>, ix: Seq<u32>) -> bool {
    forall|k: int| 0 <= k < 3 * (ix.len() / 3) ==> 3 * (#[trigger] ix[k]) + 2 < pos.len()
}

/// Writes a mesh as a binary STL file, with the facet normal of each triangle
/// given in `facet_normals`: the banner, the triangle count, then one record per
/// triangle.
pub fn export_binary_stl(mesh: &Mesh, facet_normals: &Vec<[u32; 3]>) -> (out: Vec<u8>)
    requires
        facet_normals@.len() == mesh.indices@.len() / 3,
        indices_in_range(mesh.positions@, mesh.indices@),
    ensures
        out@ == stl_banner() + le_bytes((mesh.indices@.len() / 3) as u32) + stl_records(
            mesh.positions@,
            mesh.indices@,
            facet_normals@,
            (mesh.indices@.len() / 3) as nat,
        ),
{
    let banner: [u8; 27] = [
        66u8, 105u8, 110u8, 97u8, 114u8, 121u8, 32u8, 83u8, 84u8, 76u8, 32u8, 101u8, 120u8, 112u8,
        111u8, 114u8, 116u8, 101u8, 100u8, 32u8, 98u8, 121u8, 32u8, 114u8, 67u8, 65u8, 68u8,
    ];
    let mut out: Vec<u8> = Vec::new();
    let mut i: usize = 0;
    while i < 27
        invariant
            i <= 27,
            banner@ == stl_banner().take(27),
            out@ == stl_banner().take(i as int),
        decreases 27 - i,
    {
        out.push(banner[i]);
        i = i + 1;
        assert(out@ =~= stl_banner().take(i as int));
    }
    while i < 79
        invariant
            27 <= i <= 79,
            out@ == stl_banner().take(i as int),
        decreases 79 - i,
    {
        out.push(32u8);
        i = i + 1;
        assert(out@ =~= stl_banner().take(i as int));
    }
    assert(out@ =~= stl_banner());
    let tc = mesh.triangle_count();
    let count: u32 = #[verifier::truncate] (tc as u32);
    push_le_u32(&mut out, count);
    let ghost head = out@;
    let mut t: usize = 0;
    while t < tc
        invariant
            tc == mesh.indices@.len() / 3,
            facet_normals@.len() == tc,
            indices_in_range(mesh.positions@, mesh.indices@),
            t <= tc,
            out@ == head + stl_records(mesh.positions@, mesh.indices@, facet_normals@, t as nat),
        decreases tc - t,
    {
        let ghost before = out@;
        let ws = record_of(mesh, facet_normals, t);
        let mut k: usize = 0;
        while k < 12
            invariant
                k <= 12,
                ws@.len() == 12,
                out@ == before + le_words(ws@.take(k as int)),
            decreases 12 - k,
        {
            push_le_u32(&mut out, ws[k]);
            proof {
                assert(ws@.take(k + 1).drop_last() =~= ws@.take(k as int));
            }
            k = k + 1;
        }
        out.push(0u8);
        out.push(0u8);
        proof {
            assert(ws@.take(12) =~= ws@);
            assert(out@ =~= head + stl_records(mesh.positions@, mesh.indices@, facet_normals@, (t + 1) as nat));
        }
        t = t + 1;
    }
    out
}

fn record_of(mesh: &Mesh, facet_normals: &Vec<[u32; 3]>, t: usize) -> (ws: Vec<u32>)
    requires
        t < mesh.indices@.len() / 3,
        facet_normals@.len() == mesh.indices@.len() / 3,
        indices_in_range(mesh.positions@, mesh.indices@),
    ensures
        ws@ == record_words(mesh.positions@, mesh.indices@, facet_normals@, t as int),
{
    let plen = mesh.positions.len();
    let ilen = mesh.indices.len();
    assert(3 * t + 2 < mesh.indices@.len()) by (nonlinear_arith)
        requires
            t < mesh.indices@.len() / 3,
    ;
    assert(3 * mesh.indices@[3 * t] + 2 < plen);
    assert(3 * mesh.indices@[3 * t + 1] + 2 < plen);
    assert(3 * mesh.indices@[3 * t + 2] + 2 < plen);
    let a = 3 * (mesh.indices[3 * t] as usize);
    let b = 3 * (mesh.indices[3 * t + 1] as usize);
    let c = 3 * (mesh.indices[3 * t + 2] as usize);
    let nrm = facet_normals[t];
    let mut ws: Vec<u32> = Vec::new();
    ws.push(nrm[0]);
    ws.push(nrm[1]);
    ws.push(nrm[2]);
    ws.push(mesh.positions[a]);
    ws.push(mesh.positions[a + 1]);
    ws.push(mesh.positions[a + 2]);
    ws.push(mesh.positions[b]);
    ws.push(mesh.positions[b + 1]);
    ws.push(mesh.positions[b + 2]);
    ws.push(mesh.positions[c]);
    ws.push(mesh.positions[c + 1]);
    ws.push(mesh.positions[c + 2]);
    assert(ws@ =~= record_words(mesh.positions@, mesh.indices@, facet_normals@, t as int));
    ws
}

/// Every vertex read from a binary STL file belongs to one triangle record:
/// vertex `j` of triangle `t` (that is, vertex `3t + j` of the mesh) takes the
/// normal stored in that triangle's own record (its first three words, bytes
/// 84 + 50t onward) and the position stored as the record's `j`-th vertex.
pub proof fn law_stl_vertices_take_their_triangle(d: Seq<u8>, n: nat)
    ensures
        stl_normals(d, n).len() == 9 * n,
        stl_positions(d, n).len() == 9 * n,
        forall|t: int, j: int, c: int| 0 <= t < n && 0 <= j < 3 && 0 <= c < 3 ==> {
            &&& #[trigger] stl_normals(d, n)[9 * t + 3 * j + c] == le_u32(d, 84 + 50 * t + 4 * c)
            &&& stl_positions(d, n)[9 * t + 3 * j + c] == le_u32(d, 84 + 50 * t + 12 + 12 * j + 4 * c)
        },
    decreases n,
{
    if n > 0 {
        let m = (n - 1) as nat;
        law_stl_vertices_take_their_triangle(d, m);
        assert forall|t: int, j: int, c: int| 0 <= t < n && 0 <= j < 3 && 0 <= c < 3 implies {
            &&& #[trigger] stl_normals(d, n)[9 * t + 3 * j + c] == le_u32(d, 84 + 50 * t + 4 * c)
            &&& stl_positions(d, n)[9 * t + 3 * j + c] == le_u32(d, 84 + 50 * t + 12 + 12 * j + 4 * c)
        } by {
            if t < m {
                assert(stl_normals(d, n)[9 * t + 3 * j + c] == stl_normals(d, m)[9 * t + 3 * j + c]);
                assert(stl_positions(d, n)[9 * t + 3 * j + c] == stl_positions(d, m)[9 * t + 3 * j + c]);
            } else {
                assert(t == m);
                assert(stl_normals(d, n)[9 * t + 3 * j + c] == triangle_words(d, t).subrange(0, 3)[c]);
                assert(stl_positions(d, n)[9 * t + 3 * j + c] == triangle_words(d, t).subrange(3, 12)[3 * j + c]);
            }
        }
    }
}

} // verus!
