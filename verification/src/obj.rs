//! Wavefront OBJ: reading face-vertex references, building a mesh from the
//! records of a file, and writing the header and face lines of an export.
use vstd::prelude::*;
use crate::mesh::Mesh;
use crate::text::{chars_of, parse_usize, parse_usize_range, split_chars, split_on, string_from_chars};
use crate::usd::{decimal, push_decimal};
use crate::formats::chars_equal;

verus! {

/// The number read from `s`, or 0 when it is not a valid unsigned number.
pub open spec fn number_or_zero(s: Seq<char>) -> usize {
    match parse_usize(s) {
        Some(n) => n,
        None => 0,
    }
}

/// The (position, texture, normal) indices of an OBJ face vertex such as
/// `7`, `7/2`, `7/2/5` or `7//5`: fields separated by `/`, a missing, empty or
/// unreadable field counting as 0.
pub open spec fn face_vertex(s: Seq<char>) -> (usize, usize, usize) {
    let parts = split_on(s, '/');
    (
        number_or_zero(parts[0]),
        if parts.len() > 1 && parts[1].len() > 0 {
            number_or_zero(parts[1])
        } else {
            0
        },
        if parts.len() > 2 {
            number_or_zero(parts[2])
        } else {
            0
        },
    )
}

fn number_or_zero_of(v: &Vec<char>) -> (n: usize)
    ensures
        n == number_or_zero(v@),
{
    assert(v@.subrange(0, v@.len() as int) =~= v@);
    match parse_usize_range(v, 0, v.len()) {
        Some(n) => n,
        None => 0,
    }
}

/// Reads an OBJ face vertex reference.
pub fn parse_face_vertex(s: &str) -> (r: (usize, usize, usize))
    ensures
        r == face_vertex(s@),
{
    let chars = chars_of(s);
    let parts = split_chars(&chars, '/');
    proof {
        crate::text::lemma_split_on_nonempty(s@, '/');
    }
    let pos = number_or_zero_of(&parts[0]);
    let tex = if parts.len() > 1 && parts[1].len() > 0 {
        number_or_zero_of(&parts[1])
    } else {
        0
    };
    let norm = if parts.len() > 2 {
        number_or_zero_of(&parts[2])
    } else {
        0
    };
    (pos, tex, norm)
}

/// A record of an OBJ file, with coordinates as 32-bit float bit patterns
/// (positions already scaled).
#[derive(Debug, Clone)]
pub enum ObjRecord {
    /// `v x y z`.
    Position([u32; 3]),
    /// `vn x y z`.
    Normal([u32; 3]),
    /// `vt u v`.
    TexCoord([u32; 2]),
    /// `f ...`: the (position, texture, normal) references of each corner, 1-based.
    Face(Vec<(usize, usize, usize)>),
}

/// What a line of an OBJ file is, by its whitespace-separated tokens.
#[derive(Debug, Clone)]
pub enum ObjLine {
    /// `v` with at least three coordinates (tokens 1 to 3).
    Position,
    /// `vn` with at least three coordinates (tokens 1 to 3).
    Normal,
    /// `vt` with at least two coordinates (tokens 1 and 2).
    TexCoord,
    /// `f` with the references of its corners, read from the tokens after it.
    Face(Vec<(usize, usize, usize)>),
    /// Anything else: blank lines, comments, other keywords, short records.
    Other,
}

/// Classifies an OBJ line by its tokens (the line split at whitespace): the
/// keyword, then enough coordinates for a vertex record; a face reads each
/// following token as a corner reference (see [`face_vertex`]).
pub fn classify_obj_line(tokens: &Vec<String>) -> (r: ObjLine)
    ensures
        (r is Position) == (tokens@.len() >= 4 && tokens@[0]@ == "v"@),
        (r is Normal) == (tokens@.len() >= 4 && tokens@[0]@ == "vn"@),
        (r is TexCoord) == (tokens@.len() >= 3 && tokens@[0]@ == "vt"@),
        (r is Face) == (tokens@.len() >= 1 && tokens@[0]@ == "f"@),
        r matches ObjLine::Face(c) ==> c@ == Seq::new(
            (tokens@.len() - 1) as nat,
            |i: int| face_vertex(tokens@[i + 1]@),
        ),
{
    proof {
        reveal_strlit("v");
        reveal_strlit("vn");
        reveal_strlit("vt");
        reveal_strlit("f");
        assert("v"@.len() == 1 && "f"@.len() == 1 && "vn"@.len() == 2 && "vt"@.len() == 2);
        assert("v"@ != "f"@) by { assert("v"@[0] != "f"@[0]); }
        assert("vn"@ != "vt"@) by { assert("vn"@[1] != "vt"@[1]); }
    }
    if tokens.len() == 0 {
        return ObjLine::Other;
    }
    let key = chars_of(tokens[0].as_str());
    if chars_equal(&key, "v") {
        return if tokens.len() >= 4 { ObjLine::Position } else { ObjLine::Other };
    }
    if chars_equal(&key, "vn") {
        return if tokens.len() >= 4 { ObjLine::Normal } else { ObjLine::Other };
    }
    if chars_equal(&key, "vt") {
        return if tokens.len() >= 3 { ObjLine::TexCoord } else { ObjLine::Other };
    }
    if chars_equal(&key, "f") {
        let mut corners: Vec<(usize, usize, usize)> = Vec::new();
        let mut i: usize = 1;
        while i < tokens.len()
            invariant
                1 <= i <= tokens@.len(),
                corners@ == Seq::new((i - 1) as nat, |k: int| face_vertex(tokens@[k + 1]@)),
            decreases tokens@.len() - i,
        {
            corners.push(parse_face_vertex(tokens[i].as_str()));
            i = i + 1;
            assert(corners@ =~= Seq::new((i - 1) as nat, |k: int| face_vertex(tokens@[k + 1]@)));
        }
        return ObjLine::Face(corners);
    }
    ObjLine::Other
}

/// Bit pattern of the 32-bit float 1.0.
pub const ONE_F32: u32 = 0x3F80_0000;

/// The mesh being built from an OBJ file, and the tables read so far.
pub struct ObjState {
    pub positions: Seq<[u32; 3]>,
    pub normals: Seq<[u32; 3]>,
    pub texcoords: Seq<[u32; 2]>,
    /// The distinct corner references met so far, in order; the vertex of a
    /// reference is its place in this list.
    pub keys: Seq<(usize, usize, usize)>,
    pub mesh_positions: Seq<u32>,
    pub mesh_normals: Seq<u32>,
    pub mesh_uvs: Option<Seq<u32>>,
    pub indices: Seq<u32>,
}

/// Nothing read yet.
pub open spec fn obj_start() -> ObjState {
    ObjState {
        positions: Seq::empty(),
        normals: Seq::empty(),
        texcoords: Seq::empty(),
        keys: Seq::empty(),
        mesh_positions: Seq::empty(),
        mesh_normals: Seq::empty(),
        mesh_uvs: None,
        indices: Seq::empty(),
    }
}

/// The 0-based form of a 1-based corner reference (0 stays 0).
pub open spec fn zero_based(r: (usize, usize, usize)) -> (usize, usize, usize) {
    (
        if r.0 > 0 { (r.0 - 1) as usize } else { 0 },
        if r.1 > 0 { (r.1 - 1) as usize } else { 0 },
        if r.2 > 0 { (r.2 - 1) as usize } else { 0 },
    )
}

/// The state after meeting corner `k` (0-based): a new vertex is made for a new
/// reference, from the position, normal and texture coordinate it names (a
/// missing position reads as the origin, a missing normal as +Z, a missing
/// texture coordinate as (0, 0); texture coordinates are kept only once the
/// file has any).
pub open spec fn add_corner(st: ObjState, k: (usize, usize, usize)) -> ObjState {
    if st.keys.contains(k) {
        st
    } else {
        let p = if k.0 < st.positions.len() { st.positions[k.0 as int] } else { [0u32, 0u32, 0u32] };
        let n = if k.2 < st.normals.len() { st.normals[k.2 as int] } else { [0u32, 0u32, ONE_F32] };
        let t = if k.1 < st.texcoords.len() { st.texcoords[k.1 as int] } else { [0u32, 0u32] };
        ObjState {
            keys: st.keys.push(k),
            mesh_positions: st.mesh_positions + seq![p[0], p[1], p[2]],
            mesh_normals: st.mesh_normals + seq![n[0], n[1], n[2]],
            mesh_uvs: if st.texcoords.len() == 0 {
                st.mesh_uvs
            } else {
                Some(
                    match st.mesh_uvs {
                        Some(u) => u,
                        None => Seq::empty(),
                    } + seq![t[0], t[1]],
                )
            },
            ..st
        }
    }
}

/// The state after meeting the corners `ks` in order.
pub open spec fn add_corners(st: ObjState, ks: Seq<(usize, usize, usize)>) -> ObjState
    decreases ks.len(),
{
    if ks.len() == 0 {
        st
    } else {
        add_corner(add_corners(st, ks.drop_last()), ks.last())
    }
}

/// The triangles of a face whose corners have vertices `v`, as a fan around
/// the first corner.
pub open spec fn fan(v: Seq<u32>) -> Seq<u32>
    decreases v.len(),
{
    if v.len() < 3 {
        Seq::empty()
    } else {
        fan(v.drop_last()) + seq![v[0], v[v.len() - 2], v.last()]
    }
}

/// The state after a record.
pub open spec fn obj_step(st: ObjState, r: ObjRecord) -> ObjState {
    match r {
        ObjRecord::Position(p) => ObjState { positions: st.positions.push(p), ..st },
        ObjRecord::Normal(n) => ObjState { normals: st.normals.push(n), ..st },
        ObjRecord::TexCoord(t) => ObjState { texcoords: st.texcoords.push(t), ..st },
        ObjRecord::Face(refs) => {
            let ks = refs@.map_values(|r: (usize, usize, usize)| zero_based(r));
            let after = add_corners(st, ks);
            let verts = ks.map_values(|k: (usize, usize, usize)| after.keys.index_of(k) as u32);
            ObjState { indices: after.indices + fan(verts), ..after }
        },
    }
}

/// The state after the records `rs`.
pub open spec fn obj_run(rs: Seq<ObjRecord>) -> ObjState
    decreases rs.len(),
{
    if rs.len() == 0 {
        obj_start()
    } else {
        obj_step(obj_run(rs.drop_last()), rs.last())
    }
}

/// Whether every face of `rs` has at least one corner.
pub open spec fn faces_nonempty(rs: Seq<ObjRecord>) -> bool {
    forall|i: int| 0 <= i < rs.len() ==> (#[trigger] rs[i] matches ObjRecord::Face(v) ==> v@.len() > 0)
}

/// The contents of an optional buffer.
pub open spec fn opt_view(o: Option<Vec<u32>>) -> Option<Seq<u32>> {
    match o {
        Some(v) => Some(v@),
        None => None,
    }
}

/// Meeting corners changes none of the tables read from the file.
proof fn lemma_add_corners_keeps_tables(st: ObjState, ks: Seq<(usize, usize, usize)>)
    ensures
        add_corners(st, ks).positions == st.positions,
        add_corners(st, ks).normals == st.normals,
        add_corners(st, ks).texcoords == st.texcoords,
        add_corners(st, ks).indices == st.indices,
    decreases ks.len(),
{
    if ks.len() > 0 {
        lemma_add_corners_keeps_tables(st, ks.drop_last());
    }
}

/// In a sequence without repetitions, the place found for an element is its place.
proof fn lemma_index_of_unique<A>(s: Seq<A>, p: int)
    requires
        s.no_duplicates(),
        0 <= p < s.len(),
    ensures
        s.contains(s[p]),
        s.index_of(s[p]) == p,
{
    assert(s[p] == s[p]);
    let i = s.index_of(s[p]);
    assert(0 <= i < s.len() && s[i] == s[p]);
}

fn push_uv(uvs: Option<Vec<u32>>, t: [u32; 2]) -> (r: Option<Vec<u32>>)
    ensures
        opt_view(r) == Some(
            match opt_view(uvs) {
                Some(u) => u,
                None => Seq::empty(),
            } + seq![t[0], t[1]],
        ),
{
    let mut u = match uvs {
        Some(u) => u,
        None => Vec::new(),
    };
    let ghost before = u@;
    u.push(t[0]);
    u.push(t[1]);
    assert(u@ =~= before + seq![t[0], t[1]]);
    Some(u)
}

fn find_key(keys: &Vec<(usize, usize, usize)>, k: (usize, usize, usize)) -> (r: Option<usize>)
    ensures
        match r {
            Some(i) => i < keys@.len() && keys@[i as int] == k,
            None => !keys@.contains(k),
        },
{
    let mut i: usize = 0;
    while i < keys.len()
        invariant
            i <= keys@.len(),
            forall|j: int| 0 <= j < i ==> keys@[j] != k,
        decreases keys@.len() - i,
    {
        let e = keys[i];
        if e.0 == k.0 && e.1 == k.1 && e.2 == k.2 {
            return Some(i);
        }
        i = i + 1;
    }
    None
}

fn zero_based_of(r: (usize, usize, usize)) -> (k: (usize, usize, usize))
    ensures
        k == zero_based(r),
{
    (r.0.saturating_sub(1), r.1.saturating_sub(1), r.2.saturating_sub(1))
}

/// Meeting corners keeps the vertices made so far, makes three coordinates
/// per new vertex, and leaves every corner met with a vertex.
proof fn lemma_add_corners_vertices(st: ObjState, ks: Seq<(usize, usize, usize)>)
    requires
        st.keys.no_duplicates(),
        st.mesh_positions.len() == 3 * st.keys.len(),
    ensures
        add_corners(st, ks).keys.no_duplicates(),
        add_corners(st, ks).mesh_positions.len() == 3 * add_corners(st, ks).keys.len(),
        st.keys.len() <= add_corners(st, ks).keys.len(),
        forall|i: int| 0 <= i < st.keys.len() ==> add_corners(st, ks).keys[i] == #[trigger] st.keys[i],
        forall|q: int| 0 <= q < ks.len() ==> add_corners(st, ks).keys.contains(#[trigger] ks[q]),
    decreases ks.len(),
{
    if ks.len() > 0 {
        let pre = ks.drop_last();
        lemma_add_corners_vertices(st, pre);
        let before = add_corners(st, pre);
        let after = add_corners(st, ks);
        let k = ks.last();
        assert forall|q: int| 0 <= q < ks.len() implies after.keys.contains(#[trigger] ks[q]) by {
            if q < pre.len() {
                assert(pre[q] == ks[q]);
                assert(before.keys.contains(pre[q]));
                let w = choose|w: int| 0 <= w < before.keys.len() && before.keys[w] == pre[q];
                if !before.keys.contains(k) {
                    assert(after.keys[w] == before.keys[w]);
                }
            } else if !before.keys.contains(k) {
                assert(after.keys[before.keys.len() as int] == k);
            }
        }
        if !before.keys.contains(k) {
            assert forall|a: int, b: int| 0 <= a < after.keys.len() && 0 <= b < after.keys.len() && a != b implies after.keys[a]
                != after.keys[b] by {
                if a < before.keys.len() && b < before.keys.len() {
                } else if a < before.keys.len() {
                    assert(before.keys.contains(before.keys[a]));
                } else {
                    assert(before.keys.contains(before.keys[b]));
                }
            }
        }
    }
}

/// Every entry of a fan is one of its corners.
proof fn lemma_fan_entries(v: Seq<u32>)
    ensures
        forall|j: int| 0 <= j < fan(v).len() ==> v.contains(#[trigger] fan(v)[j]),
    decreases v.len(),
{
    if v.len() >= 3 {
        let pre = v.drop_last();
        lemma_fan_entries(pre);
        let f = fan(v);
        let fp = fan(pre);
        assert forall|j: int| 0 <= j < f.len() implies v.contains(#[trigger] f[j]) by {
            if j < fp.len() {
                assert(f[j] == fp[j]);
                assert(pre.contains(fp[j]));
                let w = choose|w: int| 0 <= w < pre.len() && pre[w] == fp[j];
                assert(v[w] == pre[w]);
            } else if j == fp.len() {
                assert(v[0] == f[j]);
            } else if j == fp.len() + 1 {
                assert(v[v.len() - 2] == f[j]);
            } else {
                assert(v[v.len() - 1] == f[j]);
            }
        }
    }
}

/// The vertex tables of a run of records stay consistent: three coordinates
/// per vertex, distinct corner references, and indices that name vertices.
proof fn lemma_obj_run_valid(rs: Seq<ObjRecord>)
    requires
        obj_run(rs).keys.len() <= 0x1_0000_0000,
    ensures
        obj_run(rs).keys.no_duplicates(),
        obj_run(rs).mesh_positions.len() == 3 * obj_run(rs).keys.len(),
        forall|k: int| 0 <= k < obj_run(rs).indices.len() ==> (#[trigger] obj_run(rs).indices[k]) < obj_run(rs).keys.len(),
    decreases rs.len(),
{
    if rs.len() > 0 {
        let pre = rs.drop_last();
        let st = obj_run(pre);
        lemma_obj_run_keys_grow(rs);
        lemma_obj_run_valid(pre);
        match rs.last() {
            ObjRecord::Face(refs) => {
                let ks = refs@.map_values(|r: (usize, usize, usize)| zero_based(r));
                lemma_add_corners_vertices(st, ks);
                lemma_add_corners_keeps_tables(st, ks);
                let after = add_corners(st, ks);
                let verts = ks.map_values(|k: (usize, usize, usize)| after.keys.index_of(k) as u32);
                lemma_fan_entries(verts);
                let out = obj_run(rs);
                assert(out.indices == st.indices + fan(verts));
                assert forall|k: int| 0 <= k < out.indices.len() implies (#[trigger] out.indices[k]) < out.keys.len() by {
                    if k < st.indices.len() {
                        assert(out.indices[k] == st.indices[k]);
                    } else {
                        let j = k - st.indices.len();
                        assert(out.indices[k] == fan(verts)[j]);
                        assert(verts.contains(fan(verts)[j]));
                        let w = choose|w: int| 0 <= w < verts.len() && verts[w] == fan(verts)[j];
                        assert(after.keys.contains(ks[w]));
                        let p = after.keys.index_of(ks[w]);
                        assert(0 <= p < after.keys.len());
                    }
                }
            },
            _ => {},
        }
    }
}

/// A run of records never loses vertices.
proof fn lemma_obj_run_keys_grow(rs: Seq<ObjRecord>)
    requires
        rs.len() > 0,
    ensures
        obj_run(rs.drop_last()).keys.len() <= obj_run(rs).keys.len(),
{
    let st = obj_run(rs.drop_last());
    match rs.last() {
        ObjRecord::Face(refs) => {
            let ks = refs@.map_values(|r: (usize, usize, usize)| zero_based(r));
            lemma_add_corners_grow(st, ks);
        },
        _ => {},
    }
}

proof fn lemma_add_corners_grow(st: ObjState, ks: Seq<(usize, usize, usize)>)
    ensures
        st.keys.len() <= add_corners(st, ks).keys.len(),
    decreases ks.len(),
{
    if ks.len() > 0 {
        lemma_add_corners_grow(st, ks.drop_last());
    }
}

/// Every index of a mesh built from OBJ records names one of its vertices
/// (as long as the vertex count fits the 32-bit indices).
pub proof fn law_obj_indices_name_vertices(rs: Seq<ObjRecord>)
    requires
        obj_run(rs).keys.len() <= 0x1_0000_0000,
    ensures
        forall|k: int|
            0 <= k < obj_run(rs).indices.len() ==> 3 * (#[trigger] obj_run(rs).indices[k]) + 3 <= obj_run(rs).mesh_positions.len(),
{
    lemma_obj_run_valid(rs);
}

/// Builds the mesh of an OBJ file from its records: each distinct corner
/// reference of a face becomes one vertex, and each face is split into a fan of
/// triangles around its first corner.
pub fn build_obj_mesh(records: &Vec<ObjRecord>) -> (m: Mesh)
    requires
        faces_nonempty(records@),
    ensures
        m.positions@ == obj_run(records@).mesh_positions,
        m.normals@ == obj_run(records@).mesh_normals,
        opt_view(m.uvs) == obj_run(records@).mesh_uvs,
        m.indices@ == obj_run(records@).indices,
        m.colors is None,
{
    let mut positions: Vec<[u32; 3]> = Vec::new();
    let mut normals: Vec<[u32; 3]> = Vec::new();
    let mut texcoords: Vec<[u32; 2]> = Vec::new();
    let mut keys: Vec<(usize, usize, usize)> = Vec::new();
    let mut mesh = Mesh::new();
    let mut i: usize = 0;
    while i < records.len()
        invariant
            i <= records@.len(),
            faces_nonempty(records@),
            positions@ == obj_run(records@.take(i as int)).positions,
            normals@ == obj_run(records@.take(i as int)).normals,
            texcoords@ == obj_run(records@.take(i as int)).texcoords,
            keys@ == obj_run(records@.take(i as int)).keys,
            keys@.no_duplicates(),
            mesh.positions@ == obj_run(records@.take(i as int)).mesh_positions,
            mesh.normals@ == obj_run(records@.take(i as int)).mesh_normals,
            opt_view(mesh.uvs) == obj_run(records@.take(i as int)).mesh_uvs,
            mesh.indices@ == obj_run(records@.take(i as int)).indices,
            mesh.colors is None,
            mesh.positions@.len() == 3 * keys@.len(),
        decreases records@.len() - i,
    {
        let ghost st = obj_run(records@.take(i as int));
        proof {
            assert(records@.take(i + 1).drop_last() =~= records@.take(i as int));
            assert(records@.take(i + 1).last() == records@[i as int]);
        }
        match &records[i] {
            ObjRecord::Position(p) => {
                positions.push(*p);
            },
            ObjRecord::Normal(n) => {
                normals.push(*n);
            },
            ObjRecord::TexCoord(t) => {
                texcoords.push(*t);
            },
            ObjRecord::Face(refs) => {
                let ghost ks = refs@.map_values(|r: (usize, usize, usize)| zero_based(r));
                assert(refs@.len() > 0) by {
                    assert(records@[i as int] matches ObjRecord::Face(v) ==> v@.len() > 0);
                }
                let mut corner_vertices: Vec<u32> = Vec::new();
                let ghost mut places: Seq<int> = Seq::empty();
                let mut j: usize = 0;
                while j < refs.len()
                    invariant
                        j <= refs@.len(),
                        ks == refs@.map_values(|r: (usize, usize, usize)| zero_based(r)),
                        positions@ == st.positions,
                        normals@ == st.normals,
                        texcoords@ == st.texcoords,
                        keys@ == add_corners(st, ks.take(j as int)).keys,
                        keys@.no_duplicates(),
                        mesh.positions@ == add_corners(st, ks.take(j as int)).mesh_positions,
                        mesh.normals@ == add_corners(st, ks.take(j as int)).mesh_normals,
                        opt_view(mesh.uvs) == add_corners(st, ks.take(j as int)).mesh_uvs,
                        mesh.indices@ == st.indices,
                        mesh.colors is None,
                        corner_vertices@.len() == j,
                        places.len() == j,
                        forall|q: int|
                            0 <= q < j ==> 0 <= #[trigger] places[q] < keys@.len() && keys@[places[q]] == ks[q]
                                && corner_vertices@[q] == places[q] as u32,
                        mesh.positions@.len() == 3 * keys@.len(),
                    decreases refs@.len() - j,
                {
                    let k = zero_based_of(refs[j]);
                    let ghost before = add_corners(st, ks.take(j as int));
                    proof {
                        lemma_add_corners_keeps_tables(st, ks.take(j as int));
                        assert(ks.take(j + 1).drop_last() =~= ks.take(j as int));
                        assert(ks.take(j + 1).last() == ks[j as int]);
                        assert(ks[j as int] == k);
                    }
                    let ghost mut place: int = 0;
                    let v = match find_key(&keys, k) {
                        Some(idx) => {
                            proof {
                                assert(keys@.contains(k));
                                assert(add_corner(before, k) == before);
                                place = idx as int;
                            }
                            #[verifier::truncate]
                            (idx as u32)
                        },
                        None => {
                            proof {
                                place = keys@.len() as int;
                            }
                            let idx = #[verifier::truncate] (keys.len() as u32);
                            let p = if k.0 < positions.len() { positions[k.0] } else { [0u32, 0u32, 0u32] };
                            let n = if k.2 < normals.len() { normals[k.2] } else { [0u32, 0u32, ONE_F32] };
                            let ghost mp = mesh.positions@;
                            let ghost mn = mesh.normals@;
                            mesh.positions.push(p[0]);
                            mesh.positions.push(p[1]);
                            mesh.positions.push(p[2]);
                            mesh.normals.push(n[0]);
                            mesh.normals.push(n[1]);
                            mesh.normals.push(n[2]);
                            assert(mesh.positions@ =~= mp + seq![p[0], p[1], p[2]]);
                            assert(mesh.normals@ =~= mn + seq![n[0], n[1], n[2]]);
                            if texcoords.len() > 0 {
                                let t = if k.1 < texcoords.len() { texcoords[k.1] } else { [0u32, 0u32] };
                                mesh.uvs = push_uv(mesh.uvs.take(), t);
                            }
                            let ghost old_keys = keys@;
                            keys.push(k);
                            proof {
                                assert(!before.keys.contains(k));
                                assert(mesh.positions@ == add_corner(before, k).mesh_positions);
                                assert(mesh.normals@ == add_corner(before, k).mesh_normals);
                                assert forall|a: int, b: int| 0 <= a < keys@.len() && 0 <= b < keys@.len() && a != b implies keys@[a]
                                    != keys@[b] by {
                                    if a < old_keys.len() && b < old_keys.len() {
                                        assert(old_keys[a] != old_keys[b]);
                                    } else if a < old_keys.len() {
                                        assert(old_keys.contains(old_keys[a]));
                                    } else {
                                        assert(old_keys.contains(old_keys[b]));
                                    }
                                }
                            }
                            idx
                        },
                    };
                    corner_vertices.push(v);
                    proof {
                        places = places.push(place);
                    }
                    j = j + 1;
                }
                proof {
                    assert(ks.take(j as int) =~= ks);
                }
                let ghost after = add_corners(st, ks);
                proof {
                    lemma_add_corners_keeps_tables(st, ks);
                }
                let ghost verts = ks.map_values(|k: (usize, usize, usize)| after.keys.index_of(k) as u32);
                proof {
                    assert forall|q: int| 0 <= q < ks.len() implies #[trigger] corner_vertices@[q] == verts[q] by {
                        lemma_index_of_unique(keys@, places[q]);
                    }
                    assert(corner_vertices@ =~= verts);
                }
                let n = corner_vertices.len();
                let ghost base = mesh.indices@;
                if n >= 2 {
                    let mut t: usize = 1;
                    assert(fan(corner_vertices@.take(2)) =~= Seq::<u32>::empty());
                    assert(mesh.indices@ =~= base + fan(corner_vertices@.take(2)));
                    while t < n - 1
                        invariant
                            1 <= t <= n - 1,
                            n == corner_vertices@.len(),
                            mesh.indices@ == base + fan(corner_vertices@.take(t + 1)),
                            mesh.positions@ == after.mesh_positions,
                            mesh.normals@ == after.mesh_normals,
                            opt_view(mesh.uvs) == after.mesh_uvs,
                            mesh.colors is None,
                        decreases n - t,
                    {
                        mesh.indices.push(corner_vertices[0]);
                        mesh.indices.push(corner_vertices[t]);
                        mesh.indices.push(corner_vertices[t + 1]);
                        proof {
                            let v = corner_vertices@.take(t + 2);
                            assert(v.drop_last() =~= corner_vertices@.take(t + 1));
                            assert(v[0] == corner_vertices@[0] && v[v.len() - 2] == corner_vertices@[t as int] && v.last()
                                == corner_vertices@[t + 1]);
                            assert(mesh.indices@ =~= base + fan(v));
                        }
                        t = t + 1;
                    }
                    assert(corner_vertices@.take(t + 1) =~= corner_vertices@);
                } else {
                    assert(fan(corner_vertices@) =~= Seq::<u32>::empty());
                    assert(mesh.indices@ =~= base + fan(corner_vertices@));
                }
            },
        }
        i = i + 1;
    }
    assert(records@.take(i as int) =~= records@);
    mesh
}

/// The comment lines that open an exported OBJ file, and the blank line
/// after them.
pub open spec fn obj_header_text(vertices: nat, triangles: nat) -> Seq<char> {
    "# Exported by rCAD\n# Vertices: "@ + decimal(vertices) + "\n# Triangles: "@ + decimal(triangles) + "\n\n"@
}

/// The comment lines that open an exported OBJ file.
pub fn obj_header(vertices: usize, triangles: usize) -> (r: String)
    ensures
        r@ == obj_header_text(vertices as nat, triangles as nat),
{
    let mut out = chars_of("# Exported by rCAD\n# Vertices: ");
    push_decimal(&mut out, vertices as u64);
    let mut mid = chars_of("\n# Triangles: ");
    out.append(&mut mid);
    push_decimal(&mut out, triangles as u64);
    let mut tail = chars_of("\n\n");
    out.append(&mut tail);
    string_from_chars(&out)
}

/// The corner `i` (1-based) of an OBJ face line: `i/i/i` with texture
/// coordinates, else `i//i`.
pub open spec fn corner_text(i: nat, has_uvs: bool) -> Seq<char> {
    if has_uvs {
        decimal(i) + "/"@ + decimal(i) + "/"@ + decimal(i)
    } else {
        decimal(i) + "//"@ + decimal(i)
    }
}

/// The face lines of the first `n` triangles of `ix`, with 1-based vertex
/// numbers.
pub open spec fn obj_faces_text(ix: Seq<u32>, has_uvs: bool, n: nat) -> Seq<char>
    decreases n,
{
    if n == 0 {
        Seq::empty()
    } else {
        let t = n - 1;
        obj_faces_text(ix, has_uvs, (n - 1) as nat) + "f "@ + corner_text((ix[3 * t] + 1) as nat, has_uvs) + " "@
            + corner_text((ix[3 * t + 1] + 1) as nat, has_uvs) + " "@ + corner_text((ix[3 * t + 2] + 1) as nat, has_uvs)
            + "\n"@
    }
}

fn push_corner(out: &mut Vec<char>, i: u64, has_uvs: bool)
    ensures
        final(out)@ == old(out)@ + corner_text(i as nat, has_uvs),
{
    push_decimal(out, i);
    if has_uvs {
        out.push('/');
        push_decimal(out, i);
        out.push('/');
        push_decimal(out, i);
        proof {
            reveal_strlit("/");
        }
    } else {
        let mut sep = chars_of("//");
        out.append(&mut sep);
        push_decimal(out, i);
    }
    assert(final(out)@ =~= old(out)@ + corner_text(i as nat, has_uvs));
}

/// The face lines of an exported OBJ file: one `f` line per triangle, whose
/// corners name the vertex, and its texture coordinate when the mesh has them,
/// and its normal.
pub fn obj_face_lines(indices: &Vec<u32>, has_uvs: bool) -> (r: String)
    ensures
        r@ == obj_faces_text(indices@, has_uvs, indices@.len() / 3),
{
    let len = indices.len();
    let n = len / 3;
    let mut out: Vec<char> = Vec::new();
    let mut t: usize = 0;
    while t < n
        invariant
            len == indices@.len(),
            n == indices@.len() / 3,
            t <= n,
            out@ == obj_faces_text(indices@, has_uvs, t as nat),
        decreases n - t,
    {
        assert(3 * t + 2 < indices@.len());
        let mut head = chars_of("f ");
        out.append(&mut head);
        push_corner(&mut out, indices[3 * t] as u64 + 1, has_uvs);
        out.push(' ');
        push_corner(&mut out, indices[3 * t + 1] as u64 + 1, has_uvs);
        out.push(' ');
        push_corner(&mut out, indices[3 * t + 2] as u64 + 1, has_uvs);
        let mut nl = chars_of("\n");
        out.append(&mut nl);
        proof {
            reveal_strlit(" ");
            assert(out@ =~= obj_faces_text(indices@, has_uvs, (t + 1) as nat));
        }
        t = t + 1;
    }
    string_from_chars(&out)
}

/// The `vn` records of `rs`, in order.
pub open spec fn vn_records(rs: Seq<ObjRecord>) -> Seq<[u32; 3]>
    decreases rs.len(),
{
    if rs.len() == 0 {
        Seq::empty()
    } else {
        match rs.last() {
            ObjRecord::Normal(n) => vn_records(rs.drop_last()).push(n),
            _ => vn_records(rs.drop_last()),
        }
    }
}

/// Meeting corners keeps the normals of the vertices made so far; each new
/// vertex is made for one of the corners and takes the normal its reference
/// names in the normal table, or +Z when the table has no such entry.
proof fn lemma_add_corners_normals(st: ObjState, ks: Seq<(usize, usize, usize)>)
    requires
        st.mesh_normals.len() == 3 * st.keys.len(),
    ensures
        ({
            let r = add_corners(st, ks);
            &&& r.mesh_normals.len() == 3 * r.keys.len()
            &&& st.keys.len() <= r.keys.len()
            &&& r.mesh_normals.subrange(0, 3 * st.keys.len() as int) == st.mesh_normals
            &&& forall|v: int| st.keys.len() <= v < r.keys.len() ==> exists|q: int| 0 <= q < ks.len() && ks[q] == #[trigger] r.keys[v]
            &&& forall|v: int, c: int| #![trigger r.keys[v], r.mesh_normals[3 * v + c]]
                st.keys.len() <= v < r.keys.len() && 0 <= c < 3 ==> {
                    &&& (r.keys[v].2 < st.normals.len() ==> r.mesh_normals[3 * v + c] == st.normals[r.keys[v].2 as int][c])
                    &&& (r.keys[v].2 >= st.normals.len() ==> r.mesh_normals[3 * v + c] == (if c == 2 { ONE_F32 } else { 0u32 }))
                }
        }),
    decreases ks.len(),
{
    if ks.len() > 0 {
        let pre = ks.drop_last();
        lemma_add_corners_normals(st, pre);
        lemma_add_corners_keeps_tables(st, pre);
        let b = add_corners(st, pre);
        let r = add_corners(st, ks);
        let k = ks.last();
        assert forall|v: int| st.keys.len() <= v < r.keys.len() implies exists|q: int| 0 <= q < ks.len() && ks[q] == #[trigger] r.keys[v] by {
            if v < b.keys.len() {
                let q = choose|q: int| 0 <= q < pre.len() && pre[q] == b.keys[v];
                assert(ks[q] == pre[q]);
                if !b.keys.contains(k) {
                    assert(r.keys[v] == b.keys[v]);
                }
            } else {
                assert(r.keys[v] == k);
                assert(ks[ks.len() - 1] == k);
            }
        }
        if !b.keys.contains(k) {
            assert(r.mesh_normals.subrange(0, 3 * st.keys.len() as int) =~= b.mesh_normals.subrange(0, 3 * st.keys.len() as int));
            assert forall|v: int, c: int| #![trigger r.keys[v], r.mesh_normals[3 * v + c]]
                st.keys.len() <= v < r.keys.len() && 0 <= c < 3 implies {
                    &&& (r.keys[v].2 < st.normals.len() ==> r.mesh_normals[3 * v + c] == st.normals[r.keys[v].2 as int][c])
                    &&& (r.keys[v].2 >= st.normals.len() ==> r.mesh_normals[3 * v + c] == (if c == 2 { ONE_F32 } else { 0u32 }))
                } by {
                if v < b.keys.len() {
                    assert(r.keys[v] == b.keys[v]);
                    assert(r.mesh_normals[3 * v + c] == b.mesh_normals[3 * v + c]);
                    assert(b.keys[v] == b.keys[v] && b.mesh_normals[3 * v + c] == b.mesh_normals[3 * v + c]);
                } else {
                    assert(v == b.keys.len());
                    assert(r.keys[v] == k);
                }
            }
        }
    }
}

/// The vertex tables of a run of records have three normal words per vertex.
proof fn lemma_obj_run_normals_len(rs: Seq<ObjRecord>)
    ensures
        obj_run(rs).mesh_normals.len() == 3 * obj_run(rs).keys.len(),
        obj_run(rs).normals == vn_records(rs),
    decreases rs.len(),
{
    if rs.len() > 0 {
        let pre = rs.drop_last();
        lemma_obj_run_normals_len(pre);
        match rs.last() {
            ObjRecord::Face(refs) => {
                let ks = refs@.map_values(|r: (usize, usize, usize)| zero_based(r));
                lemma_add_corners_normals(obj_run(pre), ks);
                lemma_add_corners_keeps_tables(obj_run(pre), ks);
            },
            _ => {},
        }
    }
}

/// When a face is read, the vertices made before keep their normals, and each
/// vertex made for one of the face's corners takes as its normal the `vn`
/// record that the corner's normal reference names (the n-th `vn` read so far,
/// for the 1-based reference n), or +Z when no such `vn` has been read. The
/// normal does not depend on the corner's position or texture reference.
pub proof fn law_obj_vertex_normals(pre: Seq<ObjRecord>, refs: Vec<(usize, usize, usize)>)
    ensures
        ({
            let before = obj_run(pre);
            let after = obj_run(pre.push(ObjRecord::Face(refs)));
            let vn = vn_records(pre);
            &&& after.mesh_normals.len() == 3 * after.keys.len()
            &&& before.keys.len() <= after.keys.len()
            &&& after.mesh_normals.subrange(0, 3 * before.keys.len() as int) == before.mesh_normals
            &&& forall|v: int| before.keys.len() <= v < after.keys.len() ==> exists|j: int|
                0 <= j < refs@.len() && (#[trigger] after.keys[v]).2 == (if refs@[j].2 > 0 { refs@[j].2 - 1 } else { 0 })
            &&& forall|v: int, c: int| #![trigger after.keys[v], after.mesh_normals[3 * v + c]]
                before.keys.len() <= v < after.keys.len() && 0 <= c < 3 ==> {
                    &&& (after.keys[v].2 < vn.len() ==> after.mesh_normals[3 * v + c] == vn[after.keys[v].2 as int][c])
                    &&& (after.keys[v].2 >= vn.len() ==> after.mesh_normals[3 * v + c] == (if c == 2 { ONE_F32 } else { 0u32 }))
                }
        }),
{
    let rs = pre.push(ObjRecord::Face(refs));
    assert(rs.drop_last() =~= pre);
    lemma_obj_run_normals_len(pre);
    let st = obj_run(pre);
    let ks = refs@.map_values(|r: (usize, usize, usize)| zero_based(r));
    lemma_add_corners_normals(st, ks);
    let after = obj_run(rs);
    assert forall|v: int| st.keys.len() <= v < after.keys.len() implies exists|j: int|
        0 <= j < refs@.len() && (#[trigger] after.keys[v]).2 == (if refs@[j].2 > 0 { refs@[j].2 - 1 } else { 0 }) by {
        let q = choose|q: int| 0 <= q < ks.len() && ks[q] == add_corners(st, ks).keys[v];
        assert(ks[q] == zero_based(refs@[q]));
    }
}

/// The face lines of the first `n` triangles read only the first `3n` indices.
proof fn lemma_faces_text_prefix(a: Seq<u32>, b: Seq<u32>, has_uvs: bool, n: nat)
    requires
        3 * n <= a.len(),
        3 * n <= b.len(),
        forall|i: int| 0 <= i < 3 * n ==> a[i] == b[i],
    ensures
        obj_faces_text(a, has_uvs, n) == obj_faces_text(b, has_uvs, n),
    decreases n,
{
    if n > 0 {
        lemma_faces_text_prefix(a, b, has_uvs, (n - 1) as nat);
        let t = n - 1;
        assert(a[3 * t] == b[3 * t] && a[3 * t + 1] == b[3 * t + 1] && a[3 * t + 2] == b[3 * t + 2]);
    }
}

/// The face line of triangle `t` of `ix`.
#[verifier::opaque]
spec fn line_of(ix: Seq<u32>, has_uvs: bool, t: int) -> Seq<char> {
    "f "@ + corner_text((ix[3 * t] + 1) as nat, has_uvs) + " "@ + corner_text((ix[3 * t + 1] + 1) as nat, has_uvs) + " "@
        + corner_text((ix[3 * t + 2] + 1) as nat, has_uvs) + "\n"@
}

proof fn lemma_faces_text_unfold(ix: Seq<u32>, has_uvs: bool, n: nat)
    requires
        n > 0,
    ensures
        obj_faces_text(ix, has_uvs, n) == obj_faces_text(ix, has_uvs, (n - 1) as nat) + line_of(ix, has_uvs, n - 1),
{
    let t = n - 1;
    reveal(line_of);
    assert(obj_faces_text(ix, has_uvs, n) =~= obj_faces_text(ix, has_uvs, (n - 1) as nat) + line_of(ix, has_uvs, t));
}

proof fn lemma_faces_text_split(ix: Seq<u32>, has_uvs: bool, n: nat, k: nat)
    requires
        k <= n,
        3 * n <= ix.len(),
    ensures
        obj_faces_text(ix, has_uvs, n) == obj_faces_text(ix, has_uvs, k) + obj_faces_text(
            ix.subrange(3 * k as int, 3 * n as int),
            has_uvs,
            (n - k) as nat,
        ),
    decreases n,
{
    let sub = ix.subrange(3 * k as int, 3 * n as int);
    if n == k {
        assert(obj_faces_text(ix, has_uvs, k) + obj_faces_text(sub, has_uvs, 0) =~= obj_faces_text(ix, has_uvs, k));
    } else {
        let m = (n - 1) as nat;
        lemma_faces_text_split(ix, has_uvs, m, k);
        let sub_m = ix.subrange(3 * k as int, 3 * m as int);
        lemma_faces_text_prefix(sub, sub_m, has_uvs, (m - k) as nat);
        lemma_faces_text_unfold(ix, has_uvs, n);
        lemma_faces_text_unfold(sub, has_uvs, (n - k) as nat);
        let t = n - k - 1;
        assert(line_of(sub, has_uvs, t) == line_of(ix, has_uvs, m as int)) by {
            reveal(line_of);
            assert(sub[3 * t] == ix[3 * m as int]);
            assert(sub[3 * t + 1] == ix[3 * m as int + 1]);
            assert(sub[3 * t + 2] == ix[3 * m as int + 2]);
        }
        let a = obj_faces_text(ix, has_uvs, k);
        let b = obj_faces_text(sub_m, has_uvs, (m - k) as nat);
        let c = line_of(ix, has_uvs, m as int);
        assert((a + b) + c =~= a + (b + c));
    }
}

/// The face lines of a mesh are made triangle by triangle: the text for the
/// first `n` triangles is the text for the first `k` followed by the text that
/// the remaining triangles' indices give on their own; and triangle `k`, with
/// indices a, b, c, adds the line `f` followed by its corners a+1, b+1, c+1.
pub proof fn law_obj_face_lines_per_triangle(ix: Seq<u32>, has_uvs: bool, n: nat, k: nat)
    requires
        k <= n,
        3 * n <= ix.len(),
    ensures
        obj_faces_text(ix, has_uvs, n) == obj_faces_text(ix, has_uvs, k) + obj_faces_text(
            ix.subrange(3 * k as int, 3 * n as int),
            has_uvs,
            (n - k) as nat,
        ),
        n == k + 1 ==> obj_faces_text(ix, has_uvs, n) == obj_faces_text(ix, has_uvs, k) + "f "@ + corner_text(
            (ix[3 * k as int] + 1) as nat,
            has_uvs,
        ) + " "@ + corner_text((ix[3 * k as int + 1] + 1) as nat, has_uvs) + " "@ + corner_text(
            (ix[3 * k as int + 2] + 1) as nat,
            has_uvs,
        ) + "\n"@,
{
    lemma_faces_text_split(ix, has_uvs, n, k);
    if n == k + 1 {
        lemma_faces_text_unfold(ix, has_uvs, n);
        reveal(line_of);
    }
}

} // verus!
