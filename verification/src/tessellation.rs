//! From a tessellated B-Rep to a render mesh: welding the corners of a
//! polygon mesh into shared vertices, and the line mesh of a wireframe.
//! Coordinates are 32-bit float bit patterns.
use vstd::prelude::*;
use crate::mesh::Mesh;
use crate::obj::ONE_F32;

verus! {

/// A corner of a polygon-mesh triangle: the index of its position, and of its
/// normal when it has one.
pub type PolyCorner = (usize, Option<usize>);

/// The corners of the triangles `faces`, in order.
pub open spec fn corners_of(faces: Seq<[PolyCorner; 3]>) -> Seq<PolyCorner>
    decreases faces.len(),
{
    if faces.len() == 0 {
        Seq::empty()
    } else {
        let f = faces.last();
        corners_of(faces.drop_last()) + seq![f[0], f[1], f[2]]
    }
}

/// The vertices made so far: the position indices already met, in order, and
/// the positions and normals of those vertices.
pub struct Welded {
    pub keys: Seq<usize>,
    pub positions: Seq<u32>,
    pub normals: Seq<u32>,
}

/// The state after meeting corner `c`: a position index met for the first time
/// makes a vertex, with that position and the corner's normal (+Z when the
/// corner has none or it is out of range).
pub open spec fn weld_corner(st: Welded, c: PolyCorner, pts: Seq<[u32; 3]>, nrm: Seq<[u32; 3]>) -> Welded {
    if st.keys.contains(c.0) {
        st
    } else {
        let p = pts[c.0 as int];
        let n = match c.1 {
            Some(k) => if k < nrm.len() {
                nrm[k as int]
            } else {
                [0u32, 0u32, ONE_F32]
            },
            None => [0u32, 0u32, ONE_F32],
        };
        Welded {
            keys: st.keys.push(c.0),
            positions: st.positions + seq![p[0], p[1], p[2]],
            normals: st.normals + seq![n[0], n[1], n[2]],
        }
    }
}

/// The state after meeting the corners `cs` in order.
pub open spec fn weld(cs: Seq<PolyCorner>, pts: Seq<[u32; 3]>, nrm: Seq<[u32; 3]>) -> Welded
    decreases cs.len(),
{
    if cs.len() == 0 {
        Welded { keys: Seq::empty(), positions: Seq::empty(), normals: Seq::empty() }
    } else {
        weld_corner(weld(cs.drop_last(), pts, nrm), cs.last(), pts, nrm)
    }
}

/// Whether every corner names a position of `pts`.
pub open spec fn corners_in_range(faces: Seq<[PolyCorner; 3]>, pts: Seq<[u32; 3]>) -> bool {
    forall|i: int, j: int| 0 <= i < faces.len() && 0 <= j < 3 ==> (#[trigger] faces[i][j]).0 < pts.len()
}

proof fn lemma_corners_len(faces: Seq<[PolyCorner; 3]>)
    ensures
        corners_of(faces).len() == 3 * faces.len(),
    decreases faces.len(),
{
    if faces.len() > 0 {
        lemma_corners_len(faces.drop_last());
    }
}

proof fn lemma_corner_at(faces: Seq<[PolyCorner; 3]>, i: int, j: int)
    requires
        0 <= i < faces.len(),
        0 <= j < 3,
    ensures
        corners_of(faces)[3 * i + j] == faces[i][j],
    decreases faces.len(),
{
    lemma_corners_len(faces.drop_last());
    if i < faces.len() - 1 {
        lemma_corner_at(faces.drop_last(), i, j);
    }
}

proof fn lemma_weld_keys(cs: Seq<PolyCorner>, pts: Seq<[u32; 3]>, nrm: Seq<[u32; 3]>)
    ensures
        weld(cs, pts, nrm).keys.no_duplicates(),
        weld(cs, pts, nrm).positions.len() == 3 * weld(cs, pts, nrm).keys.len(),
        forall|q: int| 0 <= q < cs.len() ==> weld(cs, pts, nrm).keys.contains(#[trigger] cs[q].0),
    decreases cs.len(),
{
    if cs.len() > 0 {
        let pre = cs.drop_last();
        lemma_weld_keys(pre, pts, nrm);
        let before = weld(pre, pts, nrm);
        let after = weld(cs, pts, nrm);
        assert forall|q: int| 0 <= q < cs.len() implies after.keys.contains(#[trigger] cs[q].0) by {
            if q < pre.len() {
                assert(pre[q] == cs[q]);
                assert(before.keys.contains(pre[q].0));
                let w = choose|w: int| 0 <= w < before.keys.len() && before.keys[w] == pre[q].0;
                if !before.keys.contains(cs.last().0) {
                    assert(after.keys[w] == before.keys[w]);
                }
            } else {
                if !before.keys.contains(cs.last().0) {
                    assert(after.keys[before.keys.len() as int] == cs.last().0);
                }
            }
        }
        if !before.keys.contains(cs.last().0) {
            assert forall|a: int, b: int| 0 <= a < after.keys.len() && 0 <= b < after.keys.len() && a != b implies after.keys[a]
                != after.keys[b] by {
                if a < before.keys.len() && b < before.keys.len() {
                } else if a < before.keys.len() {
                    assert(before.keys.contains(before.keys[a]));
                } else {
                    assert(before.keys.contains(before.keys[b]));
                }
            }
        }
    }
}

/// Finds `k` among the first keys.
fn find_pos(keys: &Vec<usize>, k: usize) -> (r: Option<usize>)
    ensures
        match r {
            Some(i) => i < keys@.len() && keys@[i as int] == k,
            None => !keys@.contains(k),
        },
{
    let mut i: usize = 0;
    while i < keys.len()
        invariant
            i <= keys@.len(),
            forall|j: int| 0 <= j < i ==> keys@[j] != k,
        decreases keys@.len() - i,
    {
        if keys[i] == k {
            return Some(i);
        }
        i = i + 1;
    }
    None
}

/// Welds the corners of a polygon mesh into a render mesh: each position index
/// becomes one vertex, in the order the corners first name it, taking the
/// normal of that first corner; the triangles then index those vertices.
pub fn weld_polygon_mesh(points: &Vec<[u32; 3]>, normals: &Vec<[u32; 3]>, faces: &Vec<[PolyCorner; 3]>) -> (m: Mesh)
    requires
        corners_in_range(faces@, points@),
    ensures
        m.positions@ == weld(corners_of(faces@), points@, normals@).positions,
        m.normals@ == weld(corners_of(faces@), points@, normals@).normals,
        m.indices@ == corners_of(faces@).map_values(
            |c: PolyCorner| weld(corners_of(faces@), points@, normals@).keys.index_of(c.0) as u32,
        ),
        m.uvs is None,
        m.colors is None,
{
    let mut mesh = Mesh::new();
    let mut keys: Vec<usize> = Vec::new();
    let mut f: usize = 0;
    while f < faces.len()
        invariant
            f <= faces@.len(),
            corners_in_range(faces@, points@),
            keys@ == weld(corners_of(faces@.take(f as int)), points@, normals@).keys,
            mesh.positions@ == weld(corners_of(faces@.take(f as int)), points@, normals@).positions,
            mesh.normals@ == weld(corners_of(faces@.take(f as int)), points@, normals@).normals,
            mesh.indices@.len() == 0,
            mesh.uvs is None,
            mesh.colors is None,
        decreases faces@.len() - f,
    {
        let face = faces[f];
        let ghost pre = corners_of(faces@.take(f as int));
        proof {
            assert(faces@.take(f + 1).drop_last() =~= faces@.take(f as int));
            assert(faces@.take(f + 1).last() == face);
        }
        let mut j: usize = 0;
        while j < 3
            invariant
                j <= 3,
                f < faces@.len(),
                face == faces@[f as int],
                corners_in_range(faces@, points@),
                keys@ == weld(pre + seq![face[0], face[1], face[2]].take(j as int), points@, normals@).keys,
                mesh.positions@ == weld(pre + seq![face[0], face[1], face[2]].take(j as int), points@, normals@).positions,
                mesh.normals@ == weld(pre + seq![face[0], face[1], face[2]].take(j as int), points@, normals@).normals,
                mesh.indices@.len() == 0,
                mesh.uvs is None,
                mesh.colors is None,
            decreases 3 - j,
        {
            let c = face[j];
            let ghost cs = pre + seq![face[0], face[1], face[2]].take(j as int);
            let ghost cs1 = pre + seq![face[0], face[1], face[2]].take(j + 1);
            proof {
                assert(cs1.drop_last() =~= cs);
                assert(cs1.last() == c);
                assert(c.0 < points@.len()) by {
                    assert(faces@[f as int][j as int] == c);
                }
            }
            match find_pos(&keys, c.0) {
                Some(_) => {},
                None => {
                    let p = points[c.0];
                    let n = match c.1 {
                        Some(k) => if k < normals.len() {
                            normals[k]
                        } else {
                            [0u32, 0u32, ONE_F32]
                        },
                        None => [0u32, 0u32, ONE_F32],
                    };
                    let ghost mp = mesh.positions@;
                    let ghost mn = mesh.normals@;
                    mesh.positions.push(p[0]);
                    mesh.positions.push(p[1]);
                    mesh.positions.push(p[2]);
                    mesh.normals.push(n[0]);
                    mesh.normals.push(n[1]);
                    mesh.normals.push(n[2]);
                    keys.push(c.0);
                    assert(mesh.positions@ =~= mp + seq![p[0], p[1], p[2]]);
                    assert(mesh.normals@ =~= mn + seq![n[0], n[1], n[2]]);
                },
            }
            j = j + 1;
        }
        proof {
            assert(seq![face[0], face[1], face[2]].take(3) =~= seq![face[0], face[1], face[2]]);
        }
        f = f + 1;
    }
    proof {
        assert(faces@.take(f as int) =~= faces@);
    }
    let ghost all = corners_of(faces@);
    let ghost w = weld(all, points@, normals@);
    proof {
        lemma_weld_keys(all, points@, normals@);
        lemma_corners_len(faces@);
    }
    let ghost target = all.map_values(|c: PolyCorner| w.keys.index_of(c.0) as u32);
    let mut g: usize = 0;
    while g < faces.len()
        invariant
            g <= faces@.len(),
            all == corners_of(faces@),
            all.len() == 3 * faces@.len(),
            w == weld(all, points@, normals@),
            keys@ == w.keys,
            w.keys.no_duplicates(),
            forall|q: int| 0 <= q < all.len() ==> w.keys.contains(#[trigger] all[q].0),
            target == all.map_values(|c: PolyCorner| w.keys.index_of(c.0) as u32),
            mesh.indices@ == target.take(3 * g as int),
            mesh.positions@ == w.positions,
            mesh.normals@ == w.normals,
            mesh.uvs is None,
            mesh.colors is None,
        decreases faces@.len() - g,
    {
        let face = faces[g];
        let mut j: usize = 0;
        while j < 3
            invariant
                j <= 3,
                g < faces@.len(),
                face == faces@[g as int],
                all == corners_of(faces@),
                all.len() == 3 * faces@.len(),
                keys@ == w.keys,
                w.keys.no_duplicates(),
                forall|q: int| 0 <= q < all.len() ==> w.keys.contains(#[trigger] all[q].0),
                target == all.map_values(|c: PolyCorner| w.keys.index_of(c.0) as u32),
                mesh.indices@ == target.take(3 * g + j),
                mesh.positions@ == w.positions,
                mesh.normals@ == w.normals,
                mesh.uvs is None,
                mesh.colors is None,
            decreases 3 - j,
        {
            let c = face[j];
            proof {
                lemma_corner_at(faces@, g as int, j as int);
                assert(all[3 * g + j] == c);
                assert(w.keys.contains(all[3 * g + j].0));
            }
            let idx = match find_pos(&keys, c.0) {
                Some(i) => i,
                None => 0,
            };
            proof {
                let i = w.keys.index_of(c.0);
                assert(0 <= i < w.keys.len() && w.keys[i] == c.0);
                if w.keys[idx as int] == c.0 && idx != i {
                    assert(w.keys[idx as int] != w.keys[i]);
                }
                assert(idx == i);
            }
            let v: u32 = #[verifier::truncate] (idx as u32);
            mesh.indices.push(v);
            proof {
                assert(target[3 * g + j] == v);
                assert(mesh.indices@ =~= target.take(3 * g + j + 1));
            }
            j = j + 1;
        }
        g = g + 1;
    }
    proof {
        assert(target.take(3 * g as int) =~= target);
    }
    mesh
}

/// Every index of a welded mesh names one of its vertices (as long as the
/// vertex count fits the 32-bit indices).
pub proof fn law_weld_indices_name_vertices(faces: Seq<[PolyCorner; 3]>, pts: Seq<[u32; 3]>, nrm: Seq<[u32; 3]>)
    requires
        weld(corners_of(faces), pts, nrm).keys.len() <= 0x1_0000_0000,
    ensures
        ({
            let cs = corners_of(faces);
            let w = weld(cs, pts, nrm);
            forall|k: int| 0 <= k < cs.len() ==> 3 * (w.keys.index_of((#[trigger] cs[k]).0) as u32) + 3 <= w.positions.len()
        }),
{
    let cs = corners_of(faces);
    let w = weld(cs, pts, nrm);
    lemma_weld_keys(cs, pts, nrm);
    assert forall|k: int| 0 <= k < cs.len() implies 3 * (w.keys.index_of((#[trigger] cs[k]).0) as u32) + 3
        <= w.positions.len() by {
        assert(w.keys.contains(cs[k].0));
        let p = w.keys.index_of(cs[k].0);
        assert(0 <= p < w.keys.len());
    }
}

/// The line mesh of a wireframe: each edge adds its two end points, with +Z
/// normals, joined by one line of two indices.
pub fn edge_mesh(edges: &Vec<([u32; 3], [u32; 3])>) -> (m: Mesh)
    ensures
        m.positions@.len() == 6 * edges@.len(),
        m.normals@.len() == 6 * edges@.len(),
        m.indices@.len() == 2 * edges@.len(),
        forall|i: int, c: int|
            0 <= i < edges@.len() && 0 <= c < 3 ==> m.positions@[6 * i + c] == #[trigger] edges@[i].0[c],
        forall|i: int, c: int|
            0 <= i < edges@.len() && 0 <= c < 3 ==> m.positions@[6 * i + 3 + c] == #[trigger] edges@[i].1[c],
        forall|i: int| 0 <= i < 2 * edges@.len() ==> #[trigger] m.indices@[i] == i as u32,
        forall|k: int| 0 <= k < 6 * edges@.len() ==> #[trigger] m.normals@[k] == if k % 3 == 2 {
            ONE_F32
        } else {
            0u32
        },
        m.uvs is None,
        m.colors is None,
{
    let mut mesh = Mesh::new();
    let mut i: usize = 0;
    while i < edges.len()
        invariant
            i <= edges@.len(),
            mesh.positions@.len() == 6 * i,
            mesh.normals@.len() == 6 * i,
            mesh.indices@.len() == 2 * i,
            forall|e: int, c: int|
                0 <= e < i && 0 <= c < 3 ==> mesh.positions@[6 * e + c] == #[trigger] edges@[e].0[c],
            forall|e: int, c: int|
                0 <= e < i && 0 <= c < 3 ==> mesh.positions@[6 * e + 3 + c] == #[trigger] edges@[e].1[c],
            forall|q: int| 0 <= q < 2 * i ==> #[trigger] mesh.indices@[q] == q as u32,
            forall|k: int| 0 <= k < 6 * i ==> #[trigger] mesh.normals@[k] == if k % 3 == 2 {
                ONE_F32
            } else {
                0u32
            },
            mesh.uvs is None,
            mesh.colors is None,
        decreases edges@.len() - i,
    {
        let (a, b) = edges[i];
        mesh.positions.push(a[0]);
        mesh.positions.push(a[1]);
        mesh.positions.push(a[2]);
        mesh.normals.push(0);
        mesh.normals.push(0);
        mesh.normals.push(ONE_F32);
        mesh.positions.push(b[0]);
        mesh.positions.push(b[1]);
        mesh.positions.push(b[2]);
        mesh.normals.push(0);
        mesh.normals.push(0);
        mesh.normals.push(ONE_F32);
        let plen = mesh.positions.len();
        assert(plen == 6 * i + 6);
        let k: usize = 2 * i;
        let k0: u32 = #[verifier::truncate] (k as u32);
        let k1: u32 = #[verifier::truncate] ((k + 1) as u32);
        mesh.indices.push(k0);
        mesh.indices.push(k1);
        i = i + 1;
    }
    mesh
}

} // verus!
