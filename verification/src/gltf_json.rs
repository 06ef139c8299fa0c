//! The JSON document of an exported glTF file: one embedded base64 buffer,
//! its views, three accessors per mesh (positions with their bounds, normals,
//! indices), one mesh, node and scene entry per mesh.
use vstd::prelude::*;
use crate::base64::{base64_encode, base64_text};
use crate::gltf::BufferView;
use crate::text::string_from_chars;
use crate::usd::{append_str, decimal, push_decimal};

verus! {

/// `items` separated by `sep`.
pub open spec fn joined(items: Seq<Seq<char>>, sep: Seq<char>) -> Seq<char>
    decreases items.len(),
{
    if items.len() == 0 {
        Seq::empty()
    } else if items.len() == 1 {
        items[0]
    } else {
        joined(items.drop_last(), sep) + sep + items.last()
    }
}

/// The entry of one buffer view.
pub open spec fn view_line(v: BufferView) -> Seq<char> {
    "    { \"buffer\": 0, \"byteOffset\": "@ + decimal(v.offset as nat) + ", \"byteLength\": "@ + decimal(
        v.length as nat,
    ) + " }"@
}

/// The entry of accessor `i`, which reads buffer view `i`: the positions of a
/// mesh (with the bounds `min` and `max`, each three numbers as written), its
/// normals, or its indices, as `i % 3` is 0, 1 or 2.
pub open spec fn accessor_line(i: nat, count: usize, min: Seq<char>, max: Seq<char>) -> Seq<char> {
    if i % 3 == 0 {
        "    { \"bufferView\": "@ + decimal(i) + ", \"componentType\": 5126, \"count\": "@ + decimal(count as nat)
            + ", \"type\": \"VEC3\", \"min\": ["@ + min + "], \"max\": ["@ + max + "] }"@
    } else if i % 3 == 1 {
        "    { \"bufferView\": "@ + decimal(i) + ", \"componentType\": 5126, \"count\": "@ + decimal(count as nat)
            + ", \"type\": \"VEC3\" }"@
    } else {
        "    { \"bufferView\": "@ + decimal(i) + ", \"componentType\": 5125, \"count\": "@ + decimal(count as nat)
            + ", \"type\": \"SCALAR\" }"@
    }
}

/// The entry of mesh `i`, named `name`.
pub open spec fn mesh_line(i: nat, name: Seq<char>) -> Seq<char> {
    "    { \"name\": \""@ + name + "\", \"primitives\": [{ \"attributes\": { \"POSITION\": "@ + decimal(3 * i)
        + ", \"NORMAL\": "@ + decimal(3 * i + 1) + " }, \"indices\": "@ + decimal(3 * i + 2) + " }] }"@
}

/// The entry of node `i`, which shows mesh `i`.
pub open spec fn node_line(i: nat) -> Seq<char> {
    "    { \"mesh\": "@ + decimal(i) + " }"@
}

/// The name written for a mesh: its own, or `mesh`.
pub open spec fn mesh_name(name: Option<String>) -> Seq<char> {
    match name {
        Some(s) => s@,
        None => "mesh"@,
    }
}

/// The whole document for the buffer `data`, its `views` and accessor
/// `counts` (three of each per mesh), the mesh `names`, and the position
/// bounds `mins` and `maxs` of each mesh as written.
pub open spec fn gltf_json_text(
    data: Seq<u8>,
    views: Seq<BufferView>,
    counts: Seq<usize>,
    names: Seq<Option<String>>,
    mins: Seq<Seq<char>>,
    maxs: Seq<Seq<char>>,
) -> Seq<char> {
    let n = names.len();
    "{\n  \"asset\": {\n    \"version\": \"2.0\",\n    \"generator\": \"rCAD\"\n  },\n"@ + "  \"buffers\": [\n"@
        + "    { \"uri\": \"data:application/octet-stream;base64,"@ + base64_text(data) + "\", \"byteLength\": "@
        + decimal(data.len()) + " }\n"@ + "  ],\n  \"bufferViews\": [\n"@ + joined(
        views.map_values(|v: BufferView| view_line(v)),
        ",\n"@,
    ) + "\n  ],\n  \"accessors\": [\n"@ + joined(
        Seq::new(3 * n, |i: int| accessor_line(i as nat, counts[i], mins[i / 3], maxs[i / 3])),
        ",\n"@,
    ) + "\n  ],\n  \"meshes\": [\n"@ + joined(Seq::new(n, |i: int| mesh_line(i as nat, mesh_name(names[i]))), ",\n"@)
        + "\n  ],\n  \"nodes\": [\n"@ + joined(Seq::new(n, |i: int| node_line(i as nat)), ",\n"@)
        + "\n  ],\n  \"scenes\": [\n"@ + "    { \"nodes\": ["@ + joined(Seq::new(n, |i: int| decimal(i as nat)), ", "@)
        + "] }\n"@ + "  ],\n  \"scene\": 0\n}\n"@
}

/// Appends `items` separated by `sep`.
fn append_joined(out: &mut Vec<char>, items: &Vec<Vec<char>>, sep: &str)
    ensures
        final(out)@ == old(out)@ + joined(items@.map_values(|v: Vec<char>| v@), sep@),
{
    let ghost start = out@;
    let ghost all = items@.map_values(|v: Vec<char>| v@);
    let mut i: usize = 0;
    while i < items.len()
        invariant
            i <= items@.len(),
            all == items@.map_values(|v: Vec<char>| v@),
            out@ == start + joined(all.take(i as int), sep@),
        decreases items@.len() - i,
    {
        let ghost before_sep = out@;
        if i > 0 {
            append_str(out, sep);
        }
        let ghost before = out@;
        let mut j: usize = 0;
        while j < items[i].len()
            invariant
                i < items@.len(),
                j <= items@[i as int]@.len(),
                out@ == before + items@[i as int]@.take(j as int),
            decreases items@[i as int]@.len() - j,
        {
            out.push(items[i][j]);
            proof {
                assert(items@[i as int]@.take(j + 1) =~= items@[i as int]@.take(j as int).push(items@[i as int]@[j as int]));
            }
            j = j + 1;
        }
        proof {
            assert(items@[i as int]@.take(j as int) =~= items@[i as int]@);
            let t = all.take(i + 1);
            assert(t.drop_last() =~= all.take(i as int));
            assert(t.last() == items@[i as int]@);
            if i == 0 {
                assert(t.len() == 1);
                assert(out@ =~= start + joined(t, sep@));
            } else {
                assert(out@ =~= start + joined(t, sep@));
            }
        }
        i = i + 1;
    }
    proof {
        assert(all.take(i as int) =~= all);
    }
}

fn push_usize(out: &mut Vec<char>, n: usize)
    ensures
        final(out)@ == old(out)@ + decimal(n as nat),
{
    push_decimal(out, n as u64);
}

fn view_chars(v: BufferView) -> (r: Vec<char>)
    ensures
        r@ == view_line(v),
{
    let mut out: Vec<char> = Vec::new();
    append_str(&mut out, "    { \"buffer\": 0, \"byteOffset\": ");
    push_usize(&mut out, v.offset);
    append_str(&mut out, ", \"byteLength\": ");
    push_usize(&mut out, v.length);
    append_str(&mut out, " }");
    assert(out@ =~= view_line(v));
    out
}

fn accessor_chars(i: usize, count: usize, min: &String, max: &String) -> (r: Vec<char>)
    ensures
        r@ == accessor_line(i as nat, count, min@, max@),
{
    let mut out: Vec<char> = Vec::new();
    append_str(&mut out, "    { \"bufferView\": ");
    push_usize(&mut out, i);
    if i % 3 == 0 {
        append_str(&mut out, ", \"componentType\": 5126, \"count\": ");
        push_usize(&mut out, count);
        append_str(&mut out, ", \"type\": \"VEC3\", \"min\": [");
        append_str(&mut out, min.as_str());
        append_str(&mut out, "], \"max\": [");
        append_str(&mut out, max.as_str());
        append_str(&mut out, "] }");
    } else if i % 3 == 1 {
        append_str(&mut out, ", \"componentType\": 5126, \"count\": ");
        push_usize(&mut out, count);
        append_str(&mut out, ", \"type\": \"VEC3\" }");
    } else {
        append_str(&mut out, ", \"componentType\": 5125, \"count\": ");
        push_usize(&mut out, count);
        append_str(&mut out, ", \"type\": \"SCALAR\" }");
    }
    assert(out@ =~= accessor_line(i as nat, count, min@, max@));
    out
}

fn mesh_chars(i: usize, name: &Option<String>) -> (r: Vec<char>)
    requires
        3 * i + 2 <= usize::MAX,
    ensures
        r@ == mesh_line(i as nat, mesh_name(*name)),
{
    let mut out: Vec<char> = Vec::new();
    append_str(&mut out, "    { \"name\": \"");
    match name {
        Some(s) => append_str(&mut out, s.as_str()),
        None => append_str(&mut out, "mesh"),
    }
    append_str(&mut out, "\", \"primitives\": [{ \"attributes\": { \"POSITION\": ");
    push_usize(&mut out, 3 * i);
    append_str(&mut out, ", \"NORMAL\": ");
    push_usize(&mut out, 3 * i + 1);
    append_str(&mut out, " }, \"indices\": ");
    push_usize(&mut out, 3 * i + 2);
    append_str(&mut out, " }] }");
    assert(out@ =~= mesh_line(i as nat, mesh_name(*name)));
    out
}

fn node_chars(i: usize) -> (r: Vec<char>)
    ensures
        r@ == node_line(i as nat),
{
    let mut out: Vec<char> = Vec::new();
    append_str(&mut out, "    { \"mesh\": ");
    push_usize(&mut out, i);
    append_str(&mut out, " }");
    assert(out@ =~= node_line(i as nat));
    out
}

fn decimal_chars(i: usize) -> (r: Vec<char>)
    ensures
        r@ == decimal(i as nat),
{
    let mut out: Vec<char> = Vec::new();
    push_usize(&mut out, i);
    assert(out@ =~= decimal(i as nat));
    out
}

/// The JSON document of an exported glTF file whose single buffer is `data`,
/// with the buffer views `views` and accessor element counts `counts` of the
/// meshes (positions, normals, indices for each), the mesh names `names` (a
/// missing one is written `mesh`), and each mesh's position bounds `mins` and
/// `maxs`, three numbers as they are to be written.
pub fn gltf_json(
    data: &Vec<u8>,
    views: &Vec<BufferView>,
    counts: &Vec<usize>,
    names: &Vec<Option<String>>,
    mins: &Vec<String>,
    maxs: &Vec<String>,
) -> (r: String)
    requires
        views@.len() == 3 * names@.len(),
        counts@.len() == 3 * names@.len(),
        mins@.len() == names@.len(),
        maxs@.len() == names@.len(),
    ensures
        r@ == gltf_json_text(
            data@,
            views@,
            counts@,
            names@,
            mins@.map_values(|s: String| s@),
            maxs@.map_values(|s: String| s@),
        ),
{
    let n = names.len();
    let ghost mins_v = mins@.map_values(|s: String| s@);
    let ghost maxs_v = maxs@.map_values(|s: String| s@);
    // buffer views
    let mut view_lines: Vec<Vec<char>> = Vec::new();
    let mut i: usize = 0;
    while i < views.len()
        invariant
            i <= views@.len(),
            view_lines@.len() == i,
            forall|q: int| 0 <= q < i ==> (#[trigger] view_lines@[q])@ == view_line(views@[q]),
        decreases views@.len() - i,
    {
        view_lines.push(view_chars(views[i]));
        i = i + 1;
    }
    assert(view_lines@.map_values(|v: Vec<char>| v@) =~= views@.map_values(|v: BufferView| view_line(v)));
    // accessors
    let mut acc_lines: Vec<Vec<char>> = Vec::new();
    let mut i: usize = 0;
    while i < counts.len()
        invariant
            n == names@.len(),
            counts@.len() == 3 * n,
            mins@.len() == n,
            maxs@.len() == n,
            mins_v == mins@.map_values(|s: String| s@),
            maxs_v == maxs@.map_values(|s: String| s@),
            i <= counts@.len(),
            acc_lines@.len() == i,
            forall|q: int| 0 <= q < i ==> (#[trigger] acc_lines@[q])@ == accessor_line(
                q as nat,
                counts@[q],
                mins_v[q / 3],
                maxs_v[q / 3],
            ),
        decreases counts@.len() - i,
    {
        let line = accessor_chars(i, counts[i], &mins[i / 3], &maxs[i / 3]);
        acc_lines.push(line);
        i = i + 1;
    }
    assert(acc_lines@.map_values(|v: Vec<char>| v@) =~= Seq::new(
        3 * n as nat,
        |q: int| accessor_line(q as nat, counts@[q], mins_v[q / 3], maxs_v[q / 3]),
    ));
    // meshes, nodes and the scene's node list
    let mut mesh_lines: Vec<Vec<char>> = Vec::new();
    let mut node_lines: Vec<Vec<char>> = Vec::new();
    let mut scene_items: Vec<Vec<char>> = Vec::new();
    let mut i: usize = 0;
    while i < n
        invariant
            n == names@.len(),
            views@.len() == 3 * n,
            i <= n,
            mesh_lines@.len() == i,
            node_lines@.len() == i,
            scene_items@.len() == i,
            forall|q: int| 0 <= q < i ==> (#[trigger] mesh_lines@[q])@ == mesh_line(q as nat, mesh_name(names@[q])),
            forall|q: int| 0 <= q < i ==> (#[trigger] node_lines@[q])@ == node_line(q as nat),
            forall|q: int| 0 <= q < i ==> (#[trigger] scene_items@[q])@ == decimal(q as nat),
        decreases n - i,
    {
        assert(3 * i + 2 < 3 * n) by (nonlinear_arith)
            requires
                i < n,
        ;
        assert(views@.len() == views.len());
        mesh_lines.push(mesh_chars(i, &names[i]));
        node_lines.push(node_chars(i));
        scene_items.push(decimal_chars(i));
        i = i + 1;
    }
    assert(mesh_lines@.map_values(|v: Vec<char>| v@) =~= Seq::new(
        n as nat,
        |q: int| mesh_line(q as nat, mesh_name(names@[q])),
    ));
    assert(node_lines@.map_values(|v: Vec<char>| v@) =~= Seq::new(n as nat, |q: int| node_line(q as nat)));
    assert(scene_items@.map_values(|v: Vec<char>| v@) =~= Seq::new(n as nat, |q: int| decimal(q as nat)));
    // the document
    let mut out: Vec<char> = Vec::new();
    append_str(&mut out, "{\n  \"asset\": {\n    \"version\": \"2.0\",\n    \"generator\": \"rCAD\"\n  },\n");
    append_str(&mut out, "  \"buffers\": [\n");
    append_str(&mut out, "    { \"uri\": \"data:application/octet-stream;base64,");
    let encoded = base64_encode(data.as_slice());
    append_str(&mut out, encoded.as_str());
    append_str(&mut out, "\", \"byteLength\": ");
    push_usize(&mut out, data.len());
    append_str(&mut out, " }\n");
    append_str(&mut out, "  ],\n  \"bufferViews\": [\n");
    append_joined(&mut out, &view_lines, ",\n");
    append_str(&mut out, "\n  ],\n  \"accessors\": [\n");
    append_joined(&mut out, &acc_lines, ",\n");
    append_str(&mut out, "\n  ],\n  \"meshes\": [\n");
    append_joined(&mut out, &mesh_lines, ",\n");
    append_str(&mut out, "\n  ],\n  \"nodes\": [\n");
    append_joined(&mut out, &node_lines, ",\n");
    append_str(&mut out, "\n  ],\n  \"scenes\": [\n");
    append_str(&mut out, "    { \"nodes\": [");
    append_joined(&mut out, &scene_items, ", ");
    append_str(&mut out, "] }\n");
    append_str(&mut out, "  ],\n  \"scene\": 0\n}\n");
    assert(out@ =~= gltf_json_text(data@, views@, counts@, names@, mins_v, maxs_v));
    string_from_chars(&out)
}

} // verus!
