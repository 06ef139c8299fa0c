//! The text of a USDA scene: the stage header, the root transform, and one
//! mesh prim per mesh with its arrays and optional material. Number arrays
//! that hold floats come in already written; the integer arrays are written
//! here.
use vstd::prelude::*;
use crate::text::string_from_chars;
use crate::usd::{append_str, face_vertex_counts, int_array_body, int_array_text};

verus! {

/// The written values of a preview-surface material.
#[derive(Debug, Clone)]
pub struct UsdMaterialText {
    /// The three diffuse colour components, separated by `, `.
    pub diffuse: String,
    pub metallic: String,
    pub roughness: String,
    pub opacity: String,
}

/// The material prim of mesh prim `prim` and its binding.
pub open spec fn material_text(prim: Seq<char>, m: UsdMaterialText) -> Seq<char> {
    "\n"@ + "        def Material \""@ + prim + "_Material\"\n"@ + "        {\n"@
        + "            token outputs:surface.connect = </Root/Root/"@ + prim + "/"@ + prim
        + "_Material_Shader.outputs:surface>\n"@ + "\n"@ + "            def Shader \""@ + prim + "_Material_Shader\"\n"@
        + "            {\n"@ + "                uniform token info:id = \"UsdPreviewSurface\"\n"@
        + "                color3f inputs:diffuseColor = ("@ + m.diffuse@ + ")\n"@
        + "                float inputs:metallic = "@ + m.metallic@ + "\n"@ + "                float inputs:roughness = "@
        + m.roughness@ + "\n"@ + "                float inputs:opacity = "@ + m.opacity@ + "\n"@
        + "                token outputs:surface\n"@ + "            }\n"@ + "        }\n"@ + "\n"@
        + "        rel material:binding = </Root/Root/"@ + prim + "/"@ + prim + "_Material>\n"@
}

/// The text of an optional string.
pub open spec fn opt_text(o: Option<String>) -> Option<Seq<char>> {
    match o {
        Some(s) => Some(s@),
        None => None,
    }
}

/// The material of mesh prim `prim`, when it has one.
pub open spec fn optional_material_text(prim: Seq<char>, m: Option<UsdMaterialText>) -> Seq<char> {
    match m {
        Some(m) => material_text(prim, m),
        None => Seq::empty(),
    }
}

/// The texture coordinates of a mesh, when it has them.
pub open spec fn uv_text(uvs: Option<Seq<char>>) -> Seq<char> {
    match uvs {
        Some(u) => "        texCoord2f[] primvars:st = [\n"@ + u + "        ] (\n"@
            + "            interpolation = \"vertex\"\n"@ + "        )\n"@,
        None => Seq::empty(),
    }
}

/// The mesh prim `prim` of a mesh with `triangles` triangles and vertex indices
/// `indices`; `extent` is its two bounding corners, and `points`, `normals` and
/// `uvs` the lines of its float arrays, as written.
pub open spec fn mesh_prim_text(
    prim: Seq<char>,
    extent: Seq<char>,
    triangles: nat,
    indices: Seq<u32>,
    points: Seq<char>,
    normals: Seq<char>,
    uvs: Option<Seq<char>>,
    material: Option<UsdMaterialText>,
) -> Seq<char> {
    mesh_arrays_text(prim, extent, triangles, indices, points, normals) + uv_text(uvs) + optional_material_text(
        prim,
        material,
    ) + "    }\n"@
}

/// The stage header and the opening of the root transform.
pub open spec fn stage_open_text() -> Seq<char> {
    "#usda 1.0\n"@ + "(\n"@ + "    defaultPrim = \"Root\"\n"@ + "    metersPerUnit = 0.001\n"@ + "    upAxis = \"Y\"\n"@
        + ")\n"@ + "\n"@ + "def Xform \"Root\"\n"@ + "{\n"@
}

/// The whole stage around the mesh prims `prims`, in order.
pub open spec fn stage_text(prims: Seq<Seq<char>>) -> Seq<char>
    decreases prims.len(),
{
    if prims.len() == 0 {
        stage_open_text()
    } else {
        stage_text(prims.drop_last()) + prims.last()
    }
}

fn append_string(out: &mut Vec<char>, s: &String)
    ensures
        final(out)@ == old(out)@ + s@,
{
    append_str(out, s.as_str());
}

fn material_string(prim: &str, m: &UsdMaterialText) -> (r: String)
    ensures
        r@ == material_text(prim@, *m),
{
    let mut out: Vec<char> = Vec::new();
    append_str(&mut out, "\n");
    append_str(&mut out, "        def Material \"");
    append_str(&mut out, prim);
    append_str(&mut out, "_Material\"\n");
    append_str(&mut out, "        {\n");
    append_str(&mut out, "            token outputs:surface.connect = </Root/Root/");
    append_str(&mut out, prim);
    append_str(&mut out, "/");
    append_str(&mut out, prim);
    append_str(&mut out, "_Material_Shader.outputs:surface>\n");
    append_str(&mut out, "\n");
    append_str(&mut out, "            def Shader \"");
    append_str(&mut out, prim);
    append_str(&mut out, "_Material_Shader\"\n");
    append_str(&mut out, "            {\n");
    append_str(&mut out, "                uniform token info:id = \"UsdPreviewSurface\"\n");
    append_str(&mut out, "                color3f inputs:diffuseColor = (");
    append_string(&mut out, &m.diffuse);
    append_str(&mut out, ")\n");
    append_str(&mut out, "                float inputs:metallic = ");
    append_string(&mut out, &m.metallic);
    append_str(&mut out, "\n");
    append_str(&mut out, "                float inputs:roughness = ");
    append_string(&mut out, &m.roughness);
    append_str(&mut out, "\n");
    append_str(&mut out, "                float inputs:opacity = ");
    append_string(&mut out, &m.opacity);
    append_str(&mut out, "\n");
    append_str(&mut out, "                token outputs:surface\n");
    append_str(&mut out, "            }\n");
    append_str(&mut out, "        }\n");
    append_str(&mut out, "\n");
    append_str(&mut out, "        rel material:binding = </Root/Root/");
    append_str(&mut out, prim);
    append_str(&mut out, "/");
    append_str(&mut out, prim);
    append_str(&mut out, "_Material>\n");
    assert(out@ =~= material_text(prim@, *m));
    string_from_chars(&out)
}

fn uv_string(uvs: &Option<String>) -> (r: String)
    ensures
        r@ == uv_text(opt_text(*uvs)),
{
    let mut out: Vec<char> = Vec::new();
    match uvs {
        Some(u) => {
            append_str(&mut out, "        texCoord2f[] primvars:st = [\n");
            append_string(&mut out, u);
            append_str(&mut out, "        ] (\n");
            append_str(&mut out, "            interpolation = \"vertex\"\n");
            append_str(&mut out, "        )\n");
        },
        None => {},
    }
    assert(out@ =~= uv_text(opt_text(*uvs)));
    string_from_chars(&out)
}

/// The mesh prim's lines up to its float arrays' end.
pub open spec fn mesh_arrays_text(
    prim: Seq<char>,
    extent: Seq<char>,
    triangles: nat,
    indices: Seq<u32>,
    points: Seq<char>,
    normals: Seq<char>,
) -> Seq<char> {
    "    def Mesh \""@ + prim + "\"\n"@ + "    {\n"@ + "        float3[] extent = ["@ + extent + "]\n"@
        + "        int[] faceVertexCounts = [\n"@ + int_array_text(Seq::new(triangles, |i: int| 3u32))
        + "        ]\n"@ + "        int[] faceVertexIndices = [\n"@ + int_array_text(indices) + "        ]\n"@
        + "        point3f[] points = [\n"@ + points + "        ]\n"@ + "        normal3f[] normals = [\n"@ + normals
        + "        ] (\n"@ + "            interpolation = \"vertex\"\n"@ + "        )\n"@
}

fn mesh_arrays_string(prim: &str, extent: &str, triangles: usize, indices: &Vec<u32>, points: &str, normals: &str) -> (r: String)
    ensures
        r@ == mesh_arrays_text(prim@, extent@, triangles as nat, indices@, points@, normals@),
{
    let mut out: Vec<char> = Vec::new();
    append_str(&mut out, "    def Mesh \"");
    append_str(&mut out, prim);
    append_str(&mut out, "\"\n");
    append_str(&mut out, "    {\n");
    append_str(&mut out, "        float3[] extent = [");
    append_str(&mut out, extent);
    append_str(&mut out, "]\n");
    append_str(&mut out, "        int[] faceVertexCounts = [\n");
    let counts = face_vertex_counts(triangles);
    let counts_text = int_array_body(&counts);
    append_string(&mut out, &counts_text);
    append_str(&mut out, "        ]\n");
    append_str(&mut out, "        int[] faceVertexIndices = [\n");
    let index_text = int_array_body(indices);
    append_string(&mut out, &index_text);
    append_str(&mut out, "        ]\n");
    append_str(&mut out, "        point3f[] points = [\n");
    append_str(&mut out, points);
    append_str(&mut out, "        ]\n");
    append_str(&mut out, "        normal3f[] normals = [\n");
    append_str(&mut out, normals);
    append_str(&mut out, "        ] (\n");
    append_str(&mut out, "            interpolation = \"vertex\"\n");
    append_str(&mut out, "        )\n");
    assert(out@ =~= mesh_arrays_text(prim@, extent@, triangles as nat, indices@, points@, normals@));
    string_from_chars(&out)
}

/// The text of mesh prim `prim` (see [`mesh_prim_text`]).
pub fn usd_mesh_prim(
    prim: &str,
    extent: &str,
    triangles: usize,
    indices: &Vec<u32>,
    points: &str,
    normals: &str,
    uvs: &Option<String>,
    material: &Option<UsdMaterialText>,
) -> (r: String)
    ensures
        r@ == mesh_prim_text(prim@, extent@, triangles as nat, indices@, points@, normals@, opt_text(*uvs), *material),
{
    let mut out: Vec<char> = Vec::new();
    let arrays = mesh_arrays_string(prim, extent, triangles, indices, points, normals);
    append_string(&mut out, &arrays);
    let uv = uv_string(uvs);
    append_string(&mut out, &uv);
    let ghost before_mat = out@;
    match material {
        Some(m) => {
            let mt = material_string(prim, m);
            append_string(&mut out, &mt);
        },
        None => {},
    }
    append_str(&mut out, "    }\n");
    let ghost mat = optional_material_text(prim@, *material);
    assert(out@ =~= mesh_arrays_text(prim@, extent@, triangles as nat, indices@, points@, normals@) + uv_text(opt_text(*uvs)) + mat + "    }\n"@);
    string_from_chars(&out)
}

/// A USDA stage holding the mesh prims `prims` under the root transform.
pub fn usd_stage(prims: &Vec<String>) -> (r: String)
    ensures
        r@ == stage_text(prims@.map_values(|p: String| p@)) + "}\n"@,
{
    let ghost all = prims@.map_values(|p: String| p@);
    let mut out: Vec<char> = Vec::new();
    append_str(&mut out, "#usda 1.0\n");
    append_str(&mut out, "(\n");
    append_str(&mut out, "    defaultPrim = \"Root\"\n");
    append_str(&mut out, "    metersPerUnit = 0.001\n");
    append_str(&mut out, "    upAxis = \"Y\"\n");
    append_str(&mut out, ")\n");
    append_str(&mut out, "\n");
    append_str(&mut out, "def Xform \"Root\"\n");
    append_str(&mut out, "{\n");
    assert(out@ =~= stage_text(all.take(0)));
    let mut i: usize = 0;
    while i < prims.len()
        invariant
            i <= prims@.len(),
            all == prims@.map_values(|p: String| p@),
            out@ == stage_text(all.take(i as int)),
        decreases prims@.len() - i,
    {
        append_string(&mut out, &prims[i]);
        proof {
            let t = all.take(i + 1);
            assert(t.drop_last() =~= all.take(i as int));
            assert(t.last() == prims@[i as int]@);
        }
        i = i + 1;
    }
    append_str(&mut out, "}\n");
    assert(all.take(i as int) =~= all);
    string_from_chars(&out)
}

} // verus!
