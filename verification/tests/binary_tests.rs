use rcad::gltf::BufferView;
use rcad::bytes::{push_le_u32, read_le_u32};
use rcad::formats::IoError;
use rcad::gltf::{import_buffers, pack_buffer};
use rcad::mesh::Mesh;
use rcad::obj::{build_obj_mesh, parse_face_vertex, ObjRecord, ONE_F32};
use rcad::render::{render_vertices, RenderError};
use rcad::stl::{export_binary_stl, import_binary_stl, looks_like_ascii_stl};
use rcad::tessellation::{edge_mesh, weld_polygon_mesh};

fn f(x: f32) -> u32 {
    x.to_bits()
}

fn stl_file(triangles: &[[f32; 12]]) -> Vec<u8> {
    let mut data = vec![0u8; 80];
    data.extend_from_slice(&(triangles.len() as u32).to_le_bytes());
    for t in triangles {
        for x in t {
            data.extend_from_slice(&x.to_le_bytes());
        }
        data.extend_from_slice(&[0u8, 0u8]);
    }
    data
}

#[test]
fn le_words_read_back() {
    let mut out = Vec::new();
    push_le_u32(&mut out, 0x1234_5678);
    push_le_u32(&mut out, 7);
    assert_eq!(out, vec![0x78, 0x56, 0x34, 0x12, 7, 0, 0, 0]);
    assert_eq!(read_le_u32(&out, 0), 0x1234_5678);
    assert_eq!(read_le_u32(&out, 4), 7);
}

#[test]
fn stl_header_kind() {
    let mut h = b"solid cube".to_vec();
    h.resize(80, b' ');
    assert!(looks_like_ascii_stl(&h));
    let mut b = b"solid \0".to_vec();
    b.resize(80, 0);
    assert!(!looks_like_ascii_stl(&b));
    let mut c = b"Binary STL".to_vec();
    c.resize(80, 0);
    assert!(!looks_like_ascii_stl(&c));
    assert!(!looks_like_ascii_stl(b"sol"));
}

#[test]
fn binary_stl_reads_triangles() {
    let tri = [0.0, 0.0, 1.0, 0.0, 0.0, 0.0, 1.0, 0.0, 0.0, 0.0, 1.0, 0.0];
    let data = stl_file(&[tri, tri]);
    let m = import_binary_stl(&data).ok().unwrap();
    assert_eq!(m.positions.len(), 18);
    assert_eq!(m.normals.len(), 18);
    assert_eq!(m.indices, vec![0, 1, 2, 3, 4, 5]);
    assert_eq!(m.positions[3], f(1.0));
    assert_eq!(m.positions[7], f(1.0));
    assert_eq!(m.normals[2], f(1.0));
    assert_eq!(m.normals[5], f(1.0));
    assert!(m.uvs.is_none());
}

#[test]
fn binary_stl_short_file_is_io_error() {
    let tri = [0.0f32; 12];
    let mut data = stl_file(&[tri]);
    data.pop();
    assert!(matches!(import_binary_stl(&data), Err(IoError::Io(_))));
    assert!(matches!(import_binary_stl(&[0u8; 83]), Err(IoError::Io(_))));
    let empty = stl_file(&[]);
    let m = import_binary_stl(&empty).ok().unwrap();
    assert!(m.positions.is_empty());
}

#[test]
fn binary_stl_export_layout() {
    let mut mesh = Mesh::new();
    for x in [0.0f32, 0.0, 0.0, 1.0, 0.0, 0.0, 0.0, 1.0, 0.0] {
        mesh.positions.push(f(x));
    }
    mesh.indices = vec![0, 1, 2];
    let out = export_binary_stl(&mesh, &vec![[f(0.0), f(0.0), f(1.0)]]);
    assert_eq!(out.len(), 79 + 4 + 50);
    assert!(out.starts_with(b"Binary STL exported by rCAD "));
    assert_eq!(&out[79..83], &[1, 0, 0, 0]);
    assert_eq!(read_le_u32(&out, 83 + 8), f(1.0));
    assert_eq!(read_le_u32(&out, 83 + 12 + 12), f(1.0));
    assert_eq!(&out[131..133], &[0, 0]);
}

#[test]
fn gltf_buffer_views_follow_each_other() {
    let mut a = Mesh::new();
    a.positions = vec![1, 2, 3, 4, 5, 6];
    a.normals = vec![7, 8, 9, 10, 11, 12];
    a.indices = vec![0, 1, 0];
    let mut b = Mesh::new();
    b.positions = vec![13, 14, 15];
    b.normals = vec![16, 17, 18];
    b.indices = vec![0];
    let p = pack_buffer(&vec![a, b]);
    assert_eq!(p.data.len(), 24 + 24 + 12 + 12 + 12 + 4);
    let views: Vec<(usize, usize)> = p.views.iter().map(|v| (v.offset, v.length)).collect();
    assert_eq!(views, vec![(0, 24), (24, 24), (48, 12), (60, 12), (72, 12), (84, 4)]);
    assert_eq!(p.counts, vec![2, 2, 3, 1, 1, 1]);
    assert_eq!(read_le_u32(&p.data, 24), 7);
    assert_eq!(read_le_u32(&p.data, 60), 13);
}

#[test]
fn obj_records_share_vertices_and_fan() {
    let records = vec![
        ObjRecord::Position([f(0.0), f(0.0), f(0.0)]),
        ObjRecord::Position([f(1.0), f(0.0), f(0.0)]),
        ObjRecord::Position([f(1.0), f(1.0), f(0.0)]),
        ObjRecord::Position([f(0.0), f(1.0), f(0.0)]),
        ObjRecord::Face(vec![parse_face_vertex("1"), parse_face_vertex("2"), parse_face_vertex("3"), parse_face_vertex("4")]),
        ObjRecord::Face(vec![parse_face_vertex("1"), parse_face_vertex("3"), parse_face_vertex("9")]),
    ];
    let m = build_obj_mesh(&records);
    assert_eq!(m.positions.len(), 15);
    assert_eq!(m.indices, vec![0, 1, 2, 0, 2, 3, 0, 2, 4]);
    assert_eq!(&m.positions[12..15], &[0, 0, 0]);
    assert_eq!(m.normals[2], ONE_F32);
    assert!(m.uvs.is_none());
}

#[test]
fn obj_texture_coordinates_are_kept() {
    let records = vec![
        ObjRecord::Position([f(0.0), f(0.0), f(0.0)]),
        ObjRecord::TexCoord([f(0.5), f(0.25)]),
        ObjRecord::Normal([f(0.0), f(1.0), f(0.0)]),
        ObjRecord::Face(vec![parse_face_vertex("1/1/1"), parse_face_vertex("1/2/1")]),
    ];
    let m = build_obj_mesh(&records);
    assert_eq!(m.uvs, Some(vec![f(0.5), f(0.25), 0, 0]));
    assert_eq!(m.normals, vec![f(0.0), f(1.0), f(0.0), f(0.0), f(1.0), f(0.0)]);
    assert!(m.indices.is_empty());
}

#[test]
fn polygon_corners_are_welded() {
    let points = vec![[1, 1, 1], [2, 2, 2], [3, 3, 3], [4, 4, 4]];
    let normals = vec![[9, 9, 9]];
    let faces = vec![[(0, Some(0)), (1, None), (2, Some(5))], [(2, None), (1, Some(0)), (3, Some(0))]];
    let m = weld_polygon_mesh(&points, &normals, &faces);
    assert_eq!(m.positions, vec![1, 1, 1, 2, 2, 2, 3, 3, 3, 4, 4, 4]);
    assert_eq!(m.normals, vec![9, 9, 9, 0, 0, ONE_F32, 0, 0, ONE_F32, 9, 9, 9]);
    assert_eq!(m.indices, vec![0, 1, 2, 2, 1, 3]);
}

#[test]
fn wireframe_lines() {
    let m = edge_mesh(&vec![([1, 2, 3], [4, 5, 6]), ([7, 8, 9], [1, 1, 1])]);
    assert_eq!(m.positions, vec![1, 2, 3, 4, 5, 6, 7, 8, 9, 1, 1, 1]);
    assert_eq!(m.indices, vec![0, 1, 2, 3]);
    assert_eq!(&m.normals[0..3], &[0, 0, ONE_F32]);
    assert_eq!(m.normals.len(), 12);
}

#[test]
fn gltf_file_buffers() {
    let doc = br#"{"asset":{"version":"2.0"},"buffers":[{"byteLength":3,"uri":"data:application/octet-stream;base64,AQID"}]}"#;
    assert_eq!(import_buffers(doc).ok().unwrap(), vec![vec![1u8, 2, 3]]);
    let ext = br#"{"asset":{"version":"2.0"},"buffers":[{"byteLength":3,"uri":"mesh.bin"}]}"#;
    assert!(matches!(import_buffers(ext), Err(IoError::UnsupportedFeature(m)) if m == "External buffer files not supported"));
    match import_buffers(b"not json") {
        Err(IoError::ParseError(m)) => assert!(m.starts_with("glTF parse error: ")),
        _ => panic!("a broken file must not parse"),
    }
}

#[test]
fn gltf_short_glb_header_is_a_parse_error() {
    let glb = b"glTF\x02\x00\x00\x00\x00\x00\x00\x00";
    match import_buffers(glb) {
        Err(IoError::ParseError(m)) => assert_eq!(m, "glTF parse error: GLB header declares a length below 12 bytes"),
        _ => panic!("a GLB header shorter than itself must not parse"),
    }
    let truncated = b"glTF\x02\x00\x00\x00\x40\x00\x00\x00";
    assert!(matches!(import_buffers(truncated), Err(IoError::ParseError(_))));
}

#[test]
fn render_vertices_interleave() {
    let mut m = Mesh::new();
    assert!(matches!(render_vertices(&m), Err(RenderError::BufferCreationFailed(s)) if s == "Empty mesh"));
    m.positions = vec![1, 2, 3, 4, 5, 6];
    m.normals = vec![7, 8, 9, 10, 11, 12];
    m.uvs = Some(vec![13, 14, 15, 16]);
    let v = render_vertices(&m).ok().unwrap();
    assert_eq!(v.len(), 2);
    assert_eq!(v[1].position, [4, 5, 6]);
    assert_eq!(v[1].normal, [10, 11, 12]);
    assert_eq!(v[1].uv, [15, 16]);
    assert_eq!(v[0].color, [ONE_F32; 4]);
}

#[test]
fn gltf_json_document_layout() {
    let views = vec![
        BufferView { offset: 0, length: 12 },
        BufferView { offset: 12, length: 12 },
        BufferView { offset: 24, length: 4 },
    ];
    let json = rcad::gltf_json::gltf_json(
        &vec![1u8, 2, 3],
        &views,
        &vec![1, 1, 1],
        &vec![Some("part".to_string())],
        &vec!["0, 0, 0".to_string()],
        &vec!["1, 2, 3".to_string()],
    );
    let expected = "{\n  \"asset\": {\n    \"version\": \"2.0\",\n    \"generator\": \"rCAD\"\n  },\n  \"buffers\": [\n    { \"uri\": \"data:application/octet-stream;base64,AQID\", \"byteLength\": 3 }\n  ],\n  \"bufferViews\": [\n    { \"buffer\": 0, \"byteOffset\": 0, \"byteLength\": 12 },\n    { \"buffer\": 0, \"byteOffset\": 12, \"byteLength\": 12 },\n    { \"buffer\": 0, \"byteOffset\": 24, \"byteLength\": 4 }\n  ],\n  \"accessors\": [\n    { \"bufferView\": 0, \"componentType\": 5126, \"count\": 1, \"type\": \"VEC3\", \"min\": [0, 0, 0], \"max\": [1, 2, 3] },\n    { \"bufferView\": 1, \"componentType\": 5126, \"count\": 1, \"type\": \"VEC3\" },\n    { \"bufferView\": 2, \"componentType\": 5125, \"count\": 1, \"type\": \"SCALAR\" }\n  ],\n  \"meshes\": [\n    { \"name\": \"part\", \"primitives\": [{ \"attributes\": { \"POSITION\": 0, \"NORMAL\": 1 }, \"indices\": 2 }] }\n  ],\n  \"nodes\": [\n    { \"mesh\": 0 }\n  ],\n  \"scenes\": [\n    { \"nodes\": [0] }\n  ],\n  \"scene\": 0\n}\n";
    assert_eq!(json, expected);
    let two = rcad::gltf_json::gltf_json(
        &vec![],
        &vec![BufferView { offset: 0, length: 0 }; 6],
        &vec![0; 6],
        &vec![None, None],
        &vec![String::new(), String::new()],
        &vec![String::new(), String::new()],
    );
    assert!(two.contains("{ \"name\": \"mesh\", \"primitives\": [{ \"attributes\": { \"POSITION\": 3, \"NORMAL\": 4 }, \"indices\": 5 }] }"));
    assert!(two.contains("{ \"nodes\": [0, 1] }"));
}
