use rcad::usd_text::{usd_mesh_prim, usd_stage, UsdMaterialText};
use rcad::base64::{base64_decode, base64_encode};
use rcad::formats::{ExportOptions, FileFormat, ImportOptions, IoError};
use rcad::gltf::{load_buffers, BufferSource};
use rcad::mesh::{merge_meshes, ImportResponse, Mesh};
use rcad::obj::parse_face_vertex;
use rcad::usd::{prim_name, sanitize_name, UpAxis};

#[test]
fn test_parse_face_vertex() {
    assert_eq!(parse_face_vertex("1"), (1, 0, 0));
    assert_eq!(parse_face_vertex("1/2"), (1, 2, 0));
    assert_eq!(parse_face_vertex("1/2/3"), (1, 2, 3));
    assert_eq!(parse_face_vertex("1//3"), (1, 0, 3));
}

#[test]
fn face_vertex_edge_cases() {
    assert_eq!(parse_face_vertex(""), (0, 0, 0));
    assert_eq!(parse_face_vertex("x/y/z"), (0, 0, 0));
    assert_eq!(parse_face_vertex("+7/-2/3/9"), (7, 0, 3));
    assert_eq!(parse_face_vertex("18446744073709551616/1"), (0, 1, 0));
    assert_eq!(parse_face_vertex("12/"), (12, 0, 0));
}

#[test]
fn test_sanitize_name() {
    assert_eq!(sanitize_name("test"), "test");
    assert_eq!(sanitize_name("123test"), "_123test");
    assert_eq!(sanitize_name("test-name"), "test_name");
    assert_eq!(sanitize_name("test name"), "test_name");
}

#[test]
fn sanitize_edge_cases() {
    assert_eq!(sanitize_name(""), "Mesh");
    assert_eq!(sanitize_name("-x"), "_x");
    assert_eq!(sanitize_name("_ok_1"), "_ok_1");
    assert_eq!(sanitize_name("é9"), "_9");
    let once = sanitize_name("9 lives!");
    assert_eq!(sanitize_name(&once), once);
}

#[test]
fn prim_names_and_axis() {
    assert_eq!(prim_name("Part", 0), "Part");
    assert_eq!(prim_name("Part", 12), "Part_12");
    assert_eq!(UpAxis::Y.token(), "Y");
    assert_eq!(UpAxis::Z.token(), "Z");
    assert_eq!(UpAxis::default(), UpAxis::Y);
}

#[test]
fn file_formats_from_extension() {
    assert_eq!(FileFormat::from_extension("STEP"), Some(FileFormat::Step));
    assert_eq!(FileFormat::from_extension("stp"), Some(FileFormat::Step));
    assert_eq!(FileFormat::from_extension("P21"), Some(FileFormat::Step));
    assert_eq!(FileFormat::from_extension("Igs"), Some(FileFormat::Iges));
    assert_eq!(FileFormat::from_extension("stl"), Some(FileFormat::Stl));
    assert_eq!(FileFormat::from_extension("OBJ"), Some(FileFormat::Obj));
    assert_eq!(FileFormat::from_extension("glb"), Some(FileFormat::Gltf));
    assert_eq!(FileFormat::from_extension("usdz"), Some(FileFormat::Usd));
    assert_eq!(FileFormat::from_extension("fbx"), None);
    assert_eq!(FileFormat::from_extension(""), None);
    assert_eq!(FileFormat::Usd.extension(), "usda");
    assert_eq!(FileFormat::Gltf.mime_type(), "model/gltf+json");
    assert_eq!(FileFormat::Stl.mime_type(), "application/sla");
    assert!(FileFormat::Iges.supports_brep());
    assert!(!FileFormat::Obj.supports_brep());
    assert!(FileFormat::Gltf.is_mesh_format());
    assert!(!FileFormat::Usd.is_mesh_format());
}

#[test]
fn format_options_defaults() {
    let i = ImportOptions::new();
    assert_eq!(f64::from_bits(i.scale.bits), 1.0);
    assert_eq!(f64::from_bits(i.merge_tolerance.bits), 1e-6);
    assert!(i.merge_vertices && i.compute_normals && !i.flip_normals);
    let e = ExportOptions::new();
    assert!(e.binary);
    assert_eq!(e.compression, 6);
    let a = ExportOptions::ascii();
    assert!(!a.binary);
    assert!(a.include_materials && a.include_textures);
}

#[test]
fn base64_known_values() {
    assert_eq!(base64_encode(b"Man"), "TWFu");
    assert_eq!(base64_encode(b"Ma"), "TWE=");
    assert_eq!(base64_encode(b"M"), "TQ==");
    assert_eq!(base64_encode(b""), "");
    assert_eq!(base64_decode("TWFu").unwrap(), b"Man".to_vec());
    assert_eq!(base64_decode("TWE=").unwrap(), b"Ma".to_vec());
    assert_eq!(base64_decode("TQ").unwrap(), b"M".to_vec());
    assert_eq!(base64_decode("TQ==garbage").unwrap(), b"M".to_vec());
}

#[test]
fn base64_invalid_character() {
    match base64_decode("TW!u") {
        Err(IoError::ParseError(m)) => assert_eq!(m, "Invalid base64"),
        other => panic!("unexpected {:?}", other),
    }
}

#[test]
fn base64_roundtrip_all_lengths() {
    for n in 0..40usize {
        let data: Vec<u8> = (0..n).map(|i| (i * 37 + 11) as u8).collect();
        let text = base64_encode(&data);
        assert_eq!(base64_decode(&text).unwrap(), data);
    }
}

#[test]
fn gltf_buffers_load() {
    let blob = vec![1u8, 2, 3];
    let sources = vec![
        BufferSource::Bin,
        BufferSource::Uri("data:application/octet-stream;base64,AQID".to_string()),
    ];
    let bufs = load_buffers(&sources, Some(&blob)).unwrap();
    assert_eq!(bufs, vec![vec![1, 2, 3], vec![1, 2, 3]]);
}

#[test]
fn gltf_buffer_errors() {
    match load_buffers(&vec![BufferSource::Bin], None) {
        Err(IoError::ParseError(m)) => assert_eq!(m, "Missing embedded buffer"),
        other => panic!("unexpected {:?}", other),
    }
    match load_buffers(&vec![BufferSource::Uri("data:nocomma".to_string())], None) {
        Err(IoError::ParseError(m)) => assert_eq!(m, "Invalid data URI"),
        other => panic!("unexpected {:?}", other),
    }
    match load_buffers(&vec![BufferSource::Uri("data:x,@@".to_string())], None) {
        Err(IoError::ParseError(m)) => assert_eq!(m, "Invalid base64"),
        other => panic!("unexpected {:?}", other),
    }
    match load_buffers(&vec![BufferSource::Uri("buffer.bin".to_string())], None) {
        Err(IoError::UnsupportedFeature(m)) => assert_eq!(m, "External buffer files not supported"),
        other => panic!("unexpected {:?}", other),
    }
}

fn tri(offset: f32) -> Mesh {
    let mut m = Mesh::new();
    m.positions = [0.0f32, 0.0, 0.0, 1.0, 0.0, 0.0, 0.0, 1.0, offset].iter().map(|v| v.to_bits()).collect();
    m.normals = [0.0f32, 0.0, 1.0, 0.0, 0.0, 1.0, 0.0, 0.0, 1.0].iter().map(|v| v.to_bits()).collect();
    m.indices = vec![0, 1, 2];
    m
}

#[test]
fn mesh_merge_shifts_indices() {
    let mut a = tri(0.0);
    let b = tri(2.0);
    a.merge(&b);
    assert_eq!(a.vertex_count(), 6);
    assert_eq!(a.triangle_count(), 2);
    assert_eq!(a.indices, vec![0, 1, 2, 3, 4, 5]);
    assert!(a.uvs.is_none());
}

#[test]
fn mesh_flip_normals_twice_restores() {
    let mut m = tri(0.0);
    m.flip_normals();
    assert_eq!(m.indices, vec![0, 2, 1]);
    assert_eq!(f32::from_bits(m.normals[2]), -1.0);
    m.flip_normals();
    let before = tri(0.0);
    assert_eq!(m.normals, before.normals);
    assert_eq!(m.indices, before.indices);
    assert_eq!(m.positions, before.positions);
}

#[test]
fn merge_meshes_concatenates() {
    let r: ImportResponse = merge_meshes(&[tri(0.0), tri(1.0), tri(2.0)]);
    assert!(r.success);
    assert_eq!(r.message, "imported");
    assert_eq!(r.vertex_count, 9);
    assert_eq!(r.triangle_count, 3);
    assert_eq!(r.indices, vec![0, 1, 2, 3, 4, 5, 6, 7, 8]);
    let e = ImportResponse::error("No file provided");
    assert!(!e.success);
    assert_eq!(e.vertex_count, 0);
}

#[test]
fn extension_names_its_format_in_any_case() {
    for f in [FileFormat::Step, FileFormat::Iges, FileFormat::Stl, FileFormat::Obj, FileFormat::Gltf, FileFormat::Usd] {
        assert_eq!(FileFormat::from_extension(f.extension()), Some(f));
        assert_eq!(FileFormat::from_extension(&f.extension().to_uppercase()), Some(f));
    }
}

#[test]
fn usd_prim_and_stage_text() {
    let mat = UsdMaterialText {
        diffuse: "0.8, 0.8, 0.8".to_string(),
        metallic: "0".to_string(),
        roughness: "0.5".to_string(),
        opacity: "1".to_string(),
    };
    let prim = usd_mesh_prim(
        "Box_0",
        "(0, 0, 0), (1, 1, 0)",
        1,
        &vec![0, 1, 2],
        "            (0, 0, 0)\n",
        "            (0, 0, 1)\n",
        &None,
        &Some(mat),
    );
    let expected = "    def Mesh \"Box_0\"\n    {\n        float3[] extent = [(0, 0, 0), (1, 1, 0)]\n        int[] faceVertexCounts = [\n            3\n        ]\n        int[] faceVertexIndices = [\n            0, 1, 2\n        ]\n        point3f[] points = [\n            (0, 0, 0)\n        ]\n        normal3f[] normals = [\n            (0, 0, 1)\n        ] (\n            interpolation = \"vertex\"\n        )\n\n        def Material \"Box_0_Material\"\n        {\n            token outputs:surface.connect = </Root/Root/Box_0/Box_0_Material_Shader.outputs:surface>\n\n            def Shader \"Box_0_Material_Shader\"\n            {\n                uniform token info:id = \"UsdPreviewSurface\"\n                color3f inputs:diffuseColor = (0.8, 0.8, 0.8)\n                float inputs:metallic = 0\n                float inputs:roughness = 0.5\n                float inputs:opacity = 1\n                token outputs:surface\n            }\n        }\n\n        rel material:binding = </Root/Root/Box_0/Box_0_Material>\n    }\n";
    assert_eq!(prim, expected);
    let stage = usd_stage(&vec![prim.clone()]);
    assert!(stage.starts_with("#usda 1.0\n(\n    defaultPrim = \"Root\"\n    metersPerUnit = 0.001\n    upAxis = \"Y\"\n)\n\ndef Xform \"Root\"\n{\n"));
    assert!(stage.ends_with(&format!("{}}}\n", prim)));
    let uv = usd_mesh_prim("M_1", "", 0, &vec![], "\n", "\n", &Some("            (0, 1)\n".to_string()), &None);
    assert!(uv.contains("        texCoord2f[] primvars:st = [\n            (0, 1)\n        ] (\n            interpolation = \"vertex\"\n        )\n    }\n"));
}
