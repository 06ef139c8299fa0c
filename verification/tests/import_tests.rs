use rcad::formats::IoError;
use rcad::mesh::Mesh;
use rcad::obj::{classify_obj_line, ObjLine};
use rcad::process::{default_graph, retire_part, spawn_part, Loc, Part};
use rcad::sketch::{wire_plan, Point2, SketchEntity, WireEdge};
use rcad::step::{collect_step_meshes, read_step_text};
use rcad::texture::{sample_sums, texture_channel_sums};
use rcad::Real;
use truck_modeling::builder;
use truck_modeling::{Point3, Vector3};
use truck_stepio::out::{CompleteStepDisplay, StepModel};

fn mesh_with(positions: Vec<u32>) -> Mesh {
    let mut m = Mesh::new();
    m.positions = positions;
    m
}

fn box_step_text() -> String {
    let v = builder::vertex(Point3::new(0.0, 0.0, 0.0));
    let e = builder::tsweep(&v, Vector3::new(10.0, 0.0, 0.0));
    let f = builder::tsweep(&e, Vector3::new(0.0, 10.0, 0.0));
    let solid = builder::tsweep(&f, Vector3::new(0.0, 0.0, 10.0));
    let compressed = solid.compress();
    CompleteStepDisplay::new(StepModel::from(&compressed), Default::default()).to_string()
}

#[test]
fn step_roundtrip_box() {
    let step = box_step_text();
    let text = read_step_text(step.as_bytes()).expect("STEP import failed");
    assert_eq!(text, step, "no meshes parsed from STEP");
    assert!(text.contains("DATA;"), "box STEP tessellated to zero triangles");
}

#[test]
fn step_bytes_that_are_not_text_or_step() {
    match read_step_text(&[0x49, 0xFF, 0x53]) {
        Err(IoError::ParseError(m)) => assert!(m.starts_with("STEP is not valid UTF-8: ")),
        _ => panic!("invalid UTF-8 must be refused"),
    }
    assert!(matches!(read_step_text(b"not a step file"), Err(IoError::ParseError(m)) if m == "failed to parse STEP file"));
    let no_data = "ISO-10303-21;\nHEADER;\nFILE_DESCRIPTION((''),'2;1');\nFILE_NAME('','',(''),(''),'','','');\nFILE_SCHEMA(('X'));\nENDSEC;\nEND-ISO-10303-21;\n";
    match read_step_text(no_data.as_bytes()) {
        Err(IoError::ParseError(m)) => {
            assert!(m == "STEP file has no DATA section" || m == "failed to parse STEP file")
        },
        _ => panic!("a STEP file without DATA must be refused"),
    }
}

#[test]
fn step_shells_are_collected_in_order() {
    let a = mesh_with(vec![1, 2, 3]);
    let b = mesh_with(vec![4, 5, 6, 7, 8, 9]);
    let r = collect_step_meshes(vec![None, Some(a), Some(Mesh::new()), Some(b)]).ok().unwrap();
    assert_eq!(r.len(), 2);
    assert_eq!(r[0].positions, vec![1, 2, 3]);
    assert_eq!(r[1].positions.len(), 6);
    assert!(matches!(collect_step_meshes(vec![None, Some(Mesh::new())]),
        Err(IoError::ParseError(m)) if m == "STEP file contained no tessellatable shells"));
    assert!(collect_step_meshes(vec![]).is_err());
}

#[test]
fn texture_sums_sample_every_pixel_of_small_images() {
    let rgb = vec![10u8, 20, 30, 40, 50, 60];
    assert_eq!(sample_sums(2, 1, &rgb), Some((50, 70, 90, 2)));
    assert_eq!(sample_sums(0, 5, &rgb), None);
}

#[test]
fn texture_sums_step_through_large_images() {
    // 8192 pixels: every second one is sampled.
    let mut rgb = vec![0u8; 3 * 8192];
    for i in 0..8192 {
        rgb[3 * i] = (i % 2) as u8;
        rgb[3 * i + 1] = 1;
    }
    assert_eq!(sample_sums(8192, 1, &rgb), Some((0, 4096, 0, 4096)));
    assert_eq!(texture_channel_sums(b"not an image"), None);
}

#[test]
fn obj_lines_are_classified() {
    let t = |s: &str| s.split_whitespace().map(str::to_string).collect::<Vec<String>>();
    assert!(matches!(classify_obj_line(&t("v 1 2 3")), ObjLine::Position));
    assert!(matches!(classify_obj_line(&t("v 1 2")), ObjLine::Other));
    assert!(matches!(classify_obj_line(&t("vn 0 0 1")), ObjLine::Normal));
    assert!(matches!(classify_obj_line(&t("vt 0.5 1")), ObjLine::TexCoord));
    assert!(matches!(classify_obj_line(&t("o name")), ObjLine::Other));
    assert!(matches!(classify_obj_line(&t("")), ObjLine::Other));
    match classify_obj_line(&t("f 1/2/3 4//6 7")) {
        ObjLine::Face(c) => assert_eq!(c, vec![(1, 2, 3), (4, 0, 6), (7, 0, 0)]),
        _ => panic!("a face line"),
    }
}

#[test]
fn sketch_wire_plan() {
    let p = |x: f64, y: f64| Point2 { x: Real::from_bits(x.to_bits()), y: Real::from_bits(y.to_bits()) };
    assert!(matches!(wire_plan(&vec![]), Err(m) if m == "Empty sketch"));
    assert!(matches!(wire_plan(&vec![SketchEntity::Point { position: p(0.0, 0.0) }]), Err(m) if m == "No edges created from sketch"));
    let plan = wire_plan(&vec![
        SketchEntity::Line { start: p(0.0, 0.0), end: p(1.0, 0.0) },
        SketchEntity::Circle { center: p(0.0, 0.0), radius: Real::from_bits(2.0f64.to_bits()) },
        SketchEntity::Spline { control_points: vec![p(0.0, 0.0), p(1.0, 1.0), p(2.0, 0.0)] },
    ])
    .ok()
    .unwrap();
    assert_eq!(plan.len(), 1 + 4 + 2);
    assert_eq!(plan[0], WireEdge::Segment { from: p(0.0, 0.0), to: p(1.0, 0.0) });
    match plan[2] {
        WireEdge::Arc { from_angle, to_angle, .. } => {
            assert_eq!(f64::from_bits(from_angle.bits), std::f64::consts::PI / 2.0);
            assert_eq!(f64::from_bits(to_angle.bits), std::f64::consts::PI);
        },
        _ => panic!("a quarter arc"),
    }
    match plan[4] {
        WireEdge::Arc { to_angle, .. } => assert_eq!(f64::from_bits(to_angle.bits), 2.0 * std::f64::consts::PI),
        _ => panic!("a quarter arc"),
    }
}

#[test]
fn parts_spawn_at_the_source_and_leave() {
    let g = default_graph();
    let mut parts: Vec<Part> = Vec::new();
    let mut next_id = 1u64;
    assert!(!spawn_part(&mut parts, &mut next_id, false, true, &g));
    assert!(!spawn_part(&mut parts, &mut next_id, true, false, &g));
    for _ in 0..20 {
        spawn_part(&mut parts, &mut next_id, true, true, &g);
    }
    assert_eq!(parts.len(), 16);
    assert_eq!(next_id, 17);
    assert!(matches!(parts[0].loc, Loc::At { node: 0, judged: false, .. }));
    let gone = retire_part(&mut parts, 3, next_id);
    assert_eq!(gone.id, 4);
    assert_eq!(parts.len(), 15);
    assert_eq!(parts[3].id, 5);
    assert!(spawn_part(&mut parts, &mut next_id, true, true, &g));
    assert_eq!(parts[15].id, 17);
}

#[test]
fn default_graph_nodes_and_edges() {
    let g = default_graph();
    assert_eq!(g.nodes[1].label.as_deref(), Some("Mill"));
    assert_eq!(f64::from_bits(g.nodes[4].y.bits), -1.0);
    assert!(g.nodes.iter().all(|n| n.dwell.is_none() && n.fail_rate.is_none()));
    assert!(g.edges.iter().all(|e| e.dist.is_none()));
    assert_eq!(g.edges[2].when.as_deref(), Some("pass"));
}
