use rcad::ids::{new_uuid_text, EntityId, FeatureId};
use rcad::process::{check_graph, default_graph, inspection_score, node_dwell, node_idx, pick_edge, Control, FlowEdge, FlowGraph};
use rcad::render::{decode_pick, MaterialLibrary, MaterialUniforms, SelectionManager};
use rcad::server::{
    connect_reply, disconnect_reply, generate_iges_placeholder, generate_step_placeholder, start_live_sync_reply,
    step_export_content, stl_content_type, stl_export_content, stop_live_sync_reply, upload_reply, ConnectRequest,
    DateTime, GenerateRequest, LiveSyncRequest, OcctService, UploadRequest, Utc,
};
use rcad::text::{trim};
use rcad::Real;

#[test]
fn uuid_text_of_known_value() {
    let id = FeatureId(0xa1a2a3a4b1b2c1c2d1d2d3d4d5d6d7d8);
    assert_eq!(id.to_text(), "a1a2a3a4-b1b2-c1c2-d1d2-d3d4d5d6d7d8");
    let e = EntityId(0);
    assert_eq!(e.to_text(), "00000000-0000-0000-0000-000000000000");
}

#[test]
fn new_ids_are_version_4() {
    let a = FeatureId::new();
    let b = FeatureId::new();
    assert_ne!(a, b);
    assert_eq!((a.0 >> 76) & 0xf, 4);
    assert_eq!((a.0 >> 62) & 0x3, 2);
    let t = new_uuid_text();
    assert_eq!(t.len(), 36);
    assert_eq!(&t[14..15], "4");
}

#[test]
fn export_contents() {
    let step = step_export_content();
    assert!(step.starts_with("ISO-10303-21;\nHEADER;"));
    assert!(step.contains("FILE_NAME('export.step','2024-01-01T00:00:00'"));
    assert!(step.ends_with("END-ISO-10303-21;"));
    assert_eq!(step, generate_step_placeholder());
    let iges = generate_iges_placeholder();
    assert!(iges.contains("11Hexport.igs;"));
    assert_eq!(stl_export_content(true), vec![0u8; 84]);
    assert_eq!(stl_export_content(false), b"solid rcad_export\nendsolid rcad_export\n".to_vec());
    assert_eq!(stl_content_type(true), "application/octet-stream");
    assert_eq!(stl_content_type(false), "text/plain");
    let d: DateTime = Utc::now();
    assert_eq!(d.format("%Y"), "2024-01-01T00:00:00");
}

#[test]
fn omniverse_replies() {
    let c = connect_reply(&ConnectRequest { nucleus_url: "omniverse://x/".to_string(), username: None, api_key: None });
    assert!(c.success);
    assert_eq!(c.message, "Connected to Omniverse");
    assert_eq!(c.session_id.unwrap().len(), 36);
    let d = disconnect_reply("abc");
    assert_eq!(d.message, "Disconnected from Omniverse");
    assert!(d.session_id.is_none());
    let u = upload_reply(&UploadRequest {
        geometry_id: "g".to_string(),
        nucleus_path: "/Projects/p.usd".to_string(),
        session_id: "s".to_string(),
    });
    assert_eq!(u.url.unwrap(), "omniverse://localhost/Projects/p.usd");
    let req = LiveSyncRequest { session_id: "s".to_string(), nucleus_path: "/p".to_string() };
    let s = start_live_sync_reply(&req);
    assert_eq!(s.message, "Live sync started");
    assert!(s.channel_id.is_some());
    let t = stop_live_sync_reply(&req);
    assert_eq!(t.message, "Live sync stopped");
    assert!(t.channel_id.is_none());
}

#[test]
fn generate_prompt_is_trimmed() {
    assert_eq!(GenerateRequest::new("  a red chair \n").checked_prompt().unwrap(), "a red chair");
    assert_eq!(GenerateRequest::new(" \t ").checked_prompt().unwrap_err(), "prompt is required");
    assert_eq!(trim("\u{3000}x y\u{a0}"), "x y");
    assert_eq!(trim(""), "");
}

#[test]
fn occt_service_placeholders() {
    let s = OcctService::new();
    let g = s.import_step_text("ISO-10303-21;").unwrap();
    assert_eq!(g.id.len(), 36);
    assert!(g.bodies.is_empty());
    let body = s.boolean_union(&rcad::server::BodyData { id: "a".into(), faces: vec![], edges: vec![], vertices: vec![] },
        &rcad::server::BodyData { id: "b".into(), faces: vec![], edges: vec![], vertices: vec![] }).unwrap();
    assert!(body.faces.is_empty());
    assert_ne!(body.id, "a");
    let m = s.tessellate(&body, 0.5f32.to_bits()).unwrap();
    assert!(m.indices.is_empty());
}

#[test]
fn default_graph_routes_by_verdict() {
    let g = default_graph();
    assert_eq!(g.nodes.len(), 5);
    assert_eq!(node_idx(&g, "station2"), Some(2));
    assert_eq!(node_idx(&g, "nowhere"), None);
    assert_eq!(pick_edge(&g, "station2", Some(true)), Some(2));
    assert_eq!(pick_edge(&g, "station2", Some(false)), Some(3));
    assert_eq!(pick_edge(&g, "station2", None), Some(2));
    assert_eq!(pick_edge(&g, "load", None), Some(0));
    assert_eq!(pick_edge(&g, "pack", None), None);
    assert_eq!(check_graph(&g), Ok((5, 4)));
    assert_eq!(f64::from_bits(g.nodes[4].y.bits), -1.0);
    assert_eq!(f64::from_bits(g.spawn_interval.bits), 3.0);
}

#[test]
fn pick_edge_prefers_unconditional_then_any() {
    let mut g = default_graph();
    g.edges.push(FlowEdge { from: "station2".into(), to: "pack".into(), when: Some("always".into()), dist: None });
    // a part without inspection result takes the unconditional edge
    assert_eq!(pick_edge(&g, "station2", None), Some(4));
    let g2 = FlowGraph {
        nodes: g.nodes.clone(),
        edges: vec![FlowEdge { from: "a".into(), to: "b".into(), when: Some("weird".into()), dist: None }],
        spawn_interval: Real::from_bits(0),
    };
    assert_eq!(pick_edge(&g2, "a", Some(true)), Some(0));
}

#[test]
fn graph_without_sink_is_rejected() {
    let mut g = default_graph();
    g.nodes.retain(|n| n.kind != "sink");
    assert_eq!(check_graph(&g), Err("graph needs at least one source and one sink node".to_string()));
    let empty = FlowGraph { nodes: vec![], edges: vec![], spawn_interval: Real::from_bits(0) };
    assert!(check_graph(&empty).is_err());
}

#[test]
fn inspection_scores_and_dwell() {
    assert_eq!(inspection_score(0), 0);
    assert_eq!(inspection_score(1), (2654435761u64 >> 8) % 100);
    assert_eq!(inspection_score(u64::MAX), (u64::MAX.wrapping_mul(2654435761) >> 8) % 100);
    let g = default_graph();
    let global = Real::from_bits(1.5f64.to_bits());
    assert_eq!(node_dwell(&g.nodes[1], global), global);
    assert_eq!(node_dwell(&g.nodes[0], global).bits, 0);
    let c = Control::default();
    assert_eq!(f64::from_bits(c.speed.bits), 60.0);
}

#[test]
fn selection_set_operations() {
    let mut s = SelectionManager::new(800, 600);
    s.select(3);
    s.select(5);
    assert!(s.is_selected(3));
    assert_eq!(s.selection_count(), 2);
    s.toggle_selection(3);
    assert!(!s.is_selected(3));
    s.toggle_selection(3);
    assert!(s.is_selected(3));
    s.deselect(5);
    assert_eq!(s.selection_count(), 1);
    s.set_hovered(Some(9));
    assert_eq!(s.hovered(), Some(9));
    s.clear_selection();
    assert_eq!(s.selection_count(), 0);
    assert!(s.pick_in_bounds(799, 599));
    assert!(!s.pick_in_bounds(800, 0));
    s.resize(10, 10);
    assert!(!s.pick_in_bounds(10, 5));
    assert!(s.selected_entities().is_empty());
}

#[test]
fn pick_decoding() {
    assert_eq!(decode_pick([0, 0, 0, 0]), None);
    assert_eq!(decode_pick([1, 0, 0, 0]), Some(1));
    assert_eq!(decode_pick([0x78, 0x56, 0x34, 0x12]), Some(0x12345678));
}

#[test]
fn material_presets() {
    let d = MaterialUniforms::default();
    assert_eq!(f32::from_bits(d.roughness), 0.5);
    let m = MaterialLibrary::metal([0, 0, 0]);
    assert_eq!(f32::from_bits(m.metallic), 1.0);
    assert_eq!(f32::from_bits(m.roughness), 0.3);
    let gold = MaterialLibrary::gold();
    assert_eq!(f32::from_bits(gold.base_color[1]), 0.76);
    assert_eq!(f32::from_bits(MaterialLibrary::glass().base_color[3]), 0.3);
    assert_eq!(f32::from_bits(MaterialLibrary::rubber([0, 0, 0]).roughness), 0.9);
}
