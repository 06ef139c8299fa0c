use rcad::ai::{
    key_from_contents, max_tokens_bound, model_allowed, plan_chat, poll_step, upstream_reply, ChatRefusal, PollStep,
    UpstreamReply, DEFAULT_MAX_TOKENS, MAX_TOKENS_CAP,
};
use rcad::obj::{obj_face_lines, obj_header};
use rcad::omniverse::{LiveSyncManager, OmniverseConfig};
use rcad::param_map::ParamMap;
use rcad::process::{apply_command, apply_tag_updates, parse_broker, update_rules, Control, Rule};
use rcad::server::upload_route;
use rcad::usd::{face_vertex_counts, int_array_body};
use rcad::Real;

fn rule(tag: &str) -> Rule {
    Rule {
        tag: tag.to_string(),
        op: "<".to_string(),
        value: Real::zero(),
        action: "stop".to_string(),
        arg: Real::zero(),
        message: String::new(),
    }
}

#[test]
fn key_files_are_trimmed() {
    assert_eq!(key_from_contents("  abc123\n"), Some("abc123".to_string()));
    assert_eq!(key_from_contents(" \n\t"), None);
    assert_eq!(key_from_contents(""), None);
}

#[test]
fn chat_guard_rails() {
    assert!(model_allowed(Some("glm-4-plus")));
    assert!(!model_allowed(Some("gpt-4")));
    assert!(!model_allowed(None));
    assert_eq!(max_tokens_bound(0), DEFAULT_MAX_TOKENS);
    assert_eq!(max_tokens_bound(100), 100);
    assert_eq!(max_tokens_bound(8192), 8192);
    assert_eq!(max_tokens_bound(100_000), MAX_TOKENS_CAP);
    let plan = plan_chat(Some("k".to_string()), true, Some("gpt"), 0, true, Some(true)).ok().unwrap();
    assert!(plan.replace_model);
    assert_eq!(plan.max_tokens, 4096);
    assert!(plan.streaming);
    assert_eq!(plan.key, "k");
    let plan = plan_chat(Some("k".to_string()), true, Some("glm-4"), 9000, true, None).ok().unwrap();
    assert!(!plan.replace_model);
    assert_eq!(plan.max_tokens, 8192);
    assert!(!plan.streaming);
    assert_eq!(plan_chat(None, true, None, 0, true, None).err(), Some(ChatRefusal::NotConfigured));
    assert_eq!(plan_chat(Some("k".to_string()), false, None, 0, true, None).err(), Some(ChatRefusal::NotAnObject));
    assert_eq!(plan_chat(Some("k".to_string()), true, None, 0, false, None).err(), Some(ChatRefusal::NoMessages));
    assert_eq!(ChatRefusal::NotConfigured.status(), 503);
    assert_eq!(ChatRefusal::NoMessages.status(), 400);
    assert_eq!(ChatRefusal::NotAnObject.message(), "request body must be a JSON object");
    assert_eq!(upstream_reply(200, true), UpstreamReply::Stream);
    assert_eq!(upstream_reply(200, false), UpstreamReply::Json);
    assert_eq!(upstream_reply(502, true), UpstreamReply::Json);
}

#[test]
fn generation_polling() {
    assert_eq!(poll_step("success", None, Some("m.glb"), Some("b.glb")), PollStep::Ready("m.glb".to_string()));
    assert_eq!(poll_step("success", Some("p.glb"), Some("m.glb"), None), PollStep::Ready("p.glb".to_string()));
    assert_eq!(poll_step("success", None, None, None), PollStep::NoModelUrl);
    assert_eq!(poll_step("banned", None, None, None), PollStep::Failed("Tripo generation banned".to_string()));
    assert_eq!(poll_step("running", Some("x"), None, None), PollStep::Pending);
}

#[test]
fn operator_commands() {
    let mut c = Control::default();
    apply_command(&mut c, "stop");
    assert!(!c.running);
    apply_command(&mut c, "config");
    assert!(!c.running && !c.reset);
    apply_command(&mut c, "reset");
    assert!(c.running && c.reset);
    c.reset = false;
    apply_command(&mut c, "start");
    assert!(c.running && !c.reset);
}

#[test]
fn rules_replace_or_append() {
    let mut rules = vec![rule("a")];
    assert_eq!(update_rules(&mut rules, vec![rule("b"), rule("c")], "append"), 3);
    assert_eq!(rules[2].tag, "c");
    assert_eq!(update_rules(&mut rules, vec![rule("d")], "replace"), 1);
    assert_eq!(rules[0].tag, "d");
}

#[test]
fn tag_overrides() {
    let mut ov: ParamMap<u32> = ParamMap::new();
    let n = apply_tag_updates(&mut ov, vec![("a".to_string(), Some(1)), ("b".to_string(), Some(2)), ("a".to_string(), None)]);
    assert_eq!(n, 1);
    assert_eq!(ov.get("b"), Some(&2));
    assert_eq!(ov.get("a"), None);
    let n = apply_tag_updates(&mut ov, vec![("b".to_string(), Some(5))]);
    assert_eq!(n, 1);
    assert_eq!(ov.get("b"), Some(&5));
}

#[test]
fn broker_setting() {
    assert_eq!(parse_broker("localhost:1884"), Some(("localhost".to_string(), 1884)));
    assert_eq!(parse_broker("broker"), Some(("broker".to_string(), 1883)));
    assert_eq!(parse_broker("host:notaport"), Some(("host".to_string(), 1883)));
    assert_eq!(parse_broker("host:70000"), Some(("host".to_string(), 1883)));
    assert_eq!(parse_broker("a:b:1"), Some(("a:b".to_string(), 1)));
    assert_eq!(parse_broker("   "), None);
    assert_eq!(parse_broker(""), None);
}

#[test]
fn usd_integer_arrays() {
    assert_eq!(int_array_body(&vec![0, 1, 2]), "            0, 1, 2\n");
    assert_eq!(int_array_body(&vec![]), "            \n");
    let counts = face_vertex_counts(21);
    assert_eq!(counts.len(), 21);
    let text = int_array_body(&counts);
    let expected = format!("            {}, \n            3\n", vec!["3"; 20].join(", "));
    assert_eq!(text, expected);
}

#[test]
fn obj_export_text() {
    assert_eq!(obj_header(3, 1), "# Exported by rCAD\n# Vertices: 3\n# Triangles: 1\n\n");
    assert_eq!(obj_face_lines(&vec![0, 1, 2], false), "f 1//1 2//2 3//3\n");
    assert_eq!(obj_face_lines(&vec![0, 1, 2, 2, 3], true), "f 1/1/1 2/2/2 3/3/3\n");
}

#[test]
fn upload_dispatch() {
    assert_eq!(upload_route(Some("Part.STEP")), Ok(()));
    assert_eq!(upload_route(Some("a.stp")), Ok(()));
    assert_eq!(
        upload_route(Some("Model.STL")),
        Err("Server import not supported for 'model.stl' (use STEP, or import STL/OBJ client-side)".to_string())
    );
    assert!(upload_route(None).is_err());
}

#[test]
fn live_sync_subscribers() {
    let mut m = LiveSyncManager::new(OmniverseConfig::default());
    m.subscribe("ui");
    m.subscribe("log");
    m.subscribe("ui");
    assert_eq!(m.subscriber_ids().len(), 2);
    m.unsubscribe("ui");
    assert_eq!(m.subscriber_ids(), vec!["log".to_string()]);
}

#[test]
fn placeholder_exports() {
    let gltf = rcad::server::gltf_export_content();
    assert!(gltf.starts_with("{\n  \"asset\": {\n    \"version\": \"2.0\","));
    assert!(gltf.ends_with("\"scene\": 0\n}"));
    let usd = rcad::server::usd_export_content();
    assert!(usd.starts_with("#usda 1.0\n(\n    defaultPrim = \"Root\""));
    assert!(usd.ends_with("def Xform \"Root\"\n{\n}\n"));
}
