use rcad::process::{
    arrive, default_graph, depart, flow_status, inspection_text, may_spawn, primary_part, rule_action, run_rules,
    source_node, Departure, LineTally, Loc, Part, Rule, RuleAction, MAX_PARTS,
};
use rcad::param_map::ParamMap;
use rcad::Real;

fn rule(tag: &str, action: &str) -> Rule {
    Rule {
        tag: tag.to_string(),
        op: ">".to_string(),
        value: Real::from_bits(0),
        action: action.to_string(),
        arg: Real::from_bits(0),
        message: String::new(),
    }
}

#[test]
fn inspection_then_branch() {
    let g = default_graph();
    let mut t = LineTally::new();
    // The mill sends the part on to inspection.
    let (d, v) = depart(&mut t, &g, 1, None, false, true);
    assert_eq!(d, Departure::Travel(1));
    assert_eq!(v, None);
    assert_eq!(t.inspection_num, 0);
    assert_eq!(t.counts.get("station1"), Some(&1));
    // A failed inspection routes to the reject sink.
    let (d, v) = depart(&mut t, &g, 2, None, false, false);
    assert_eq!(d, Departure::Travel(3));
    assert_eq!(v, Some(false));
    assert_eq!(t.inspection_num, 1);
    assert_eq!(t.last_inspection, Some(false));
    // An already judged part is not inspected again.
    let (d, v) = depart(&mut t, &g, 2, Some(true), true, false);
    assert_eq!(d, Departure::Travel(2));
    assert_eq!(v, Some(true));
    assert_eq!(t.inspection_num, 1);
    assert_eq!(t.counts.get("station2"), Some(&2));
}

#[test]
fn sinks_count_passes_and_fails() {
    let g = default_graph();
    let mut t = LineTally::new();
    let (d, _) = depart(&mut t, &g, 4, Some(false), true, true);
    assert_eq!(d, Departure::Finished);
    let (d, _) = depart(&mut t, &g, 3, Some(true), true, true);
    assert_eq!(d, Departure::Finished);
    let (d, _) = depart(&mut t, &g, 3, None, false, true);
    assert_eq!(d, Departure::Finished);
    assert_eq!(t.fail_count, 1);
    assert_eq!(t.pass_count, 2);
    assert_eq!(t.counts.get("pack"), Some(&2));
    assert_eq!(t.counts.get("reject"), Some(&1));
}

#[test]
fn dead_end_drops_the_part() {
    let mut g = default_graph();
    g.edges.truncate(1);
    let mut t = LineTally::new();
    let (d, _) = depart(&mut t, &g, 1, None, false, true);
    assert_eq!(d, Departure::Dropped);
    assert_eq!(t.counts.get("station1"), None);
}

#[test]
fn arrival_and_spawning() {
    let g = default_graph();
    let global = Real::from_bits(0x3FF8_0000_0000_0000);
    assert_eq!(arrive(&g, 0, global), Some((1, global)));
    assert_eq!(arrive(&g, 2, global), Some((3, Real::zero())));
    let mut h = default_graph();
    h.edges[0].to = "nowhere".to_string();
    assert_eq!(arrive(&h, 0, global), None);
    assert_eq!(source_node(&g), Some(0));
    assert!(may_spawn(true, true, MAX_PARTS - 1));
    assert!(!may_spawn(true, true, MAX_PARTS));
    assert!(!may_spawn(false, true, 0));
}

#[test]
fn status_texts() {
    let g = default_graph();
    let at = |node: usize, id: u64| Part {
        id,
        verdict: None,
        loc: Loc::At { node, dwell_left: Real::zero(), judged: false },
    };
    assert_eq!(flow_status(&g, None), "IDLE");
    assert_eq!(flow_status(&g, Some(at(2, 1))), "INSPECTING \u{b7} Inspect");
    assert_eq!(flow_status(&g, Some(at(0, 1))), "LOADING \u{b7} Load");
    assert_eq!(flow_status(&g, Some(at(3, 1))), "Pack");
    let moving = Part { id: 1, verdict: None, loc: Loc::Travel { edge: 0, prog: Real::zero(), dist: Real::one() } };
    assert_eq!(flow_status(&g, Some(moving)), "MOVING");
    assert_eq!(primary_part(&vec![at(0, 5), at(1, 2), at(2, 2)]), Some(1));
    assert_eq!(primary_part(&vec![]), None);
    assert_eq!(inspection_text(Some(true)), "PASS");
    assert_eq!(inspection_text(None), "\u{2014}");
}

#[test]
fn control_rules_fire_on_rising_edge() {
    let rules = vec![rule("a", "stop"), rule("b", "alarm"), rule("c", "set_speed"), rule("d", "alarm")];
    let keys: Vec<String> = vec!["a".into(), "b".into(), "c".into(), "d".into()];
    let mut memory: ParamMap<bool> = ParamMap::new();
    let o = run_rules(&rules, &vec![true, false, true, true], &keys, &mut memory);
    assert_eq!(o.fired, vec![0, 2]);
    assert_eq!(o.alarm, Some(3));
    // The same conditions again fire nothing; alarms stay raised.
    let o = run_rules(&rules, &vec![true, false, true, true], &keys, &mut memory);
    assert!(o.fired.is_empty());
    assert_eq!(o.alarm, Some(3));
    // A falling then rising condition fires again.
    let _ = run_rules(&rules, &vec![false, false, true, false], &keys, &mut memory);
    let o = run_rules(&rules, &vec![true, false, true, false], &keys, &mut memory);
    assert_eq!(o.fired, vec![0]);
    assert_eq!(o.alarm, None);
    assert_eq!(rule_action("set_dwell"), Some(RuleAction::SetDwell));
    assert_eq!(rule_action("alarm"), None);
}
