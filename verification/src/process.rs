//! The process-flow graph of the production-line twin: its nodes and
//! transitions, how a part chooses its next transition, and the checks on an
//! authored graph. Positions and times are 64-bit float bit patterns.
use vstd::prelude::*;
use crate::Real;
use crate::param_map::ParamMap;
use crate::text::{chars_of, concat, parse_usize, parse_usize_range, string_from_chars, trim, trimmed};

verus! {

/// A station of the line.
#[derive(Debug, Clone)]
pub struct FlowNode {
    pub id: String,
    /// `source`, `process`, `inspect` or `sink`.
    pub kind: String,
    /// Position along the line, in mm.
    pub pos: Real,
    /// Lane offset for the 2D layout.
    pub y: Real,
    /// Processing time of this node, else the line's.
    pub dwell: Option<Real>,
    /// Defect rate of an inspection, else the line's.
    pub fail_rate: Option<Real>,
    pub label: Option<String>,
}

/// A transition between stations; `when` routes on an inspection verdict
/// (`pass`, `fail`), and none or `always` is unconditional.
#[derive(Debug, Clone)]
pub struct FlowEdge {
    pub from: String,
    pub to: String,
    pub when: Option<String>,
    /// Travel distance, else derived from the node spacing.
    pub dist: Option<Real>,
}

/// The process graph and the time between new parts at the source.
#[derive(Debug, Clone)]
pub struct FlowGraph {
    pub nodes: Vec<FlowNode>,
    pub edges: Vec<FlowEdge>,
    /// Seconds between new parts.
    pub spawn_interval: Real,
}

/// Operator settings of the line.
#[derive(Debug, Clone, Copy)]
pub struct Control {
    pub running: bool,
    pub reset: bool,
    /// Station processing time, s.
    pub dwell: Real,
    /// Belt speed, mm/s.
    pub speed: Real,
    /// Inspection defect rate, %.
    pub fail_rate: Real,
}

impl Default for Control {
    /// Running, dwell 1.5 s, speed 60 mm/s, defect rate 20 %.
    fn default() -> (c: Control)
        ensures
            c.running,
            !c.reset,
            c.dwell.bits == 0x3FF8_0000_0000_0000u64,
            c.speed.bits == 0x404E_0000_0000_0000u64,
            c.fail_rate.bits == 0x4034_0000_0000_0000u64,
    {
        Control {
            running: true,
            reset: false,
            dwell: Real::from_bits(0x3FF8_0000_0000_0000u64),
            speed: Real::from_bits(0x404E_0000_0000_0000u64),
            fail_rate: Real::from_bits(0x4034_0000_0000_0000u64),
        }
    }
}



/// An automation rule: when `tag op value` holds, run `action`.
#[derive(Debug, Clone)]
pub struct Rule {
    pub tag: String,
    /// One of `>`, `<`, `>=`, `<=`, `==`, `!=`.
    pub op: String,
    pub value: Real,
    /// One of `stop`, `start`, `set_speed`, `set_dwell`, `set_fail_rate`, `alarm`.
    pub action: String,
    pub arg: Real,
    pub message: String,
}

/// Position of the first node with identifier `id`.
pub open spec fn first_node(nodes: Seq<FlowNode>, id: Seq<char>, i: int) -> bool {
    0 <= i < nodes.len() && nodes[i].id@ == id && forall|j: int| 0 <= j < i ==> nodes[j].id@ != id
}

/// The position of the node with identifier `id`.
pub fn node_idx(g: &FlowGraph, id: &str) -> (r: Option<usize>)
    ensures
        match r {
            Some(i) => first_node(g.nodes@, id@, i as int),
            None => forall|j: int| 0 <= j < g.nodes@.len() ==> g.nodes@[j].id@ != id@,
        },
{
    let key = String::from_str(id);
    let mut i: usize = 0;
    while i < g.nodes.len()
        invariant
            key@ == id@,
            i <= g.nodes@.len(),
            forall|j: int| 0 <= j < i ==> g.nodes@[j].id@ != id@,
        decreases g.nodes@.len() - i,
    {
        if g.nodes[i].id == key {
            return Some(i);
        }
        i = i + 1;
    }
    None
}

/// The `when` label an edge must carry for a part with this verdict.
pub open spec fn wanted_label(verdict: Option<bool>) -> Seq<char> {
    match verdict {
        Some(true) => "pass"@,
        Some(false) => "fail"@,
        None => "always"@,
    }
}

/// Whether an edge carries the label `want`.
pub open spec fn has_label(e: FlowEdge, want: Seq<char>) -> bool {
    e.when matches Some(w) && w@ == want
}

/// Whether an edge is unconditional: no label, `always`, or empty.
pub open spec fn unconditional(e: FlowEdge) -> bool {
    match e.when {
        None => true,
        Some(w) => w@ == "always"@ || w@.len() == 0,
    }
}

/// Choice levels of an outgoing edge: 0 matches the verdict, 1 is
/// unconditional, 2 is any edge.
pub open spec fn fits_level(e: FlowEdge, want: Seq<char>, level: int) -> bool {
    if level == 0 {
        has_label(e, want)
    } else if level == 1 {
        unconditional(e)
    } else {
        true
    }
}

/// `i` is the first edge leaving `node` at the given choice level.
pub open spec fn first_out(edges: Seq<FlowEdge>, node: Seq<char>, want: Seq<char>, level: int, i: int) -> bool {
    &&& 0 <= i < edges.len()
    &&& edges[i].from@ == node
    &&& fits_level(edges[i], want, level)
    &&& forall|j: int| 0 <= j < i ==> !(edges[j].from@ == node && fits_level(edges[j], want, level))
}

/// Whether some edge leaves `node` at the given choice level.
pub open spec fn some_out(edges: Seq<FlowEdge>, node: Seq<char>, want: Seq<char>, level: int) -> bool {
    exists|i: int| 0 <= i < edges.len() && edges[i].from@ == node && fits_level(edges[i], want, level)
}

fn label_is(w: &Option<String>, want: &str) -> (b: bool)
    ensures
        b == (w matches Some(x) && x@ == want@),
{
    match w {
        Some(x) => *x == String::from_str(want),
        None => false,
    }
}

fn is_unconditional(w: &Option<String>) -> (b: bool)
    ensures
        b == (match *w {
            None => true,
            Some(x) => x@ == "always"@ || x@.len() == 0,
        }),
{
    match w {
        None => true,
        Some(x) => *x == String::from_str("always") || x.unicode_len() == 0,
    }
}

/// The first edge leaving `node` at a choice level.
fn find_out(g: &FlowGraph, node: &String, want: &str, level: u8) -> (r: Option<usize>)
    requires
        level <= 2,
    ensures
        match r {
            Some(i) => first_out(g.edges@, node@, want@, level as int, i as int),
            None => !some_out(g.edges@, node@, want@, level as int),
        },
{
    let mut i: usize = 0;
    while i < g.edges.len()
        invariant
            level <= 2,
            i <= g.edges@.len(),
            forall|j: int| 0 <= j < i ==> !(g.edges@[j].from@ == node@ && fits_level(g.edges@[j], want@, level as int)),
        decreases g.edges@.len() - i,
    {
        let e = &g.edges[i];
        if e.from == *node {
            let fits = if level == 0 {
                label_is(&e.when, want)
            } else if level == 1 {
                is_unconditional(&e.when)
            } else {
                true
            };
            if fits {
                return Some(i);
            }
        }
        i = i + 1;
    }
    None
}

/// `r` is the edge a part with `verdict` leaves `node` by: the first edge
/// labelled with the verdict, else the first unconditional edge, else the first
/// edge; none when no edge leaves the node.
pub open spec fn picks(e: Seq<FlowEdge>, node: Seq<char>, verdict: Option<bool>, r: Option<usize>) -> bool {
    let w = wanted_label(verdict);
    if some_out(e, node, w, 0) {
        r matches Some(i) && first_out(e, node, w, 0, i as int)
    } else if some_out(e, node, w, 1) {
        r matches Some(i) && first_out(e, node, w, 1, i as int)
    } else if some_out(e, node, w, 2) {
        r matches Some(i) && first_out(e, node, w, 2, i as int)
    } else {
        r is None
    }
}

/// The edge a part leaves `node_id` by, chosen from the part's most recent
/// inspection result: the first edge labelled with that result (`pass`, `fail`, or `always` when
/// there is none), else the first unconditional edge, else the first edge.
pub fn pick_edge(g: &FlowGraph, node_id: &str, verdict: Option<bool>) -> (r: Option<usize>)
    ensures
        picks(g.edges@, node_id@, verdict, r),
{
    let want = match verdict {
        Some(true) => "pass",
        Some(false) => "fail",
        None => "always",
    };
    let node = String::from_str(node_id);
    match find_out(g, &node, want, 0) {
        Some(i) => return Some(i),
        None => {},
    }
    match find_out(g, &node, want, 1) {
        Some(i) => return Some(i),
        None => {},
    }
    find_out(g, &node, want, 2)
}

/// A part that has a verdict-labelled way out takes it; with none, any
/// unconditional way; a node without outgoing edges drops the part.
pub proof fn law_pick_prefers_verdict(e: Seq<FlowEdge>, node: Seq<char>, w: Seq<char>, i: int)
    requires
        first_out(e, node, w, 0, i),
    ensures
        some_out(e, node, w, 0),
        has_label(e[i], w),
        some_out(e, node, w, 2),
{
}

/// The processing time at a node: its own, or the line's, for processing and
/// inspection stations; sources and sinks take no time.
pub open spec fn dwell_of(n: FlowNode, global: Real) -> Real {
    if n.kind@ == "process"@ || n.kind@ == "inspect"@ {
        match n.dwell {
            Some(d) => d,
            None => global,
        }
    } else {
        Real { bits: 0 }
    }
}

/// The processing time at a node: its own, or the line's, for processing and
/// inspection stations; sources and sinks take no time.
pub fn node_dwell(n: &FlowNode, global: Real) -> (r: Real)
    ensures
        r == dwell_of(*n, global),
{
    if n.kind == String::from_str("process") || n.kind == String::from_str("inspect") {
        match n.dwell {
            Some(d) => d,
            None => global,
        }
    } else {
        Real::zero()
    }
}

/// The mock vision score (0 to 99) of the `n`-th inspection; the part passes
/// when the score is at least the defect rate.
pub fn inspection_score(n: u64) -> (s: u64)
    ensures
        s == ((n * 2654435761) % 0x1_0000_0000_0000_0000 / 256) % 100,
        s < 100,
{
    let w = n.wrapping_mul(2654435761);
    assert(w == (n * 2654435761) % 0x1_0000_0000_0000_0000);
    let h = w >> 8;
    assert(h == w / 256) by (bit_vector)
        requires
            h == w >> 8,
    ;
    h % 100
}

/// Whether some node has the kind `kind`.
pub open spec fn has_kind(nodes: Seq<FlowNode>, kind: Seq<char>) -> bool {
    exists|i: int| 0 <= i < nodes.len() && nodes[i].kind@ == kind
}

fn any_kind(g: &FlowGraph, kind: &str) -> (b: bool)
    ensures
        b == has_kind(g.nodes@, kind@),
{
    let k = String::from_str(kind);
    let mut i: usize = 0;
    while i < g.nodes.len()
        invariant
            k@ == kind@,
            i <= g.nodes@.len(),
            forall|j: int| 0 <= j < i ==> g.nodes@[j].kind@ != kind@,
        decreases g.nodes@.len() - i,
    {
        if g.nodes[i].kind == k {
            return true;
        }
        i = i + 1;
    }
    false
}

/// Checks an authored graph: it needs at least one source and one sink node.
/// Gives its node and edge counts when it passes.
pub fn check_graph(g: &FlowGraph) -> (r: Result<(usize, usize), String>)
    ensures
        (has_kind(g.nodes@, "source"@) && has_kind(g.nodes@, "sink"@)) ==> r == Ok::<(usize, usize), String>(
            (g.nodes@.len() as usize, g.edges@.len() as usize),
        ),
        !(has_kind(g.nodes@, "source"@) && has_kind(g.nodes@, "sink"@)) ==> r is Err && r->Err_0@
            == "graph needs at least one source and one sink node"@,
{
    let has_source = any_kind(g, "source");
    let has_sink = any_kind(g, "sink");
    if g.nodes.len() == 0 || !has_source || !has_sink {
        return Err(String::from_str("graph needs at least one source and one sink node"));
    }
    Ok((g.nodes.len(), g.edges.len()))
}

fn flow_node(id: &str, kind: &str, pos: u64, y: u64, label: &str) -> (n: FlowNode)
    ensures
        n.id@ == id@,
        n.kind@ == kind@,
        n.pos.bits == pos,
        n.y.bits == y,
        n.dwell is None,
        n.fail_rate is None,
        n.label matches Some(l) && l@ == label@,
{
    FlowNode {
        id: String::from_str(id),
        kind: String::from_str(kind),
        pos: Real::from_bits(pos),
        y: Real::from_bits(y),
        dwell: None,
        fail_rate: None,
        label: Some(String::from_str(label)),
    }
}

fn flow_edge(from: &str, to: &str, when: Option<&str>) -> (e: FlowEdge)
    ensures
        e.from@ == from@,
        e.to@ == to@,
        match when {
            Some(w) => e.when matches Some(x) && x@ == w@,
            None => e.when is None,
        },
        e.dist is None,
{
    FlowEdge {
        from: String::from_str(from),
        to: String::from_str(to),
        when: match when {
            Some(w) => Some(String::from_str(w)),
            None => None,
        },
        dist: None,
    }
}

/// Node `n` has identifier `id`, kind `kind`, position `pos` and height `y`
/// (bit patterns), the label `label`, and no dwell time or failure rate of its own.
pub open spec fn plain_node(n: FlowNode, id: Seq<char>, kind: Seq<char>, pos: u64, y: u64, label: Seq<char>) -> bool {
    &&& n.id@ == id
    &&& n.kind@ == kind
    &&& n.pos.bits == pos
    &&& n.y.bits == y
    &&& n.dwell is None
    &&& n.fail_rate is None
    &&& n.label matches Some(l) && l@ == label
}

/// Edge `e` runs from `from` to `to`, taken when the verdict is `when` (always
/// when none), with no distance of its own.
pub open spec fn plain_edge(e: FlowEdge, from: Seq<char>, to: Seq<char>, when: Option<Seq<char>>) -> bool {
    &&& e.from@ == from
    &&& e.to@ == to
    &&& e.dist is None
    &&& match when {
        Some(w) => e.when matches Some(x) && x@ == w,
        None => e.when is None,
    }
}

/// The default line: load, then mill, then inspect; passed parts go to pack and
/// failed ones to reject. A new part enters every 3 s.
pub fn default_graph() -> (g: FlowGraph)
    ensures
        g.nodes@.len() == 5,
        plain_node(g.nodes@[0], "load"@, "source"@, 0, 0, "Load"@),
        plain_node(g.nodes@[1], "station1"@, "process"@, 0x4059_0000_0000_0000u64, 0, "Mill"@),
        plain_node(g.nodes@[2], "station2"@, "inspect"@, 0x406B_8000_0000_0000u64, 0, "Inspect"@),
        plain_node(g.nodes@[3], "pack"@, "sink"@, 0x4074_0000_0000_0000u64, 0, "Pack"@),
        plain_node(g.nodes@[4], "reject"@, "sink"@, 0x4070_4000_0000_0000u64, 0xBFF0_0000_0000_0000u64, "Reject"@),
        g.edges@.len() == 4,
        plain_edge(g.edges@[0], "load"@, "station1"@, None),
        plain_edge(g.edges@[1], "station1"@, "station2"@, None),
        plain_edge(g.edges@[2], "station2"@, "pack"@, Some("pass"@)),
        plain_edge(g.edges@[3], "station2"@, "reject"@, Some("fail"@)),
        g.spawn_interval.bits == 0x4008_0000_0000_0000u64,
{
    let mut nodes: Vec<FlowNode> = Vec::new();
    nodes.push(flow_node("load", "source", 0, 0, "Load"));
    nodes.push(flow_node("station1", "process", 0x4059_0000_0000_0000u64, 0, "Mill"));
    nodes.push(flow_node("station2", "inspect", 0x406B_8000_0000_0000u64, 0, "Inspect"));
    nodes.push(flow_node("pack", "sink", 0x4074_0000_0000_0000u64, 0, "Pack"));
    nodes.push(flow_node("reject", "sink", 0x4070_4000_0000_0000u64, 0xBFF0_0000_0000_0000u64, "Reject"));
    let mut edges: Vec<FlowEdge> = Vec::new();
    edges.push(flow_edge("load", "station1", None));
    edges.push(flow_edge("station1", "station2", None));
    edges.push(flow_edge("station2", "pack", Some("pass")));
    edges.push(flow_edge("station2", "reject", Some("fail")));
    FlowGraph { nodes, edges, spawn_interval: Real::from_bits(0x4008_0000_0000_0000u64) }
}


/// The most parts the line holds at once.
pub const MAX_PARTS: usize = 16;

/// Where a part is: dwelling at a node, or travelling an edge.
#[derive(Debug, Clone, Copy)]
pub enum Loc {
    At { node: usize, dwell_left: Real, judged: bool },
    Travel { edge: usize, prog: Real, dist: Real },
}

/// A work piece flowing through the graph, with the verdict of its last
/// inspection.
#[derive(Debug, Clone, Copy)]
pub struct Part {
    pub id: u64,
    pub verdict: Option<bool>,
    pub loc: Loc,
}

/// Running totals of the line.
pub struct LineTally {
    /// Parts that reached a sink without a failed inspection.
    pub pass_count: u64,
    /// Parts that reached a sink after a failed inspection.
    pub fail_count: u64,
    /// Inspections made so far.
    pub inspection_num: u64,
    /// The verdict of the latest inspection.
    pub last_inspection: Option<bool>,
    /// How many parts left each node, by node identifier.
    pub counts: ParamMap<u64>,
}

impl LineTally {
    /// All totals at zero.
    pub fn new() -> (t: LineTally)
        ensures
            t.pass_count == 0,
            t.fail_count == 0,
            t.inspection_num == 0,
            t.last_inspection is None,
            t.counts@ == Map::<Seq<char>, u64>::empty(),
    {
        LineTally { pass_count: 0, fail_count: 0, inspection_num: 0, last_inspection: None, counts: ParamMap::new() }
    }
}

/// `c` with one more part counted under `k`.
pub open spec fn bumped(c: Map<Seq<char>, u64>, k: Seq<char>) -> Map<Seq<char>, u64> {
    c.insert(k, ((if c.contains_key(k) { c[k] as int } else { 0 }) + 1) as u64)
}

/// Whether every count can still grow.
pub open spec fn counts_below_max(c: Map<Seq<char>, u64>) -> bool {
    forall|k: Seq<char>| c.contains_key(k) ==> #[trigger] c[k] < u64::MAX
}

fn bump(counts: &mut ParamMap<u64>, id: &String)
    requires
        counts_below_max(old(counts)@),
    ensures
        final(counts)@ == bumped(old(counts)@, id@),
{
    let now = match counts.get(id.as_str()) {
        Some(c) => *c,
        None => 0,
    };
    counts.insert(id.as_str(), now + 1);
}

/// How a part leaves a node once its dwell is over.
#[derive(Debug, Clone, Copy, PartialEq, Eq, Structural)]
pub enum Departure {
    /// It reached a sink and leaves the line.
    Finished,
    /// It starts along this edge.
    Travel(usize),
    /// No edge leaves the node: it is dropped from the line.
    Dropped,
}

/// Whether a part whose dwell at `n` is over gets inspected now.
pub open spec fn inspects(n: FlowNode, judged: bool) -> bool {
    n.kind@ == "inspect"@ && !judged
}

/// Ends a part's stay at `node`. An inspection station judges a part it has
/// not judged yet: `passes` is the outcome for the current inspection number
/// (its score against the defect rate), which becomes the part's verdict and
/// the line's latest result. A sink finishes the part and counts it as passed
/// unless its verdict is a failure; elsewhere the part takes the edge
/// [`pick_edge`] chooses, or is dropped when there is none. Gives the way out
/// and the part's verdict afterwards.
pub fn depart(
    tally: &mut LineTally,
    g: &FlowGraph,
    node: usize,
    verdict: Option<bool>,
    judged: bool,
    passes: bool,
) -> (r: (Departure, Option<bool>))
    requires
        node < g.nodes@.len(),
        old(tally).inspection_num < u64::MAX,
        old(tally).pass_count < u64::MAX,
        old(tally).fail_count < u64::MAX,
        counts_below_max(old(tally).counts@),
    ensures
        ({
            let n = g.nodes@[node as int];
            let v = if inspects(n, judged) { Some(passes) } else { verdict };
            &&& r.1 == v
            &&& final(tally).inspection_num == old(tally).inspection_num + if inspects(n, judged) { 1int } else { 0 }
            &&& final(tally).last_inspection == if inspects(n, judged) { Some(passes) } else { old(tally).last_inspection }
            &&& if n.kind@ == "sink"@ {
                &&& r.0 == Departure::Finished
                &&& final(tally).counts@ == bumped(old(tally).counts@, n.id@)
                &&& v == Some(false) ==> final(tally).fail_count == old(tally).fail_count + 1
                    && final(tally).pass_count == old(tally).pass_count
                &&& v != Some(false) ==> final(tally).pass_count == old(tally).pass_count + 1
                    && final(tally).fail_count == old(tally).fail_count
            } else {
                &&& final(tally).pass_count == old(tally).pass_count
                &&& final(tally).fail_count == old(tally).fail_count
                &&& match r.0 {
                    Departure::Travel(ei) => picks(g.edges@, n.id@, v, Some(ei))
                        && final(tally).counts@ == bumped(old(tally).counts@, n.id@),
                    Departure::Dropped => picks(g.edges@, n.id@, v, None)
                        && final(tally).counts@ == old(tally).counts@,
                    Departure::Finished => false,
                }
            }
        }),
{
    let n = &g.nodes[node];
    let mut v = verdict;
    if n.kind == String::from_str("inspect") && !judged {
        v = Some(passes);
        tally.last_inspection = Some(passes);
        tally.inspection_num = tally.inspection_num + 1;
    }
    if n.kind == String::from_str("sink") {
        match v {
            Some(false) => {
                tally.fail_count = tally.fail_count + 1;
            },
            _ => {
                tally.pass_count = tally.pass_count + 1;
            },
        }
        bump(&mut tally.counts, &n.id);
        return (Departure::Finished, v);
    }
    match pick_edge(g, n.id.as_str(), v) {
        Some(ei) => {
            bump(&mut tally.counts, &n.id);
            (Departure::Travel(ei), v)
        },
        None => (Departure::Dropped, v),
    }
}

/// Where a part arrives at the end of `edge`: the node the edge leads to, and
/// the time it dwells there; none when no node has that identifier.
pub fn arrive(g: &FlowGraph, edge: usize, global_dwell: Real) -> (r: Option<(usize, Real)>)
    requires
        edge < g.edges@.len(),
    ensures
        match r {
            Some((ti, d)) => first_node(g.nodes@, g.edges@[edge as int].to@, ti as int)
                && d == dwell_of(g.nodes@[ti as int], global_dwell),
            None => forall|j: int| 0 <= j < g.nodes@.len() ==> g.nodes@[j].id@ != g.edges@[edge as int].to@,
        },
{
    match node_idx(g, g.edges[edge].to.as_str()) {
        Some(ti) => Some((ti, node_dwell(&g.nodes[ti], global_dwell))),
        None => None,
    }
}

/// The node where new parts enter: the first source.
pub fn source_node(g: &FlowGraph) -> (r: Option<usize>)
    ensures
        match r {
            Some(i) => i < g.nodes@.len() && g.nodes@[i as int].kind@ == "source"@ && forall|j: int|
                0 <= j < i ==> g.nodes@[j].kind@ != "source"@,
            None => !has_kind(g.nodes@, "source"@),
        },
{
    let k = String::from_str("source");
    let mut i: usize = 0;
    while i < g.nodes.len()
        invariant
            k@ == "source"@,
            i <= g.nodes@.len(),
            forall|j: int| 0 <= j < i ==> g.nodes@[j].kind@ != "source"@,
        decreases g.nodes@.len() - i,
    {
        if g.nodes[i].kind == k {
            return Some(i);
        }
        i = i + 1;
    }
    None
}

/// Whether a new part enters now: the line runs, the spawn interval is over,
/// and fewer than [`MAX_PARTS`] parts are on the line.
pub fn may_spawn(running: bool, interval_over: bool, wip: usize) -> (b: bool)
    ensures
        b == (running && interval_over && wip < MAX_PARTS),
{
    running && interval_over && wip < MAX_PARTS
}

/// The parts on the line and the next identifier to hand out are consistent:
/// at most `MAX_PARTS` parts, each with its own identifier, every one of them
/// between 1 and below `next_id`.
pub open spec fn part_list_ok(parts: Seq<Part>, next_id: u64) -> bool {
    &&& parts.len() <= MAX_PARTS
    &&& next_id >= 1
    &&& forall|i: int| 0 <= i < parts.len() ==> 1 <= #[trigger] parts[i].id < next_id
    &&& forall|i: int, j: int| 0 <= i < j < parts.len() ==> #[trigger] parts[i].id != #[trigger] parts[j].id
}

/// Node `i` is the first source node of the graph.
pub open spec fn is_first_source(nodes: Seq<FlowNode>, i: int) -> bool {
    &&& 0 <= i < nodes.len()
    &&& nodes[i].kind@ == "source"@
    &&& forall|j: int| 0 <= j < i ==> nodes[j].kind@ != "source"@
}

/// A new part, numbered `id`, waiting undecided at node `node`.
pub open spec fn new_part_at(p: Part, id: u64, node: int) -> bool {
    &&& p.id == id
    &&& p.verdict is None
    &&& p.loc matches Loc::At { node: n, dwell_left: d, judged: j } && n == node && d.bits == 0 && !j
}

/// One spawning step of the line: while it runs, once the spawn interval is
/// over and fewer than `MAX_PARTS` parts are on it, a new part numbered
/// `next_id` enters at the first source node (when the graph has one) and
/// `next_id` advances; otherwise nothing changes. The part list stays
/// consistent.
pub fn spawn_part(parts: &mut Vec<Part>, next_id: &mut u64, running: bool, interval_over: bool, g: &FlowGraph) -> (spawned: bool)
    requires
        *old(next_id) < u64::MAX,
    ensures
        spawned == (running && interval_over && old(parts)@.len() < MAX_PARTS && has_kind(g.nodes@, "source"@)),
        spawned ==> {
            &&& final(parts)@.len() == old(parts)@.len() + 1
            &&& final(parts)@.drop_last() == old(parts)@
            &&& exists|src: int| is_first_source(g.nodes@, src) && new_part_at(final(parts)@.last(), *old(next_id), src)
            &&& *final(next_id) == *old(next_id) + 1
        },
        !spawned ==> final(parts)@ == old(parts)@ && *final(next_id) == *old(next_id),
        part_list_ok(old(parts)@, *old(next_id)) ==> part_list_ok(final(parts)@, *final(next_id)),
{
    if !may_spawn(running, interval_over, parts.len()) {
        return false;
    }
    match source_node(g) {
        Some(src) => {
            let ghost before = parts@;
            let id = *next_id;
            parts.push(Part { id, verdict: None, loc: Loc::At { node: src, dwell_left: Real::zero(), judged: false } });
            *next_id = id + 1;
            proof {
                assert(parts@.drop_last() =~= before);
                assert(is_first_source(g.nodes@, src as int));
                assert(new_part_at(parts@.last(), id, src as int));
                assert(has_kind(g.nodes@, "source"@));
            }
            true
        },
        None => false,
    }
}

/// Takes the part at position `i` off the line; the others keep their order,
/// and the part list stays consistent.
pub fn retire_part(parts: &mut Vec<Part>, i: usize, next_id: u64) -> (p: Part)
    requires
        i < old(parts)@.len(),
    ensures
        p == old(parts)@[i as int],
        final(parts)@ == old(parts)@.remove(i as int),
        part_list_ok(old(parts)@, next_id) ==> part_list_ok(final(parts)@, next_id),
{
    let ghost before = parts@;
    let p = parts.remove(i);
    proof {
        if part_list_ok(before, next_id) {
            assert forall|a: int, b: int| 0 <= a < b < parts@.len() implies #[trigger] parts@[a].id != #[trigger] parts@[b].id by {
                let sa = if a < i { a } else { a + 1 };
                let sb = if b < i { b } else { b + 1 };
                assert(parts@[a] == before[sa] && parts@[b] == before[sb]);
                assert(before[sa].id != before[sb].id);
            }
            assert forall|a: int| 0 <= a < parts@.len() implies 1 <= #[trigger] parts@[a].id < next_id by {
                let sa = if a < i { a } else { a + 1 };
                assert(parts@[a] == before[sa]);
            }
        }
    }
    p
}

/// Index of the oldest part, the one with the smallest identifier (the first
/// such part).
pub fn primary_part(parts: &Vec<Part>) -> (r: Option<usize>)
    ensures
        match r {
            Some(i) => i < parts@.len() && (forall|j: int| 0 <= j < parts@.len() ==> parts@[i as int].id <= #[trigger] parts@[j].id)
                && (forall|j: int| 0 <= j < i ==> parts@[i as int].id < #[trigger] parts@[j].id),
            None => parts@.len() == 0,
        },
{
    if parts.len() == 0 {
        return None;
    }
    let mut best: usize = 0;
    let mut i: usize = 1;
    while i < parts.len()
        invariant
            1 <= i <= parts@.len(),
            best < i,
            forall|j: int| 0 <= j < i ==> parts@[best as int].id <= #[trigger] parts@[j].id,
            forall|j: int| 0 <= j < best ==> parts@[best as int].id < #[trigger] parts@[j].id,
        decreases parts@.len() - i,
    {
        if parts[i].id < parts[best].id {
            best = i;
        }
        i = i + 1;
    }
    Some(best)
}

/// The line's flow status for the twin: `IDLE` with no part, `MOVING` while
/// the oldest part travels, else what its station does, with the station's
/// label (or identifier).
pub open spec fn flow_status_text(g: FlowGraph, primary: Option<Part>) -> Seq<char> {
    match primary {
        None => "IDLE"@,
        Some(p) => match p.loc {
            Loc::Travel { .. } => "MOVING"@,
            Loc::At { node, .. } => {
                let n = g.nodes@[node as int];
                let lbl = match n.label {
                    Some(l) => l@,
                    None => n.id@,
                };
                if n.kind@ == "inspect"@ {
                    "INSPECTING \u{b7} "@ + lbl
                } else if n.kind@ == "process"@ {
                    "PROCESSING \u{b7} "@ + lbl
                } else if n.kind@ == "source"@ {
                    "LOADING \u{b7} "@ + lbl
                } else {
                    lbl
                }
            },
        },
    }
}

/// Whether a part's node is a node of `g`.
pub open spec fn placed(g: FlowGraph, p: Option<Part>) -> bool {
    p matches Some(q) ==> (q.loc matches Loc::At { node, .. } ==> node < g.nodes@.len())
}

/// The line's flow status for the twin.
pub fn flow_status(g: &FlowGraph, primary: Option<Part>) -> (s: String)
    requires
        placed(*g, primary),
    ensures
        s@ == flow_status_text(*g, primary),
{
    match primary {
        None => String::from_str("IDLE"),
        Some(p) => match p.loc {
            Loc::Travel { .. } => String::from_str("MOVING"),
            Loc::At { node, .. } => {
                let n = &g.nodes[node];
                let lbl: &str = match &n.label {
                    Some(l) => l.as_str(),
                    None => n.id.as_str(),
                };
                if n.kind == String::from_str("inspect") {
                    concat("INSPECTING \u{b7} ", lbl)
                } else if n.kind == String::from_str("process") {
                    concat("PROCESSING \u{b7} ", lbl)
                } else if n.kind == String::from_str("source") {
                    concat("LOADING \u{b7} ", lbl)
                } else {
                    String::from_str(lbl)
                }
            },
        },
    }
}

/// The inspection tag: `PASS`, `FAIL`, or a dash before any inspection.
pub fn inspection_text(last: Option<bool>) -> (s: &'static str)
    ensures
        s@ == match last {
            Some(true) => "PASS"@,
            Some(false) => "FAIL"@,
            None => "\u{2014}"@,
        },
{
    match last {
        Some(true) => "PASS",
        Some(false) => "FAIL",
        None => "\u{2014}",
    }
}

/// What a control rule does when it fires.
#[derive(Debug, Clone, Copy, PartialEq, Eq, Structural)]
pub enum RuleAction {
    Stop,
    Start,
    SetSpeed,
    SetDwell,
    SetFailRate,
}

/// The control action named `a`, if it names one.
pub open spec fn action_named(a: Seq<char>) -> Option<RuleAction> {
    if a == "stop"@ {
        Some(RuleAction::Stop)
    } else if a == "start"@ {
        Some(RuleAction::Start)
    } else if a == "set_speed"@ {
        Some(RuleAction::SetSpeed)
    } else if a == "set_dwell"@ {
        Some(RuleAction::SetDwell)
    } else if a == "set_fail_rate"@ {
        Some(RuleAction::SetFailRate)
    } else {
        None
    }
}

/// The control action a rule's `action` names; other names do nothing.
pub fn rule_action(action: &str) -> (r: Option<RuleAction>)
    ensures
        r == action_named(action@),
{
    let a = String::from_str(action);
    if a == String::from_str("stop") {
        Some(RuleAction::Stop)
    } else if a == String::from_str("start") {
        Some(RuleAction::Start)
    } else if a == String::from_str("set_speed") {
        Some(RuleAction::SetSpeed)
    } else if a == String::from_str("set_dwell") {
        Some(RuleAction::SetDwell)
    } else if a == String::from_str("set_fail_rate") {
        Some(RuleAction::SetFailRate)
    } else {
        None
    }
}

/// Whether a rule raises an alarm rather than acting on the line.
pub open spec fn is_alarm(r: Rule) -> bool {
    r.action@ == "alarm"@
}

/// The last condition seen for each rule key, after the first `i` rules of a
/// tick, starting from `m`.
pub open spec fn memory_after(conds: Seq<bool>, keys: Seq<String>, m: Map<Seq<char>, bool>, i: nat) -> Map<
    Seq<char>,
    bool,
>
    decreases i,
{
    if i == 0 {
        m
    } else {
        memory_after(conds, keys, m, (i - 1) as nat).insert(keys[i - 1]@, conds[i - 1])
    }
}

/// Whether rule `i` fires: a control rule whose condition holds now and did
/// not hold the last time its key was seen (a rising edge).
pub open spec fn fires(rules: Seq<Rule>, conds: Seq<bool>, keys: Seq<String>, m: Map<Seq<char>, bool>, i: int) -> bool {
    let seen = memory_after(conds, keys, m, i as nat);
    &&& !is_alarm(rules[i])
    &&& conds[i]
    &&& !(seen.contains_key(keys[i]@) && seen[keys[i]@])
}

/// The rules among the first `n` that fire, in order.
pub open spec fn fired_list(rules: Seq<Rule>, conds: Seq<bool>, keys: Seq<String>, m: Map<Seq<char>, bool>, n: nat) -> Seq<
    usize,
>
    decreases n,
{
    if n == 0 {
        Seq::empty()
    } else {
        fired_list(rules, conds, keys, m, (n - 1) as nat) + if fires(rules, conds, keys, m, n - 1) {
            seq![(n - 1) as usize]
        } else {
            Seq::empty()
        }
    }
}

/// Whether alarm rule `i` holds now.
pub open spec fn alarm_holds(rules: Seq<Rule>, conds: Seq<bool>, i: int) -> bool {
    is_alarm(rules[i]) && conds[i]
}

/// What the rules do in one tick: the control rules that fire, and the first
/// alarm rule that holds (its message is the alarm's).
#[derive(Debug, Clone)]
pub struct RuleOutcome {
    pub fired: Vec<usize>,
    pub alarm: Option<usize>,
}

/// Runs the automation rules of one tick, given each rule's condition now and
/// its key. Control rules fire once, on the rising edge of their condition;
/// alarms are held while their condition holds. `memory` keeps the last
/// condition seen under each key.
pub fn run_rules(rules: &Vec<Rule>, conds: &Vec<bool>, keys: &Vec<String>, memory: &mut ParamMap<bool>) -> (o: RuleOutcome)
    requires
        conds@.len() == rules@.len(),
        keys@.len() == rules@.len(),
    ensures
        final(memory)@ == memory_after(conds@, keys@, old(memory)@, rules@.len()),
        o.fired@ == fired_list(rules@, conds@, keys@, old(memory)@, rules@.len()),
        match o.alarm {
            Some(i) => i < rules@.len() && alarm_holds(rules@, conds@, i as int) && forall|j: int|
                0 <= j < i ==> !alarm_holds(rules@, conds@, j),
            None => forall|j: int| 0 <= j < rules@.len() ==> !alarm_holds(rules@, conds@, j),
        },
{
    let ghost m0 = memory@;
    let mut fired: Vec<usize> = Vec::new();
    let mut alarm: Option<usize> = None;
    let mut i: usize = 0;
    while i < rules.len()
        invariant
            conds@.len() == rules@.len(),
            keys@.len() == rules@.len(),
            i <= rules@.len(),
            memory@ == memory_after(conds@, keys@, m0, i as nat),
            fired@ == fired_list(rules@, conds@, keys@, m0, i as nat),
            match alarm {
                Some(a) => a < i && alarm_holds(rules@, conds@, a as int) && forall|j: int|
                    0 <= j < a ==> !alarm_holds(rules@, conds@, j),
                None => forall|j: int| 0 <= j < i ==> !alarm_holds(rules@, conds@, j),
            },
        decreases rules@.len() - i,
    {
        let cond = conds[i];
        let was = match memory.get(keys[i].as_str()) {
            Some(b) => *b,
            None => false,
        };
        if rules[i].action == String::from_str("alarm") {
            if cond && alarm.is_none() {
                alarm = Some(i);
            }
        } else if cond && !was {
            fired.push(i);
        }
        memory.insert(keys[i].as_str(), cond);
        proof {
            assert(fired@ =~= fired_list(rules@, conds@, keys@, m0, (i + 1) as nat));
        }
        i = i + 1;
    }
    RuleOutcome { fired, alarm }
}

/// Whether rules that share a key share their condition (as rules with the
/// same tag, test, threshold and action do).
pub open spec fn keys_consistent(conds: Seq<bool>, keys: Seq<String>) -> bool {
    forall|i: int, j: int|
        0 <= i < keys.len() && 0 <= j < keys.len() && (#[trigger] keys[i])@ == (#[trigger] keys[j])@ ==> conds[i] == conds[j]
}

/// After the first `i` rules, a key seen among them holds the condition of a
/// rule with that key.
proof fn lemma_memory_seen(conds: Seq<bool>, keys: Seq<String>, m: Map<Seq<char>, bool>, i: nat, j: int)
    requires
        keys_consistent(conds, keys),
        conds.len() == keys.len(),
        i <= keys.len(),
        0 <= j < i,
    ensures
        memory_after(conds, keys, m, i).contains_key(keys[j]@),
        memory_after(conds, keys, m, i)[keys[j]@] == conds[j],
    decreases i,
{
    if keys[i - 1]@ == keys[j]@ {
        assert(conds[i - 1] == conds[j]);
    } else {
        lemma_memory_seen(conds, keys, m, (i - 1) as nat, j);
    }
}

/// After the first `i` rules, a key none of them has keeps its earlier value.
proof fn lemma_memory_unseen(conds: Seq<bool>, keys: Seq<String>, m: Map<Seq<char>, bool>, i: nat, k: Seq<char>)
    requires
        i <= keys.len(),
        forall|j: int| 0 <= j < i ==> (#[trigger] keys[j])@ != k,
    ensures
        memory_after(conds, keys, m, i).contains_key(k) == m.contains_key(k),
        m.contains_key(k) ==> memory_after(conds, keys, m, i)[k] == m[k],
    decreases i,
{
    if i > 0 {
        lemma_memory_unseen(conds, keys, m, (i - 1) as nat, k);
    }
}

/// A control rule fires once per rising edge: a second tick with the same
/// conditions fires no rule.
pub proof fn law_rules_fire_once(rules: Seq<Rule>, conds: Seq<bool>, keys: Seq<String>, m: Map<Seq<char>, bool>)
    requires
        conds.len() == rules.len(),
        keys.len() == rules.len(),
        keys_consistent(conds, keys),
    ensures
        fired_list(rules, conds, keys, memory_after(conds, keys, m, rules.len()), rules.len()) == Seq::<usize>::empty(),
{
    let m1 = memory_after(conds, keys, m, rules.len());
    assert forall|i: int| 0 <= i < rules.len() implies !fires(rules, conds, keys, m1, i) by {
        if conds[i] {
            let k = keys[i]@;
            if exists|j: int| 0 <= j < i && (#[trigger] keys[j])@ == k {
                let j = choose|j: int| 0 <= j < i && (#[trigger] keys[j])@ == k;
                lemma_memory_seen(conds, keys, m1, i as nat, j);
            } else {
                lemma_memory_unseen(conds, keys, m1, i as nat, k);
                lemma_memory_seen(conds, keys, m, rules.len(), i);
            }
        }
    }
    lemma_no_fires_empty(rules, conds, keys, m1, rules.len());
}

proof fn lemma_no_fires_empty(rules: Seq<Rule>, conds: Seq<bool>, keys: Seq<String>, m: Map<Seq<char>, bool>, n: nat)
    requires
        n <= rules.len(),
        forall|i: int| 0 <= i < rules.len() ==> !fires(rules, conds, keys, m, i),
    ensures
        fired_list(rules, conds, keys, m, n) == Seq::<usize>::empty(),
    decreases n,
{
    if n > 0 {
        lemma_no_fires_empty(rules, conds, keys, m, (n - 1) as nat);
        assert(!fires(rules, conds, keys, m, n - 1));
        assert(fired_list(rules, conds, keys, m, n) =~= Seq::<usize>::empty());
    }
}

/// Applies an operator command to the line: `start` and `stop` set whether it
/// runs, `reset` restarts it (and runs it); any other command changes neither.
pub fn apply_command(c: &mut Control, command: &str)
    ensures
        command@ == "start"@ ==> final(c).running && final(c).reset == old(c).reset,
        command@ == "stop"@ ==> !final(c).running && final(c).reset == old(c).reset,
        command@ == "reset"@ ==> final(c).running && final(c).reset,
        !(command@ == "start"@ || command@ == "stop"@ || command@ == "reset"@) ==> *final(c) == *old(c),
        final(c).dwell == old(c).dwell,
        final(c).speed == old(c).speed,
        final(c).fail_rate == old(c).fail_rate,
{
    proof {
        reveal_strlit("start");
        reveal_strlit("stop");
        reveal_strlit("reset");
        assert("stop"@.len() == 4 && "start"@.len() == 5 && "reset"@.len() == 5);
        assert("reset"@[0] != "start"@[0]);
    }
    let cmd = String::from_str(command);
    assert(cmd@ == command@);
    if cmd == String::from_str("start") {
        c.running = true;
    } else if cmd == String::from_str("stop") {
        c.running = false;
    } else if cmd == String::from_str("reset") {
        c.reset = true;
        c.running = true;
    }
}

/// Replaces the automation rules with `incoming`, or appends them when `mode`
/// is `append`. Gives the new number of rules.
pub fn update_rules(rules: &mut Vec<Rule>, incoming: Vec<Rule>, mode: &str) -> (n: usize)
    ensures
        mode@ == "append"@ ==> final(rules)@ == old(rules)@ + incoming@,
        mode@ != "append"@ ==> final(rules)@ == incoming@,
        n == final(rules)@.len(),
{
    let mut incoming = incoming;
    if String::from_str(mode) == String::from_str("append") {
        rules.append(&mut incoming);
    } else {
        *rules = incoming;
    }
    rules.len()
}

/// The tag overrides after the updates `u`, in order: a value sets its tag, an
/// absent value (a JSON null) clears it.
pub open spec fn overridden<V>(m: Map<Seq<char>, V>, u: Seq<(String, Option<V>)>) -> Map<Seq<char>, V>
    decreases u.len(),
{
    if u.len() == 0 {
        m
    } else {
        let before = overridden(m, u.drop_last());
        match u.last().1 {
            Some(v) => before.insert(u.last().0@, v),
            None => before.remove(u.last().0@),
        }
    }
}

/// Applies tag values pushed by an external source over the simulated ones.
/// Gives the number of tags overridden afterwards.
pub fn apply_tag_updates<V>(overrides: &mut ParamMap<V>, updates: Vec<(String, Option<V>)>) -> (n: usize)
    ensures
        final(overrides)@ == overridden(old(overrides)@, updates@),
        n == final(overrides)@.len(),
{
    let ghost m0 = overrides@;
    let ghost u = updates@;
    let mut rest = updates;
    let total = rest.len();
    let mut done: usize = 0;
    while rest.len() > 0
        invariant
            total == u.len(),
            done + rest@.len() == u.len(),
            rest@ == u.subrange(done as int, u.len() as int),
            overrides@ == overridden(m0, u.take(done as int)),
        decreases rest@.len(),
    {
        let (k, v) = rest.remove(0);
        proof {
            assert(rest@ =~= u.subrange(done + 1, u.len() as int));
            assert(u.take(done + 1).drop_last() =~= u.take(done as int));
        }
        match v {
            Some(value) => {
                overrides.insert(k.as_str(), value);
            },
            None => {
                let _ = overrides.remove(k.as_str());
            },
        }
        done = done + 1;
    }
    proof {
        assert(u.take(done as int) =~= u);
    }
    overrides.len()
}

/// Position of the last `:` in `s`.
pub open spec fn last_colon(s: Seq<char>) -> Option<int>
    decreases s.len(),
{
    if s.len() == 0 {
        None
    } else if s.last() == ':' {
        Some(s.len() - 1)
    } else {
        last_colon(s.drop_last())
    }
}

/// What `str::parse::<u16>` gives for `s`.
pub open spec fn parse_u16(s: Seq<char>) -> Option<u16> {
    match parse_usize(s) {
        Some(v) => if v <= 0xFFFF {
            Some(v as u16)
        } else {
            None
        },
        None => None,
    }
}

/// The broker address written in `b`: the port follows the last colon, and is
/// 1883 when it is missing or not a number.
pub open spec fn host_port(b: Seq<char>) -> (Seq<char>, u16) {
    match last_colon(b) {
        Some(i) => (
            b.take(i),
            match parse_u16(b.skip(i + 1)) {
                Some(p) => p,
                None => 1883u16,
            },
        ),
        None => (b, 1883u16),
    }
}

/// The MQTT broker named by `b` (`host:port`): none when `b` is blank.
pub open spec fn broker_address(b: Seq<char>) -> Option<(Seq<char>, u16)> {
    if trimmed(b).len() == 0 {
        None
    } else {
        Some(host_port(b))
    }
}

fn find_last_colon(v: &Vec<char>) -> (r: Option<usize>)
    ensures
        match r {
            Some(i) => last_colon(v@) == Some(i as int) && i < v@.len(),
            None => last_colon(v@) is None,
        },
{
    let n = v.len();
    let mut i: usize = n;
    assert(v@.take(n as int) =~= v@);
    while i > 0 && v[i - 1] != ':'
        invariant
            n == v@.len(),
            i <= n,
            last_colon(v@) == last_colon(v@.take(i as int)),
        decreases i,
    {
        proof {
            assert(v@.take(i as int).drop_last() =~= v@.take(i - 1));
        }
        i = i - 1;
    }
    if i == 0 {
        return None;
    }
    proof {
        assert(v@.take(i as int).last() == ':');
    }
    Some(i - 1)
}

fn prefix_of(v: &Vec<char>, len: usize) -> (r: Vec<char>)
    requires
        len <= v@.len(),
    ensures
        r@ == v@.take(len as int),
{
    let mut out: Vec<char> = Vec::new();
    let mut k: usize = 0;
    while k < len
        invariant
            len <= v@.len(),
            k <= len,
            out@ == v@.take(k as int),
        decreases len - k,
    {
        out.push(v[k]);
        assert(v@.take(k + 1) =~= v@.take(k as int).push(v@[k as int]));
        k = k + 1;
    }
    out
}

fn split_host_port(b: &str) -> (r: (String, u16))
    ensures
        r.0@ == host_port(b@).0,
        r.1 == host_port(b@).1,
{
    let v = chars_of(b);
    let n = v.len();
    match find_last_colon(&v) {
        None => (String::from_str(b), 1883u16),
        Some(c) => {
            assert(last_colon(b@) == Some(c as int));
            let host = prefix_of(&v, c);
            let port = match parse_usize_range(&v, c + 1, n) {
                Some(p) => if p <= 0xFFFF {
                    p as u16
                } else {
                    1883u16
                },
                None => 1883u16,
            };
            proof {
                assert(b@.subrange(c + 1, b@.len() as int) =~= b@.skip(c + 1));
            }
            (string_from_chars(&host), port)
        },
    }
}

/// Reads the MQTT broker setting (`host:port`).
pub fn parse_broker(b: &str) -> (r: Option<(String, u16)>)
    ensures
        match broker_address(b@) {
            Some((h, p)) => r matches Some(x) && x.0@ == h && x.1 == p,
            None => r is None,
        },
{
    if trim(b).unicode_len() == 0 {
        return None;
    }
    Some(split_host_port(b))
}

} // verus!
