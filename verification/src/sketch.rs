//! 2D sketches: the plane a sketch lies on, its entities and constraints, and
//! the operations that add entities. Coordinates are 64-bit float bit
//! patterns; the operations here only place them.
use vstd::prelude::*;
use crate::{Real, Vec3};

verus! {

/// A point or vector of the sketch plane.
#[derive(Debug, Clone, Copy, PartialEq, Eq, Structural)]
pub struct Point2 {
    pub x: Real,
    pub y: Real,
}

/// The bit pattern of `+0.0`.
pub open spec fn zero() -> Real {
    Real { bits: 0 }
}

/// The bit pattern of `1.0`.
pub open spec fn one() -> Real {
    Real { bits: 0x3FF0_0000_0000_0000u64 }
}

/// The vector with the given components.
pub open spec fn v3(x: Real, y: Real, z: Real) -> Vec3 {
    Vec3 { x, y, z }
}

fn vec3(x: Real, y: Real, z: Real) -> (v: Vec3)
    ensures
        v == v3(x, y, z),
{
    Vec3 { x, y, z }
}

/// A sketch plane: its origin, its normal, and its in-plane axes.
#[derive(Debug, Clone, Copy, PartialEq, Eq, Structural)]
pub struct SketchPlane {
    pub origin: Vec3,
    pub normal: Vec3,
    pub x_direction: Vec3,
    pub y_direction: Vec3,
}

impl SketchPlane {
    /// The XY plane at Z = 0.
    pub fn xy() -> (p: SketchPlane)
        ensures
            p.origin == v3(zero(), zero(), zero()),
            p.normal == v3(zero(), zero(), one()),
            p.x_direction == v3(one(), zero(), zero()),
            p.y_direction == v3(zero(), one(), zero()),
    {
        SketchPlane::xy_offset(Real::zero())
    }

    /// The XZ plane at Y = 0.
    pub fn xz() -> (p: SketchPlane)
        ensures
            p.origin == v3(zero(), zero(), zero()),
            p.normal == v3(zero(), one(), zero()),
            p.x_direction == v3(one(), zero(), zero()),
            p.y_direction == v3(zero(), zero(), one()),
    {
        let (o, i) = (Real::zero(), Real::one());
        SketchPlane { origin: vec3(o, o, o), normal: vec3(o, i, o), x_direction: vec3(i, o, o), y_direction: vec3(o, o, i) }
    }

    /// The YZ plane at X = 0.
    pub fn yz() -> (p: SketchPlane)
        ensures
            p.origin == v3(zero(), zero(), zero()),
            p.normal == v3(one(), zero(), zero()),
            p.x_direction == v3(zero(), one(), zero()),
            p.y_direction == v3(zero(), zero(), one()),
    {
        let (o, i) = (Real::zero(), Real::one());
        SketchPlane { origin: vec3(o, o, o), normal: vec3(i, o, o), x_direction: vec3(o, i, o), y_direction: vec3(o, o, i) }
    }

    /// The XY plane moved to height `z`.
    pub fn xy_offset(z: Real) -> (p: SketchPlane)
        ensures
            p.origin == v3(zero(), zero(), z),
            p.normal == v3(zero(), zero(), one()),
            p.x_direction == v3(one(), zero(), zero()),
            p.y_direction == v3(zero(), one(), zero()),
    {
        let (o, i) = (Real::zero(), Real::one());
        SketchPlane { origin: vec3(o, o, z), normal: vec3(o, o, i), x_direction: vec3(i, o, o), y_direction: vec3(o, i, o) }
    }
}

/// An entity of a sketch.
#[derive(Debug, Clone)]
pub enum SketchEntity {
    /// A line segment.
    Line { start: Point2, end: Point2 },
    /// A full circle.
    Circle { center: Point2, radius: Real },
    /// An arc of a circle, between two angles.
    Arc { center: Point2, radius: Real, start_angle: Real, end_angle: Real },
    /// A construction point.
    Point { position: Point2 },
    /// A spline through control points.
    Spline { control_points: Vec<Point2> },
}

/// A constraint between sketch entities.
#[derive(Debug, Clone, Copy, PartialEq, Eq, Structural)]
pub enum SketchConstraint {
    Fixed { entity: usize, point_index: usize },
    Horizontal { entity: usize },
    Vertical { entity: usize },
    Coincident { entity1: usize, point1: usize, entity2: usize, point2: usize },
    Parallel { entity1: usize, entity2: usize },
    Perpendicular { entity1: usize, entity2: usize },
    Equal { entity1: usize, entity2: usize },
    Distance { entity1: usize, point1: usize, entity2: Option<usize>, point2: Option<usize>, value: Real },
    Angle { entity1: usize, entity2: usize, value: Real },
    Radius { entity: usize, value: Real },
}

/// A 2D sketch on a plane.
#[derive(Debug, Clone)]
pub struct Sketch {
    pub plane: SketchPlane,
    pub entities: Vec<SketchEntity>,
    pub constraints: Vec<SketchConstraint>,
}

/// The line from `a` to `b`.
pub open spec fn line(a: Point2, b: Point2) -> SketchEntity {
    SketchEntity::Line { start: a, end: b }
}

/// The sides of the axis-aligned rectangle with opposite corners `c1` and
/// `c3`, going round from `c1`.
pub open spec fn rectangle_sides(c1: Point2, c3: Point2) -> Seq<SketchEntity> {
    let c2 = Point2 { x: c3.x, y: c1.y };
    let c4 = Point2 { x: c1.x, y: c3.y };
    seq![line(c1, c2), line(c2, c3), line(c3, c4), line(c4, c1)]
}

/// The sides of the polygon with vertices `v`, the last joined to the first.
pub open spec fn polygon_sides(v: Seq<Point2>) -> Seq<SketchEntity> {
    Seq::new(v.len(), |i: int| line(v[i], v[(i + 1) % (v.len() as int)]))
}

impl Sketch {
    /// An empty sketch on the XY plane.
    pub fn new_xy() -> (s: Sketch)
        ensures
            s.plane.normal == v3(zero(), zero(), one()),
            s.plane.x_direction == v3(one(), zero(), zero()),
            s.plane.origin == v3(zero(), zero(), zero()),
            s.entities@.len() == 0,
            s.constraints@.len() == 0,
    {
        Sketch { plane: SketchPlane::xy(), entities: Vec::new(), constraints: Vec::new() }
    }

    /// An empty sketch on the XZ plane.
    pub fn new_xz() -> (s: Sketch)
        ensures
            s.plane.normal == v3(zero(), one(), zero()),
            s.plane.y_direction == v3(zero(), zero(), one()),
            s.plane.origin == v3(zero(), zero(), zero()),
            s.entities@.len() == 0,
            s.constraints@.len() == 0,
    {
        Sketch { plane: SketchPlane::xz(), entities: Vec::new(), constraints: Vec::new() }
    }

    /// An empty sketch on the YZ plane.
    pub fn new_yz() -> (s: Sketch)
        ensures
            s.plane.normal == v3(one(), zero(), zero()),
            s.plane.x_direction == v3(zero(), one(), zero()),
            s.plane.origin == v3(zero(), zero(), zero()),
            s.entities@.len() == 0,
            s.constraints@.len() == 0,
    {
        Sketch { plane: SketchPlane::yz(), entities: Vec::new(), constraints: Vec::new() }
    }

    fn add_entity(&mut self, e: SketchEntity) -> (id: usize)
        ensures
            id == old(self).entities@.len(),
            final(self).entities@ == old(self).entities@.push(e),
            final(self).plane == old(self).plane,
            final(self).constraints@ == old(self).constraints@,
    {
        let id = self.entities.len();
        self.entities.push(e);
        id
    }

    /// Adds a line; gives its index.
    pub fn add_line(&mut self, start: Point2, end: Point2) -> (id: usize)
        ensures
            id == old(self).entities@.len(),
            final(self).entities@ == old(self).entities@.push(line(start, end)),
            final(self).plane == old(self).plane,
            final(self).constraints@ == old(self).constraints@,
    {
        self.add_entity(SketchEntity::Line { start, end })
    }

    /// Adds a circle; gives its index.
    pub fn add_circle(&mut self, center: Point2, radius: Real) -> (id: usize)
        ensures
            id == old(self).entities@.len(),
            final(self).entities@ == old(self).entities@.push(SketchEntity::Circle { center, radius }),
            final(self).plane == old(self).plane,
            final(self).constraints@ == old(self).constraints@,
    {
        self.add_entity(SketchEntity::Circle { center, radius })
    }

    /// Adds an arc; gives its index.
    pub fn add_arc(&mut self, center: Point2, radius: Real, start_angle: Real, end_angle: Real) -> (id: usize)
        ensures
            id == old(self).entities@.len(),
            final(self).entities@ == old(self).entities@.push(
                SketchEntity::Arc { center, radius, start_angle, end_angle },
            ),
            final(self).plane == old(self).plane,
            final(self).constraints@ == old(self).constraints@,
    {
        self.add_entity(SketchEntity::Arc { center, radius, start_angle, end_angle })
    }

    /// Adds a construction point; gives its index.
    pub fn add_point(&mut self, position: Point2) -> (id: usize)
        ensures
            id == old(self).entities@.len(),
            final(self).entities@ == old(self).entities@.push(SketchEntity::Point { position }),
            final(self).plane == old(self).plane,
            final(self).constraints@ == old(self).constraints@,
    {
        self.add_entity(SketchEntity::Point { position })
    }

    /// Adds a spline; gives its index.
    pub fn add_spline(&mut self, control_points: Vec<Point2>) -> (id: usize)
        ensures
            id == old(self).entities@.len(),
            final(self).entities@ == old(self).entities@.push(SketchEntity::Spline { control_points }),
            final(self).plane == old(self).plane,
            final(self).constraints@ == old(self).constraints@,
    {
        self.add_entity(SketchEntity::Spline { control_points })
    }

    /// Adds a constraint.
    pub fn add_constraint(&mut self, constraint: SketchConstraint)
        ensures
            final(self).constraints@ == old(self).constraints@.push(constraint),
            final(self).entities@ == old(self).entities@,
            final(self).plane == old(self).plane,
    {
        self.constraints.push(constraint);
    }

    /// Adds the four sides of the axis-aligned rectangle with opposite corners
    /// `corner1` and `corner2`; gives their indices.
    pub fn add_rectangle(&mut self, corner1: Point2, corner2: Point2) -> (ids: Vec<usize>)
        ensures
            final(self).entities@ == old(self).entities@ + rectangle_sides(corner1, corner2),
            ids@ == Seq::new(4, |k: int| (old(self).entities@.len() + k) as usize),
            final(self).plane == old(self).plane,
            final(self).constraints@ == old(self).constraints@,
    {
        let c1 = corner1;
        let c2 = Point2 { x: corner2.x, y: corner1.y };
        let c3 = corner2;
        let c4 = Point2 { x: corner1.x, y: corner2.y };
        let mut ids: Vec<usize> = Vec::new();
        let a = self.add_line(c1, c2);
        ids.push(a);
        let b = self.add_line(c2, c3);
        ids.push(b);
        let c = self.add_line(c3, c4);
        ids.push(c);
        let d = self.add_line(c4, c1);
        ids.push(d);
        assert(self.entities@ =~= old(self).entities@ + rectangle_sides(corner1, corner2));
        assert(ids@ =~= Seq::new(4, |k: int| (old(self).entities@.len() + k) as usize));
        ids
    }

    /// Adds the sides of the polygon with the given vertices, the last joined
    /// to the first; gives their indices. Fewer than three vertices add
    /// nothing.
    pub fn add_polygon(&mut self, vertices: &Vec<Point2>) -> (ids: Vec<usize>)
        ensures
            vertices@.len() < 3 ==> ids@.len() == 0 && *final(self) == *old(self),
            vertices@.len() >= 3 ==> final(self).entities@ == old(self).entities@ + polygon_sides(vertices@)
                && ids@ == Seq::new(vertices@.len(), |k: int| (old(self).entities@.len() + k) as usize),
            final(self).plane == old(self).plane,
            final(self).constraints@ == old(self).constraints@,
    {
        let mut ids: Vec<usize> = Vec::new();
        let n = vertices.len();
        if n < 3 {
            return ids;
        }
        let ghost start = self.entities@;
        let mut i: usize = 0;
        while i < n
            invariant
                n == vertices@.len(),
                n >= 3,
                i <= n,
                self.plane == old(self).plane,
                self.constraints@ == old(self).constraints@,
                start == old(self).entities@,
                self.entities@ == start + polygon_sides(vertices@).take(i as int),
                ids@ == Seq::new(i as nat, |k: int| (start.len() + k) as usize),
            decreases n - i,
        {
            let next = (i + 1) % n;
            let id = self.add_line(vertices[i], vertices[next]);
            ids.push(id);
            assert(self.entities@ =~= start + polygon_sides(vertices@).take(i + 1));
            assert(ids@ =~= Seq::new((i + 1) as nat, |k: int| (start.len() + k) as usize));
            i = i + 1;
        }
        assert(polygon_sides(vertices@).take(n as int) =~= polygon_sides(vertices@));
        ids
    }
}

/// One edge of the wire a sketch turns into: a straight segment between two
/// points, or an arc of a circle from one angle to another (radians).
#[derive(Debug, Clone, Copy, PartialEq, Eq, Structural)]
pub enum WireEdge {
    Segment { from: Point2, to: Point2 },
    Arc { center: Point2, radius: Real, from_angle: Real, to_angle: Real },
}

/// The angles that split a circle into four arcs: 0, π/2, π, 3π/2 and 2π, as
/// 64-bit float bit patterns.
pub open spec fn quarter_angle(k: int) -> Real {
    Real {
        bits: if k == 0 {
            0
        } else if k == 1 {
            0x3FF9_21FB_5444_2D18u64
        } else if k == 2 {
            0x4009_21FB_5444_2D18u64
        } else if k == 3 {
            0x4012_D97C_7F33_21D2u64
        } else {
            0x4019_21FB_5444_2D18u64
        },
    }
}

/// The edges one entity adds: a line one segment, an arc one arc, a circle
/// four quarter arcs, a point none, a spline a segment between each pair of
/// consecutive control points.
pub open spec fn entity_edges(e: SketchEntity) -> Seq<WireEdge> {
    match e {
        SketchEntity::Line { start, end } => seq![WireEdge::Segment { from: start, to: end }],
        SketchEntity::Arc { center, radius, start_angle, end_angle } => seq![
            WireEdge::Arc { center, radius, from_angle: start_angle, to_angle: end_angle },
        ],
        SketchEntity::Circle { center, radius } => Seq::new(
            4,
            |k: int| WireEdge::Arc { center, radius, from_angle: quarter_angle(k), to_angle: quarter_angle(k + 1) },
        ),
        SketchEntity::Point { .. } => Seq::empty(),
        SketchEntity::Spline { control_points } => if control_points@.len() >= 2 {
            Seq::new(
                (control_points@.len() - 1) as nat,
                |k: int| WireEdge::Segment { from: control_points@[k], to: control_points@[k + 1] },
            )
        } else {
            Seq::empty()
        },
    }
}

/// The edges of all the entities, in order.
pub open spec fn wire_edges(es: Seq<SketchEntity>) -> Seq<WireEdge>
    decreases es.len(),
{
    if es.len() == 0 {
        Seq::empty()
    } else {
        wire_edges(es.drop_last()) + entity_edges(es.last())
    }
}

fn push_entity_edges(out: &mut Vec<WireEdge>, e: &SketchEntity)
    ensures
        final(out)@ == old(out)@ + entity_edges(*e),
{
    let ghost start = out@;
    match e {
        SketchEntity::Line { start: a, end: b } => {
            out.push(WireEdge::Segment { from: *a, to: *b });
        },
        SketchEntity::Arc { center, radius, start_angle, end_angle } => {
            out.push(WireEdge::Arc { center: *center, radius: *radius, from_angle: *start_angle, to_angle: *end_angle });
        },
        SketchEntity::Circle { center, radius } => {
            let a = [
                Real::from_bits(0),
                Real::from_bits(0x3FF9_21FB_5444_2D18u64),
                Real::from_bits(0x4009_21FB_5444_2D18u64),
                Real::from_bits(0x4012_D97C_7F33_21D2u64),
                Real::from_bits(0x4019_21FB_5444_2D18u64),
            ];
            out.push(WireEdge::Arc { center: *center, radius: *radius, from_angle: a[0], to_angle: a[1] });
            out.push(WireEdge::Arc { center: *center, radius: *radius, from_angle: a[1], to_angle: a[2] });
            out.push(WireEdge::Arc { center: *center, radius: *radius, from_angle: a[2], to_angle: a[3] });
            out.push(WireEdge::Arc { center: *center, radius: *radius, from_angle: a[3], to_angle: a[4] });
        },
        SketchEntity::Point { .. } => {},
        SketchEntity::Spline { control_points } => {
            let n = control_points.len();
            if n >= 2 {
                let mut k: usize = 0;
                while k < n - 1
                    invariant
                        n == control_points@.len(),
                        n >= 2,
                        k <= n - 1,
                        out@ == start + Seq::new(
                            k as nat,
                            |j: int| WireEdge::Segment { from: control_points@[j], to: control_points@[j + 1] },
                        ),
                    decreases n - 1 - k,
                {
                    out.push(WireEdge::Segment { from: control_points[k], to: control_points[k + 1] });
                    k = k + 1;
                    assert(out@ =~= start + Seq::new(
                        k as nat,
                        |j: int| WireEdge::Segment { from: control_points@[j], to: control_points@[j + 1] },
                    ));
                }
            }
        },
    }
    assert(out@ =~= start + entity_edges(*e));
}

/// The message of a sketch with no entity.
pub open spec fn empty_sketch_message() -> Seq<char> {
    "Empty sketch"@
}

/// The message of a sketch whose entities give no edge.
pub open spec fn no_edges_message() -> Seq<char> {
    "No edges created from sketch"@
}

/// The edges of the wire a sketch's entities make, in order (see
/// [`entity_edges`]); an error message when there is no entity, or when the
/// entities give no edge.
pub fn wire_plan(entities: &Vec<SketchEntity>) -> (r: Result<Vec<WireEdge>, String>)
    ensures
        entities@.len() == 0 ==> (r matches Err(m) && m@ == empty_sketch_message()),
        entities@.len() > 0 && wire_edges(entities@).len() == 0 ==> (r matches Err(m) && m@ == no_edges_message()),
        entities@.len() > 0 && wire_edges(entities@).len() > 0 ==> (r matches Ok(v) && v@ == wire_edges(entities@)),
{
    if entities.len() == 0 {
        return Err(String::from_str("Empty sketch"));
    }
    let mut out: Vec<WireEdge> = Vec::new();
    let mut i: usize = 0;
    while i < entities.len()
        invariant
            i <= entities@.len(),
            out@ == wire_edges(entities@.take(i as int)),
        decreases entities@.len() - i,
    {
        push_entity_edges(&mut out, &entities[i]);
        proof {
            let t = entities@.take(i + 1);
            assert(t.drop_last() =~= entities@.take(i as int));
            assert(t.last() == entities@[i as int]);
        }
        i = i + 1;
    }
    assert(entities@.take(i as int) =~= entities@);
    if out.len() == 0 {
        return Err(String::from_str("No edges created from sketch"));
    }
    Ok(out)
}

/// The number of edges an entity adds: one for a line or an arc, four for a
/// circle, none for a point, and one less than its control points for a
/// spline (none when it has fewer than two).
pub open spec fn edge_count_of(e: SketchEntity) -> nat {
    match e {
        SketchEntity::Line { .. } => 1,
        SketchEntity::Arc { .. } => 1,
        SketchEntity::Circle { .. } => 4,
        SketchEntity::Point { .. } => 0,
        SketchEntity::Spline { control_points } => if control_points@.len() >= 2 {
            (control_points@.len() - 1) as nat
        } else {
            0
        },
    }
}

/// The number of edges the entities `es` add together.
pub open spec fn edge_total(es: Seq<SketchEntity>) -> nat
    decreases es.len(),
{
    if es.len() == 0 {
        0
    } else {
        edge_total(es.drop_last()) + edge_count_of(es.last())
    }
}

/// The wire of the first entities is the start of the wire of them all.
proof fn lemma_wire_edges_prefix(es: Seq<SketchEntity>, m: int)
    requires
        0 <= m <= es.len(),
    ensures
        wire_edges(es.take(m)).len() <= wire_edges(es).len(),
        wire_edges(es).subrange(0, wire_edges(es.take(m)).len() as int) == wire_edges(es.take(m)),
    decreases es.len(),
{
    if m == es.len() {
        assert(es.take(m) =~= es);
        assert(wire_edges(es).subrange(0, wire_edges(es).len() as int) =~= wire_edges(es));
    } else {
        let pre = es.drop_last();
        lemma_wire_edges_prefix(pre, m);
        assert(pre.take(m) =~= es.take(m));
        assert(wire_edges(es).subrange(0, wire_edges(es.take(m)).len() as int) =~= wire_edges(pre).subrange(
            0,
            wire_edges(es.take(m)).len() as int,
        ));
    }
}

/// The wire of a sketch has as many edges as its entities add, and each line
/// and each arc adds exactly its own edge, where the edges of the entities
/// before it end: a line the segment from its start to its end, an arc the arc
/// with its center and radius from its start angle to its end angle.
pub proof fn law_wire_edges_of_entities(es: Seq<SketchEntity>, i: int)
    requires
        0 <= i < es.len(),
    ensures
        wire_edges(es).len() == edge_total(es),
        edge_total(es.take(i)) < wire_edges(es).len() || edge_count_of(es[i]) == 0,
        es[i] matches SketchEntity::Arc { center, radius, start_angle, end_angle } ==> wire_edges(es)[edge_total(
            es.take(i),
        ) as int] == (WireEdge::Arc { center, radius, from_angle: start_angle, to_angle: end_angle }),
        es[i] matches SketchEntity::Line { start, end } ==> wire_edges(es)[edge_total(es.take(i)) as int] == (WireEdge::Segment {
            from: start,
            to: end,
        }),
{
    lemma_wire_total(es);
    lemma_wire_total(es.take(i));
    lemma_wire_total(es.take(i + 1));
    lemma_wire_edges_prefix(es, i + 1);
    let t1 = es.take(i + 1);
    assert(t1.drop_last() =~= es.take(i));
    assert(t1.last() == es[i]);
    let p = wire_edges(es.take(i)).len() as int;
    if edge_count_of(es[i]) > 0 {
        assert(wire_edges(t1) == wire_edges(es.take(i)) + entity_edges(es[i]));
        assert(wire_edges(es)[p] == wire_edges(t1)[p]);
    }
}

proof fn lemma_wire_total(es: Seq<SketchEntity>)
    ensures
        wire_edges(es).len() == edge_total(es),
    decreases es.len(),
{
    if es.len() > 0 {
        lemma_wire_total(es.drop_last());
        assert(entity_edges(es.last()).len() == edge_count_of(es.last()));
    }
}

} // verus!
