//! Parametric features: the modeling operations of a document, with their
//! parameters and dependencies.
use vstd::prelude::*;
use crate::ids::{EntityId, FeatureId};
use crate::param_map::ParamMap;
use crate::{Real, Vec3};

verus! {

/// A 4x4 transformation matrix, column-major.
#[derive(Debug, Clone, Copy)]
pub struct Mat4 {
    pub m: [Real; 16],
}

/// Whether `t` is the identity matrix.
pub open spec fn is_identity(t: Mat4) -> bool {
    forall|i: int|
        0 <= i < 16 ==> (#[trigger] t.m[i]).bits == if i % 5 == 0 {
            0x3FF0_0000_0000_0000u64
        } else {
            0u64
        }
}

impl Mat4 {
    /// The identity transformation.
    pub fn identity() -> (t: Mat4)
        ensures
            is_identity(t),
    {
        let z = Real::zero();
        let o = Real::one();
        let t = Mat4 { m: [o, z, z, z, z, o, z, z, z, z, o, z, z, z, z, o] };
        assert(is_identity(t)) by {
            assert forall|i: int| 0 <= i < 16 implies (#[trigger] t.m[i]).bits == if i % 5 == 0 {
                0x3FF0_0000_0000_0000u64
            } else {
                0u64
            } by {
                assert(t.m@[i] == t.m[i]);
            }
        }
        t
    }
}

/// A feature parameter: a value, a link to a document parameter, or an expression.
#[derive(Debug, Clone)]
pub enum FeatureParameter {
    Value(Real),
    Link(String),
    Expression(String),
}

impl FeatureParameter {
    /// The value of a direct parameter; links and expressions are not resolved here.
    pub fn resolve(&self) -> (r: Option<Real>)
        ensures
            r == match *self {
                FeatureParameter::Value(v) => Some(v),
                _ => None,
            },
    {
        match self {
            FeatureParameter::Value(v) => Some(*v),
            FeatureParameter::Link(_) => None,
            FeatureParameter::Expression(_) => None,
        }
    }
}

/// Primitive solids.
#[derive(Debug, Clone, Copy)]
pub enum PrimitiveFeature {
    Box { width: Real, height: Real, depth: Real },
    Cylinder { radius: Real, height: Real },
    Sphere { radius: Real },
    Cone { bottom_radius: Real, top_radius: Real, height: Real },
    Torus { major_radius: Real, minor_radius: Real },
}

/// Boolean combinations of bodies.
#[derive(Debug, Clone)]
pub enum BooleanFeature {
    Union { target: FeatureId, tools: Vec<FeatureId> },
    Subtract { target: FeatureId, tools: Vec<FeatureId> },
    Intersect { target: FeatureId, tools: Vec<FeatureId> },
}

/// Plane a sketch lies on.
#[derive(Debug, Clone, Copy)]
pub enum SketchPlane {
    XY { z_offset: Real },
    XZ { y_offset: Real },
    YZ { x_offset: Real },
    Face { feature_id: FeatureId, face_id: EntityId },
    Custom { origin: Vec3, normal: Vec3, x_axis: Vec3 },
}

/// Geometric elements of a sketch.
#[derive(Debug, Clone)]
pub enum SketchEntity {
    Line { id: EntityId, start: [Real; 2], end: [Real; 2] },
    Arc { id: EntityId, center: [Real; 2], radius: Real, start_angle: Real, end_angle: Real },
    Circle { id: EntityId, center: [Real; 2], radius: Real },
    Ellipse { id: EntityId, center: [Real; 2], major_radius: Real, minor_radius: Real, rotation: Real },
    Spline { id: EntityId, control_points: Vec<[Real; 2]>, degree: u32 },
    Point { id: EntityId, position: [Real; 2] },
}

/// Constraints between sketch elements.
#[derive(Debug, Clone, Copy)]
pub enum SketchConstraint {
    Fixed { entity: EntityId },
    Horizontal { entity: EntityId },
    Vertical { entity: EntityId },
    Coincident { entity1: EntityId, entity2: EntityId },
    Parallel { entity1: EntityId, entity2: EntityId },
    Perpendicular { entity1: EntityId, entity2: EntityId },
    Tangent { entity1: EntityId, entity2: EntityId },
    Equal { entity1: EntityId, entity2: EntityId },
    Concentric { entity1: EntityId, entity2: EntityId },
    Symmetric { entity1: EntityId, entity2: EntityId, axis: EntityId },
    Distance { entity1: EntityId, entity2: Option<EntityId>, value: Real },
    Angle { entity1: EntityId, entity2: EntityId, value: Real },
    Radius { entity: EntityId, value: Real },
    Diameter { entity: EntityId, value: Real },
}

/// A 2D sketch.
#[derive(Debug, Clone)]
pub struct SketchFeature {
    pub plane: SketchPlane,
    pub entities: Vec<SketchEntity>,
    pub constraints: Vec<SketchConstraint>,
}

/// How far and which way an extrusion goes.
#[derive(Debug, Clone, Copy)]
pub enum ExtrudeDirection {
    Blind { distance: Real },
    Symmetric { distance: Real },
    TwoSided { distance1: Real, distance2: Real },
    ToFace { feature_id: FeatureId, face_id: EntityId },
    ThroughAll,
}

/// How a new body combines with existing ones.
#[derive(Debug, Clone, Copy, PartialEq, Eq, Structural)]
pub enum BooleanOperation {
    NewBody,
    Add,
    Subtract,
    Intersect,
}

impl Default for BooleanOperation {
    /// The operation used when none is given.
    fn default() -> (op: BooleanOperation)
        ensures
            op == BooleanOperation::NewBody,
    {
        BooleanOperation::NewBody
    }
}

/// Extrusion of a sketch.
#[derive(Debug, Clone, Copy)]
pub struct ExtrudeFeature {
    pub sketch: FeatureId,
    pub direction: ExtrudeDirection,
    pub draft_angle: Real,
    pub operation: BooleanOperation,
}

/// Axis of a revolution.
#[derive(Debug, Clone, Copy)]
pub enum RevolveAxis {
    X,
    Y,
    Z,
    SketchEntity(EntityId),
    Custom { origin: Vec3, direction: Vec3 },
}

/// Revolution of a sketch about an axis.
#[derive(Debug, Clone, Copy)]
pub struct RevolveFeature {
    pub sketch: FeatureId,
    pub axis: RevolveAxis,
    pub angle: Real,
    pub operation: BooleanOperation,
}

/// How a swept profile is oriented along its path.
#[derive(Debug, Clone, Copy, PartialEq, Eq, Structural)]
pub enum SweepOrientation {
    KeepNormal,
    KeepParallel,
    FollowPath,
}

/// Sweep of a profile along a path.
#[derive(Debug, Clone, Copy)]
pub struct SweepFeature {
    pub profile: FeatureId,
    pub path: FeatureId,
    pub orientation: SweepOrientation,
    pub operation: BooleanOperation,
}

/// Loft through profiles.
#[derive(Debug, Clone)]
pub struct LoftFeature {
    pub profiles: Vec<FeatureId>,
    pub guides: Vec<FeatureId>,
    pub operation: BooleanOperation,
}

/// Rounded edges.
#[derive(Debug, Clone)]
pub struct FilletFeature {
    pub target: FeatureId,
    pub edges: Vec<EntityId>,
    pub radius: Real,
    pub variable_radius: Vec<(EntityId, Real, Real)>,
}

/// How a chamfer is measured.
#[derive(Debug, Clone, Copy)]
pub enum ChamferType {
    EqualDistance { distance: Real },
    TwoDistances { distance1: Real, distance2: Real },
    DistanceAngle { distance: Real, angle: Real },
}

/// Bevelled edges.
#[derive(Debug, Clone)]
pub struct ChamferFeature {
    pub target: FeatureId,
    pub edges: Vec<EntityId>,
    pub chamfer_type: ChamferType,
}

/// Hollowed solid.
#[derive(Debug, Clone)]
pub struct ShellFeature {
    pub target: FeatureId,
    pub thickness: Real,
    pub open_faces: Vec<EntityId>,
}

/// Linear or circular repetition.
#[derive(Debug, Clone, Copy)]
pub enum PatternType {
    Linear {
        direction1: Vec3,
        count1: u32,
        spacing1: Real,
        direction2: Option<Vec3>,
        count2: Option<u32>,
        spacing2: Option<Real>,
    },
    Circular { axis: Vec3, center: Vec3, count: u32, angle: Real },
}

/// Repetition of features.
#[derive(Debug, Clone)]
pub struct PatternFeature {
    pub source: Vec<FeatureId>,
    pub pattern_type: PatternType,
}

/// Plane of a mirror.
#[derive(Debug, Clone, Copy)]
pub enum MirrorPlane {
    XY,
    XZ,
    YZ,
    Face { feature_id: FeatureId, face_id: EntityId },
    Custom { origin: Vec3, normal: Vec3 },
}

/// Mirrored copy of features.
#[derive(Debug, Clone)]
pub struct MirrorFeature {
    pub source: Vec<FeatureId>,
    pub plane: MirrorPlane,
}

/// Formats geometry can be imported from.
#[derive(Debug, Clone, Copy, PartialEq, Eq, Structural)]
pub enum ImportFormat {
    STEP,
    IGES,
    STL,
    OBJ,
    GLTF,
}

/// Geometry imported from a file.
#[derive(Debug, Clone)]
pub struct ImportFeature {
    pub format: ImportFormat,
    pub source_path: String,
    pub geometry_data: Vec<u8>,
}

/// What a feature does.
#[derive(Debug, Clone)]
pub enum FeatureData {
    Primitive(PrimitiveFeature),
    Boolean(BooleanFeature),
    Sketch(SketchFeature),
    Extrude(ExtrudeFeature),
    Revolve(RevolveFeature),
    Sweep(SweepFeature),
    Loft(LoftFeature),
    Fillet(FilletFeature),
    Chamfer(ChamferFeature),
    Shell(ShellFeature),
    Pattern(PatternFeature),
    Mirror(MirrorFeature),
    Import(ImportFeature),
}

/// The name of the kind of a feature, as shown to users.
pub open spec fn kind_name(d: FeatureData) -> Seq<char> {
    match d {
        FeatureData::Primitive(p) => match p {
            PrimitiveFeature::Box { .. } => "Box"@,
            PrimitiveFeature::Cylinder { .. } => "Cylinder"@,
            PrimitiveFeature::Sphere { .. } => "Sphere"@,
            PrimitiveFeature::Cone { .. } => "Cone"@,
            PrimitiveFeature::Torus { .. } => "Torus"@,
        },
        FeatureData::Boolean(b) => match b {
            BooleanFeature::Union { .. } => "Union"@,
            BooleanFeature::Subtract { .. } => "Subtract"@,
            BooleanFeature::Intersect { .. } => "Intersect"@,
        },
        FeatureData::Sketch(_) => "Sketch"@,
        FeatureData::Extrude(_) => "Extrude"@,
        FeatureData::Revolve(_) => "Revolve"@,
        FeatureData::Sweep(_) => "Sweep"@,
        FeatureData::Loft(_) => "Loft"@,
        FeatureData::Fillet(_) => "Fillet"@,
        FeatureData::Chamfer(_) => "Chamfer"@,
        FeatureData::Shell(_) => "Shell"@,
        FeatureData::Pattern(_) => "Pattern"@,
        FeatureData::Mirror(_) => "Mirror"@,
        FeatureData::Import(_) => "Import"@,
    }
}

/// A parametric feature of a model.
#[derive(Debug)]
pub struct Feature {
    pub id: FeatureId,
    pub name: String,
    /// Suppressed features take no part in computation.
    pub suppressed: bool,
    pub data: FeatureData,
    /// Named parameters, possibly linked to document parameters.
    pub parameters: ParamMap<FeatureParameter>,
    pub transform: Mat4,
    /// Features this one depends on, each listed once.
    pub depends_on: Vec<FeatureId>,
}

impl Feature {
    /// No dependency is listed twice.
    pub open spec fn wf(&self) -> bool {
        self.depends_on@.no_duplicates()
    }

    /// A feature with a fresh identifier.
    pub fn new(name: &str, data: FeatureData) -> (f: Feature)
        ensures
            f.wf(),
            f.name@ == name@,
            f.data == data,
            !f.suppressed,
            f.parameters@ == Map::<Seq<char>, FeatureParameter>::empty(),
            is_identity(f.transform),
            f.depends_on@ == Seq::<FeatureId>::empty(),
    {
        Feature::with_id(FeatureId::new(), name, data)
    }

    /// A feature with the given identifier.
    pub fn with_id(id: FeatureId, name: &str, data: FeatureData) -> (f: Feature)
        ensures
            f.wf(),
            f.id == id,
            f.name@ == name@,
            f.data == data,
            !f.suppressed,
            f.parameters@ == Map::<Seq<char>, FeatureParameter>::empty(),
            is_identity(f.transform),
            f.depends_on@ == Seq::<FeatureId>::empty(),
    {
        let f = Feature {
            id,
            name: String::from_str(name),
            suppressed: false,
            data,
            parameters: ParamMap::new(),
            transform: Mat4::identity(),
            depends_on: Vec::new(),
        };
        assert(f.depends_on@.no_duplicates());
        f
    }

    /// Stores a parameter under `name`, replacing any earlier one.
    pub fn set_parameter(&mut self, name: &str, param: FeatureParameter)
        ensures
            final(self).wf() == old(self).wf(),
            final(self).parameters@ == old(self).parameters@.insert(name@, param),
            final(self).id == old(self).id,
            final(self).name == old(self).name,
            final(self).depends_on == old(self).depends_on,
    {
        self.parameters.insert(name, param);
    }

    /// The parameter stored under `name`.
    pub fn get_parameter(&self, name: &str) -> (r: Option<&FeatureParameter>)
        ensures
            r is Some == self.parameters@.contains_key(name@),
            r is Some ==> *r->0 == self.parameters@[name@],
    {
        self.parameters.get(name)
    }

    /// Records a dependency on `feature_id` unless it is already recorded.
    pub fn add_dependency(&mut self, feature_id: FeatureId)
        ensures
            old(self).wf() ==> final(self).wf(),
            old(self).depends_on@.contains(feature_id) ==> final(self).depends_on@ == old(self).depends_on@,
            !old(self).depends_on@.contains(feature_id) ==> final(self).depends_on@ == old(self).depends_on@.push(feature_id),
            final(self).parameters@ == old(self).parameters@,
            final(self).id == old(self).id,
    {
        let mut i: usize = 0;
        while i < self.depends_on.len()
            invariant
                i <= self.depends_on@.len(),
                forall|j: int| 0 <= j < i ==> self.depends_on@[j] != feature_id,
            decreases self.depends_on@.len() - i,
        {
            if self.depends_on[i] == feature_id {
                return;
            }
            i = i + 1;
        }
        self.depends_on.push(feature_id);
        assert(old(self).wf() ==> self.depends_on@.no_duplicates()) by {
            let s = self.depends_on@;
            if old(self).wf() {
                assert forall|a: int, b: int| 0 <= a < s.len() && 0 <= b < s.len() && a != b implies s[a] != s[b] by {
                    if a < s.len() - 1 && b < s.len() - 1 {
                        assert(old(self).depends_on@[a] != old(self).depends_on@[b]);
                    }
                }
            }
        }
    }

    /// The kind of the feature, such as "Box" or "Extrude".
    pub fn feature_type(&self) -> (r: &'static str)
        ensures
            r@ == kind_name(self.data),
    {
        match &self.data {
            FeatureData::Primitive(p) => match p {
                PrimitiveFeature::Box { .. } => "Box",
                PrimitiveFeature::Cylinder { .. } => "Cylinder",
                PrimitiveFeature::Sphere { .. } => "Sphere",
                PrimitiveFeature::Cone { .. } => "Cone",
                PrimitiveFeature::Torus { .. } => "Torus",
            },
            FeatureData::Boolean(b) => match b {
                BooleanFeature::Union { .. } => "Union",
                BooleanFeature::Subtract { .. } => "Subtract",
                BooleanFeature::Intersect { .. } => "Intersect",
            },
            FeatureData::Sketch(_) => "Sketch",
            FeatureData::Extrude(_) => "Extrude",
            FeatureData::Revolve(_) => "Revolve",
            FeatureData::Sweep(_) => "Sweep",
            FeatureData::Loft(_) => "Loft",
            FeatureData::Fillet(_) => "Fillet",
            FeatureData::Chamfer(_) => "Chamfer",
            FeatureData::Shell(_) => "Shell",
            FeatureData::Pattern(_) => "Pattern",
            FeatureData::Mirror(_) => "Mirror",
            FeatureData::Import(_) => "Import",
        }
    }
}

/// Adding a dependency twice records it once.
pub proof fn law_dependency_idempotent(deps: Seq<FeatureId>, id: FeatureId)
    requires
        deps.no_duplicates(),
    ensures
        deps.push(id).contains(id),
        !deps.contains(id) ==> deps.push(id).no_duplicates(),
{
    assert(deps.push(id)[deps.len() as int] == id);
    if !deps.contains(id) {
        let s = deps.push(id);
        assert forall|a: int, b: int| 0 <= a < s.len() && 0 <= b < s.len() && a != b implies s[a] != s[b] by {
            if a < deps.len() && b < deps.len() {
                assert(deps[a] != deps[b]);
            } else if a < deps.len() {
                assert(deps.contains(deps[a]));
            } else {
                assert(deps.contains(deps[b]));
            }
        }
    }
}

} // verus!
