//! Settings of the geometry kernel's operations: fillets, chamfers and
//! tessellation quality. Lengths and angles are 64-bit float bit patterns.
use vstd::prelude::*;
use crate::Real;

verus! {

/// Fillet configuration.
#[derive(Debug, Clone)]
pub struct FilletConfig {
    /// Fillet radius.
    pub radius: Real,
    /// Edge indices to fillet; none means all edges.
    pub edges: Vec<usize>,
}

impl FilletConfig {
    /// A fillet of the given radius on all edges.
    pub fn new(radius: Real) -> (c: FilletConfig)
        ensures
            c.radius == radius,
            c.edges@.len() == 0,
    {
        FilletConfig { radius, edges: Vec::new() }
    }

    /// The same fillet on the given edges only.
    pub fn with_edges(self, edges: Vec<usize>) -> (c: FilletConfig)
        ensures
            c.radius == self.radius,
            c.edges@ == edges@,
    {
        FilletConfig { radius: self.radius, edges }
    }
}

/// The shape of a chamfer.
#[derive(Debug, Clone, Copy, PartialEq, Eq, Structural)]
pub enum ChamferType {
    /// The same distance from the edge on both sides.
    EqualDistance(Real),
    /// Two different distances from the edge.
    TwoDistances(Real, Real),
    /// A distance and an angle.
    DistanceAngle { distance: Real, angle: Real },
}

/// Chamfer configuration.
#[derive(Debug, Clone)]
pub struct ChamferConfig {
    pub chamfer_type: ChamferType,
    /// Edge indices to chamfer; none means all edges.
    pub edges: Vec<usize>,
}

impl ChamferConfig {
    /// A chamfer at the same distance on both sides, on all edges.
    pub fn equal_distance(distance: Real) -> (c: ChamferConfig)
        ensures
            c.chamfer_type == ChamferType::EqualDistance(distance),
            c.edges@.len() == 0,
    {
        ChamferConfig { chamfer_type: ChamferType::EqualDistance(distance), edges: Vec::new() }
    }

    /// A chamfer at two distances, on all edges.
    pub fn two_distances(d1: Real, d2: Real) -> (c: ChamferConfig)
        ensures
            c.chamfer_type == ChamferType::TwoDistances(d1, d2),
            c.edges@.len() == 0,
    {
        ChamferConfig { chamfer_type: ChamferType::TwoDistances(d1, d2), edges: Vec::new() }
    }

    /// A chamfer at a distance and an angle, on all edges.
    pub fn distance_angle(distance: Real, angle: Real) -> (c: ChamferConfig)
        ensures
            c.chamfer_type == (ChamferType::DistanceAngle { distance, angle }),
            c.edges@.len() == 0,
    {
        ChamferConfig { chamfer_type: ChamferType::DistanceAngle { distance, angle }, edges: Vec::new() }
    }

    /// The same chamfer on the given edges only.
    pub fn with_edges(self, edges: Vec<usize>) -> (c: ChamferConfig)
        ensures
            c.chamfer_type == self.chamfer_type,
            c.edges@ == edges@,
    {
        ChamferConfig { chamfer_type: self.chamfer_type, edges }
    }
}

/// Tessellation quality settings.
#[derive(Debug, Clone, Copy, PartialEq, Eq, Structural)]
pub struct TessellationConfig {
    /// Angular tolerance in radians.
    pub angular_tolerance: Real,
    /// Chord height tolerance.
    pub chord_tolerance: Real,
    /// Minimum edge length.
    pub min_edge_length: Real,
}

impl Default for TessellationConfig {
    /// Angular tolerance 0.1 rad, chord tolerance 0.01, minimum edge 0.001.
    fn default() -> (c: TessellationConfig)
        ensures
            c.angular_tolerance.bits == 0x3FB9_9999_9999_999Au64,
            c.chord_tolerance.bits == 0x3F84_7AE1_47AE_147Bu64,
            c.min_edge_length.bits == 0x3F50_624D_D2F1_A9FCu64,
    {
        TessellationConfig {
            angular_tolerance: Real::from_bits(0x3FB9_9999_9999_999Au64),
            chord_tolerance: Real::from_bits(0x3F84_7AE1_47AE_147Bu64),
            min_edge_length: Real::from_bits(0x3F50_624D_D2F1_A9FCu64),
        }
    }
}

impl TessellationConfig {
    /// High quality: angular tolerance 0.05 rad, chord tolerance 0.005,
    /// minimum edge 0.0005.
    pub fn high_quality() -> (c: TessellationConfig)
        ensures
            c.angular_tolerance.bits == 0x3FA9_9999_9999_999Au64,
            c.chord_tolerance.bits == 0x3F74_7AE1_47AE_147Bu64,
            c.min_edge_length.bits == 0x3F40_624D_D2F1_A9FCu64,
    {
        TessellationConfig {
            angular_tolerance: Real::from_bits(0x3FA9_9999_9999_999Au64),
            chord_tolerance: Real::from_bits(0x3F74_7AE1_47AE_147Bu64),
            min_edge_length: Real::from_bits(0x3F40_624D_D2F1_A9FCu64),
        }
    }

    /// Low quality, for previews: angular tolerance 0.2 rad, chord tolerance
    /// 0.05, minimum edge 0.01.
    pub fn low_quality() -> (c: TessellationConfig)
        ensures
            c.angular_tolerance.bits == 0x3FC9_9999_9999_999Au64,
            c.chord_tolerance.bits == 0x3FA9_9999_9999_999Au64,
            c.min_edge_length.bits == 0x3F84_7AE1_47AE_147Bu64,
    {
        TessellationConfig {
            angular_tolerance: Real::from_bits(0x3FC9_9999_9999_999Au64),
            chord_tolerance: Real::from_bits(0x3FA9_9999_9999_999Au64),
            min_edge_length: Real::from_bits(0x3F84_7AE1_47AE_147Bu64),
        }
    }

    /// The tolerance handed to the mesher: the chord tolerance.
    pub fn to_truck_tolerance(&self) -> (t: Real)
        ensures
            t == self.chord_tolerance,
    {
        self.chord_tolerance
    }
}

} // verus!
