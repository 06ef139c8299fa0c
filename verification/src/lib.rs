//! Verified core of a parametric CAD system: identifiers, the undo/redo
//! history, the constraint bookkeeping, the feature tree of a document,
//! file-format helpers, the Omniverse connector state and the selection model.
use vstd::prelude::*;

pub mod ai;
pub mod clock;
pub mod ids;
pub mod history;
pub mod constraint;
pub mod param_map;
pub mod text;
pub mod obj;
pub mod usd;
pub mod usd_text;
pub mod formats;
pub mod base64;
pub mod bytes;
pub mod stl;
pub mod step;
pub mod texture;
pub mod tessellation;
pub mod gltf;
pub mod gltf_json;
pub mod mesh;
pub mod omniverse;
pub mod server;
pub mod sketch;
pub mod process;
pub mod render;
pub mod feature;
pub mod geometry;
pub mod document;

verus! {

/// Units of measurement used by a document.
#[derive(Debug, Clone, Copy, PartialEq, Eq, Structural)]
pub enum Units {
    Millimeters,
    Centimeters,
    Meters,
    Inches,
    Feet,
}


impl Default for Units {
    /// The unit a new document starts with.
    fn default() -> (u: Units)
        ensures
            u == Units::Millimeters,
    {
        Units::Millimeters
    }
}

impl Units {

    /// The length of one unit in millimeters: 1, 10, 1000, 25.4 or 304.8.
    pub fn to_mm(&self) -> (r: Real)
        ensures
            r.bits == match *self {
                Units::Millimeters => 0x3FF0_0000_0000_0000u64,
                Units::Centimeters => 0x4024_0000_0000_0000u64,
                Units::Meters => 0x408F_4000_0000_0000u64,
                Units::Inches => 0x4039_6666_6666_6666u64,
                Units::Feet => 0x4073_0CCC_CCCC_CCCDu64,
            },
    {
        match self {
            Units::Millimeters => Real::from_bits(0x3FF0_0000_0000_0000u64),
            Units::Centimeters => Real::from_bits(0x4024_0000_0000_0000u64),
            Units::Meters => Real::from_bits(0x408F_4000_0000_0000u64),
            Units::Inches => Real::from_bits(0x4039_6666_6666_6666u64),
            Units::Feet => Real::from_bits(0x4073_0CCC_CCCC_CCCDu64),
        }
    }
}

/// Errors of the document model.
#[derive(Debug)]
pub enum Error {
    /// No entity has this identifier.
    EntityNotFound(ids::EntityId),
    /// No feature has this identifier.
    FeatureNotFound(ids::FeatureId),
    /// The operation is not allowed in the current state.
    InvalidOperation(String),
    /// A constraint could not be handled.
    ConstraintError(String),
    /// Data could not be read or written.
    SerializationError(String),
    /// The history could not be changed.
    HistoryError(String),
}

/// A 64-bit IEEE-754 number held by its bit pattern. The library only stores
/// and compares such values; arithmetic on them happens outside the verified code.
#[derive(Debug, Clone, Copy, PartialEq, Eq, Structural)]
pub struct Real {
    pub bits: u64,
}

impl Real {
    /// Wraps a bit pattern.
    pub fn from_bits(bits: u64) -> (r: Real)
        ensures
            r.bits == bits,
    {
        Real { bits }
    }

    /// The bit pattern of `+0.0`.
    pub fn zero() -> (r: Real)
        ensures
            r.bits == 0,
    {
        Real { bits: 0 }
    }

    /// The bit pattern of `1.0`.
    pub fn one() -> (r: Real)
        ensures
            r.bits == 0x3FF0_0000_0000_0000u64,
    {
        Real { bits: 0x3FF0_0000_0000_0000u64 }
    }
}

/// A point or direction in 3D space.
#[derive(Debug, Clone, Copy, PartialEq, Eq, Structural)]
pub struct Vec3 {
    pub x: Real,
    pub y: Real,
    pub z: Real,
}

} // verus!
