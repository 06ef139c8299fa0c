//! Random identifiers for entities and features, drawn from version-4 UUIDs.
use vstd::prelude::*;

verus! {

/// Whether `bits` has the fields that every version-4 (random) UUID carries:
/// the version nibble is 4 and the variant bits are `10`.
pub open spec fn is_v4_uuid(bits: u128) -> bool {
    &&& (bits >> 76u128) & 0xfu128 == 4u128
    &&& (bits >> 62u128) & 0x3u128 == 2u128
}

/// The lowercase hexadecimal digit of `n` (`n < 16`).
pub open spec fn hex_digit(n: u128) -> char {
    if n < 10 {
        (48 + n) as char
    } else {
        (87 + n) as char
    }
}

/// Index of the hex digit shown at position `p` of the hyphenated form
/// `xxxxxxxx-xxxx-xxxx-xxxx-xxxxxxxxxxxx`, counted from the most significant nibble.
pub open spec fn nibble_at(p: int) -> int {
    if p < 8 {
        p
    } else if p < 13 {
        p - 1
    } else if p < 18 {
        p - 2
    } else if p < 23 {
        p - 3
    } else {
        p - 4
    }
}

/// The 36-character hyphenated lowercase text of a UUID whose big-endian value is `bits`.
pub open spec fn hyphenated_text(bits: u128) -> Seq<char> {
    Seq::new(
        36,
        |p: int|
            if p == 8 || p == 13 || p == 18 || p == 23 {
                '-'
            } else {
                hex_digit((bits >> ((4 * (31 - nibble_at(p))) as u128)) & 0xfu128)
            },
    )
}

/// Draws a random UUID with `uuid::Uuid::new_v4` and gives its 128-bit value
/// (`Uuid::as_u128`). The bits are random; the contract states only the version
/// and variant fields that `new_v4` always sets.
#[verifier::external_body]
fn random_v4_bits() -> (bits: u128)
    ensures
        is_v4_uuid(bits),
{
    uuid::Uuid::new_v4().as_u128()
}

/// The text `uuid::Uuid::from_u128(bits).hyphenated().to_string()`: the 32 hex
/// digits of `bits`, most significant first, lowercase, grouped 8-4-4-4-12.
#[verifier::external_body]
pub(crate) fn uuid_text(bits: u128) -> (s: String)
    ensures
        s@ == hyphenated_text(bits),
{
    uuid::Uuid::from_u128(bits).hyphenated().to_string()
}

/// Identifier of an entity (edge, face, sketch element) in the CAD system.
#[derive(Debug, Clone, Copy, PartialEq, Eq, Hash, Structural)]
pub struct EntityId(pub u128);

impl EntityId {
    /// A fresh random identifier.
    pub fn new() -> (id: EntityId)
        ensures
            is_v4_uuid(id.0),
    {
        EntityId(random_v4_bits())
    }

    /// The identifier in its usual hyphenated text form.
    pub fn to_text(&self) -> (s: String)
        ensures
            s@ == hyphenated_text(self.0),
    {
        uuid_text(self.0)
    }
}

/// Identifier of a feature in a document.
#[derive(Debug, Clone, Copy, PartialEq, Eq, Hash, Structural)]
pub struct FeatureId(pub u128);

impl FeatureId {
    /// A fresh random identifier.
    pub fn new() -> (id: FeatureId)
        ensures
            is_v4_uuid(id.0),
    {
        FeatureId(random_v4_bits())
    }

    /// The identifier in its usual hyphenated text form.
    pub fn to_text(&self) -> (s: String)
        ensures
            s@ == hyphenated_text(self.0),
    {
        uuid_text(self.0)
    }
}

/// A fresh random UUID in hyphenated text form, as used for session names.
pub fn new_uuid_text() -> (s: String)
    ensures
        exists|bits: u128| is_v4_uuid(bits) && s@ == hyphenated_text(bits),
{
    let bits = random_v4_bits();
    uuid_text(bits)
}

} // verus!
