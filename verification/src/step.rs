//! STEP import: the file's bytes are read as UTF-8 text and checked to parse
//! as an exchange structure with a `DATA` section, and the meshes that its
//! shells tessellate to are gathered. Building the entity table from the
//! checked text and tessellating each shell is floating-point work done by the
//! caller, shell by shell.
use vstd::prelude::*;
use crate::formats::IoError;
use crate::mesh::Mesh;
use crate::text::concat;
use vstd::utf8::{decode_utf8, valid_utf8};

verus! {

/// The text that `std::str::Utf8Error` displays for the first invalid
/// sequence in `bytes`.
pub uninterp spec fn utf8_error_text(bytes: Seq<u8>) -> Seq<char>;

/// `std::str::from_utf8`: the text of valid UTF-8 bytes; otherwise the error,
/// as it displays itself.
#[verifier::external_body]
fn str_from_utf8(data: &[u8]) -> (r: Result<&str, String>)
    ensures
        match r {
            Ok(s) => valid_utf8(data@) && s@ == decode_utf8(data@),
            Err(m) => !valid_utf8(data@) && m@ == utf8_error_text(data@),
        },
{
    std::str::from_utf8(data).map_err(|e| format!("{e}"))
}

/// The number of `DATA` sections that `ruststep::parser::parse` finds in a
/// STEP text, or none when the text does not parse.
pub uninterp spec fn step_data_sections(text: Seq<char>) -> Option<nat>;

/// `ruststep::parser::parse`, read for the number of `DATA` sections of the
/// exchange structure; `None` when the text does not parse.
#[verifier::external_body]
fn count_data_sections(text: &str) -> (r: Option<usize>)
    ensures
        match r {
            Some(n) => step_data_sections(text@) == Some(n as nat),
            None => step_data_sections(text@) is None,
        },
{
    ruststep::parser::parse(text).ok().map(|x| x.data.len())
}

/// The message of STEP bytes that are not UTF-8.
pub open spec fn utf8_message(bytes: Seq<u8>) -> Seq<char> {
    "STEP is not valid UTF-8: "@ + utf8_error_text(bytes)
}

/// Reads the bytes of a STEP file as text that parses into an exchange
/// structure with at least one `DATA` section, which is what
/// `truck_stepio`'s `Table::from_step` builds its table from (it parses the
/// text the same way and reads the first section unchecked).
/// - Bytes that are not UTF-8: `ParseError("STEP is not valid UTF-8: " + the
///   decoder's message)`.
/// - Text that does not parse: `ParseError("failed to parse STEP file")`.
/// - Text that parses with no `DATA` section: `ParseError("STEP file has no
///   DATA section")`.
pub fn read_step_text(data: &[u8]) -> (r: Result<String, IoError>)
    ensures
        !valid_utf8(data@) ==> (r matches Err(IoError::ParseError(m)) && m@ == utf8_message(data@)),
        valid_utf8(data@) ==> match step_data_sections(decode_utf8(data@)) {
            None => r matches Err(IoError::ParseError(m)) && m@ == "failed to parse STEP file"@,
            Some(n) => if n == 0 {
                r matches Err(IoError::ParseError(m)) && m@ == "STEP file has no DATA section"@
            } else {
                r matches Ok(t) && t@ == decode_utf8(data@)
            },
        },
{
    let text = match str_from_utf8(data) {
        Ok(t) => t,
        Err(e) => return Err(IoError::ParseError(concat("STEP is not valid UTF-8: ", e.as_str()))),
    };
    match count_data_sections(text) {
        Some(n) => {
            if n == 0 {
                return Err(IoError::ParseError(String::from_str("STEP file has no DATA section")));
            }
            Ok(String::from_str(text))
        },
        None => Err(IoError::ParseError(String::from_str("failed to parse STEP file"))),
    }
}

/// Whether a shell's mesh is kept: it tessellated and has a vertex.
pub open spec fn shell_kept(m: Option<Mesh>) -> bool {
    m matches Some(mesh) && mesh.positions@.len() >= 3
}

/// The meshes kept from the shells, in order.
pub open spec fn kept_meshes(shells: Seq<Option<Mesh>>) -> Seq<Mesh>
    decreases shells.len(),
{
    if shells.len() == 0 {
        Seq::empty()
    } else if shell_kept(shells.last()) {
        kept_meshes(shells.drop_last()).push(shells.last()->0)
    } else {
        kept_meshes(shells.drop_last())
    }
}

/// The message of a STEP file none of whose shells gave a mesh.
pub open spec fn no_shells_message() -> Seq<char> {
    "STEP file contained no tessellatable shells"@
}

/// Gathers the meshes of a STEP file's shells, in order: a shell that could not
/// be tessellated (`None`) or gave a mesh without vertices is skipped. When no
/// shell gave a mesh, `ParseError("STEP file contained no tessellatable
/// shells")`.
pub fn collect_step_meshes(shells: Vec<Option<Mesh>>) -> (r: Result<Vec<Mesh>, IoError>)
    ensures
        match r {
            Ok(ms) => ms@ == kept_meshes(shells@) && ms@.len() > 0,
            Err(e) => kept_meshes(shells@).len() == 0 && (e matches IoError::ParseError(m) && m@ == no_shells_message()),
        },
{
    let ghost all = shells@;
    assert(all.len() == shells.len());
    let mut meshes: Vec<Mesh> = Vec::new();
    let mut rest = shells;
    let mut taken: usize = 0;
    while rest.len() > 0
        invariant
            taken + rest@.len() == all.len(),
            all.len() <= usize::MAX,
            rest@ == all.subrange(taken as int, all.len() as int),
            meshes@ == kept_meshes(all.take(taken as int)),
        decreases rest@.len(),
    {
        let next = rest.remove(0);
        proof {
            assert(next == all[taken as int]);
            let t = all.take(taken + 1);
            assert(t.drop_last() =~= all.take(taken as int));
            assert(t.last() == all[taken as int]);
        }
        match next {
            Some(m) => {
                if m.positions.len() >= 3 {
                    meshes.push(m);
                }
            },
            None => {},
        }
        taken = taken + 1;
        proof {
            assert(rest@ =~= all.subrange(taken as int, all.len() as int));
        }
    }
    proof {
        assert(all.take(taken as int) =~= all);
    }
    if meshes.len() == 0 {
        return Err(IoError::ParseError(String::from_str("STEP file contained no tessellatable shells")));
    }
    Ok(meshes)
}

} // verus!
