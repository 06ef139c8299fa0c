//! File formats known to the importer and exporter, their options and errors.
use vstd::prelude::*;
use crate::param_map::ParamMap;
use crate::text::chars_of;
use crate::Real;

verus! {

/// `std::io::Error`, carried without looking inside.
#[verifier::external_type_specification]
#[verifier::external_body]
pub struct ExStdIoError(std::io::Error);

/// Errors of reading and writing model files.
#[derive(Debug)]
pub enum IoError {
    FileNotFound(String),
    InvalidFormat(String),
    ParseError(String),
    WriteError(String),
    UnsupportedFeature(String),
    Io(std::io::Error),
}

/// Supported file formats.
#[derive(Debug, Clone, Copy, PartialEq, Eq, Structural)]
pub enum FileFormat {
    /// STEP AP203/AP214/AP242.
    Step,
    Iges,
    /// STL, ASCII or binary.
    Stl,
    /// Wavefront OBJ.
    Obj,
    /// glTF 2.0.
    Gltf,
    /// USD, USDA or USDC.
    Usd,
}

/// The lowercase form of an ASCII letter; other characters are unchanged.
pub open spec fn ascii_lower(c: char) -> char {
    if 'A' <= c && c <= 'Z' {
        ((c as u32) + 32) as char
    } else {
        c
    }
}

/// The uppercase form of an ASCII letter; other characters are unchanged.
pub open spec fn ascii_upper(c: char) -> char {
    if 'a' <= c && c <= 'z' {
        ((c as u32) - 32) as char
    } else {
        c
    }
}

/// The extension written for format `f`.
pub open spec fn extension_text(f: FileFormat) -> Seq<char> {
    match f {
        FileFormat::Step => "step"@,
        FileFormat::Iges => "iges"@,
        FileFormat::Stl => "stl"@,
        FileFormat::Obj => "obj"@,
        FileFormat::Gltf => "gltf"@,
        FileFormat::Usd => "usda"@,
    }
}

/// The format named by an extension that is already in lowercase.
pub open spec fn format_of_lowercase(e: Seq<char>) -> Option<FileFormat> {
    if e == "step"@ || e == "stp"@ || e == "p21"@ {
        Some(FileFormat::Step)
    } else if e == "iges"@ || e == "igs"@ {
        Some(FileFormat::Iges)
    } else if e == "stl"@ {
        Some(FileFormat::Stl)
    } else if e == "obj"@ {
        Some(FileFormat::Obj)
    } else if e == "gltf"@ || e == "glb"@ {
        Some(FileFormat::Gltf)
    } else if e == "usd"@ || e == "usda"@ || e == "usdc"@ || e == "usdz"@ {
        Some(FileFormat::Usd)
    } else {
        None
    }
}

/// Whether the characters of `v` equal the literal `lit`.
pub(crate) fn chars_equal(v: &Vec<char>, lit: &str) -> (b: bool)
    ensures
        b == (v@ == lit@),
{
    let n = lit.unicode_len();
    if v.len() != n {
        return false;
    }
    let mut i: usize = 0;
    while i < n
        invariant
            n == lit@.len(),
            v@.len() == n,
            i <= n,
            forall|j: int| 0 <= j < i ==> v@[j] == lit@[j],
        decreases n - i,
    {
        if v[i] != lit.get_char(i) {
            return false;
        }
        i = i + 1;
    }
    assert(v@ =~= lit@);
    true
}

impl FileFormat {
    /// The format for a file extension, in any letter case. Letters are compared
    /// in ASCII lowercase; a non-ASCII character never matches, as no extension
    /// here has a letter that a non-ASCII character lowercases to.
    pub fn from_extension(ext: &str) -> (r: Option<FileFormat>)
        ensures
            r == format_of_lowercase(ext@.map_values(|c: char| ascii_lower(c))),
    {
        let chars = chars_of(ext);
        let mut lower: Vec<char> = Vec::new();
        let mut i: usize = 0;
        while i < chars.len()
            invariant
                i <= chars@.len(),
                chars@ == ext@,
                lower@ == ext@.take(i as int).map_values(|c: char| ascii_lower(c)),
            decreases chars@.len() - i,
        {
            let c = chars[i];
            let l = if 'A' <= c && c <= 'Z' {
                char_from_ascii_code((c as u32) + 32)
            } else {
                c
            };
            lower.push(l);
            assert(ext@.take(i + 1).map_values(|c: char| ascii_lower(c)) =~= ext@.take(i as int).map_values(
                |c: char| ascii_lower(c),
            ).push(ascii_lower(c)));
            i = i + 1;
        }
        assert(ext@.take(i as int) =~= ext@);
        if chars_equal(&lower, "step") || chars_equal(&lower, "stp") || chars_equal(&lower, "p21") {
            Some(FileFormat::Step)
        } else if chars_equal(&lower, "iges") || chars_equal(&lower, "igs") {
            Some(FileFormat::Iges)
        } else if chars_equal(&lower, "stl") {
            Some(FileFormat::Stl)
        } else if chars_equal(&lower, "obj") {
            Some(FileFormat::Obj)
        } else if chars_equal(&lower, "gltf") || chars_equal(&lower, "glb") {
            Some(FileFormat::Gltf)
        } else if chars_equal(&lower, "usd") || chars_equal(&lower, "usda") || chars_equal(&lower, "usdc")
            || chars_equal(&lower, "usdz") {
            Some(FileFormat::Usd)
        } else {
            None
        }
    }

    /// The extension written for the format.
    pub fn extension(&self) -> (r: &'static str)
        ensures
            r@ == extension_text(*self),
    {
        match self {
            FileFormat::Step => "step",
            FileFormat::Iges => "iges",
            FileFormat::Stl => "stl",
            FileFormat::Obj => "obj",
            FileFormat::Gltf => "gltf",
            FileFormat::Usd => "usda",
        }
    }

    /// The MIME type of the format.
    pub fn mime_type(&self) -> (r: &'static str)
        ensures
            r@ == (match *self {
                FileFormat::Step => "application/step"@,
                FileFormat::Iges => "application/iges"@,
                FileFormat::Stl => "application/sla"@,
                FileFormat::Obj => "text/plain"@,
                FileFormat::Gltf => "model/gltf+json"@,
                FileFormat::Usd => "model/vnd.usd+usda"@,
            }),
    {
        match self {
            FileFormat::Step => "application/step",
            FileFormat::Iges => "application/iges",
            FileFormat::Stl => "application/sla",
            FileFormat::Obj => "text/plain",
            FileFormat::Gltf => "model/gltf+json",
            FileFormat::Usd => "model/vnd.usd+usda",
        }
    }

    /// Whether the format carries exact B-Rep geometry.
    pub fn supports_brep(&self) -> (b: bool)
        ensures
            b == (*self == FileFormat::Step || *self == FileFormat::Iges),
    {
        match self {
            FileFormat::Step | FileFormat::Iges => true,
            _ => false,
        }
    }

    /// Whether the format holds meshes only.
    pub fn is_mesh_format(&self) -> (b: bool)
        ensures
            b == (*self == FileFormat::Stl || *self == FileFormat::Obj || *self == FileFormat::Gltf),
    {
        match self {
            FileFormat::Stl | FileFormat::Obj | FileFormat::Gltf => true,
            _ => false,
        }
    }
}

fn char_from_ascii_code(code: u32) -> (c: char)
    requires
        97 <= code <= 122,
    ensures
        c == code as char,
{
    let letters = "abcdefghijklmnopqrstuvwxyz";
    proof {
        reveal_strlit("abcdefghijklmnopqrstuvwxyz");
    }
    let c = letters.get_char((code - 97) as usize);
    assert(c == code as char) by {
        assert(letters@ == "abcdefghijklmnopqrstuvwxyz"@);
    }
    c
}

/// Options for importing a model.
#[derive(Debug, Clone, Copy)]
pub struct ImportOptions {
    /// Scale factor applied to positions.
    pub scale: Real,
    /// Whether identical vertices are merged.
    pub merge_vertices: bool,
    /// Distance under which vertices count as identical.
    pub merge_tolerance: Real,
    /// Whether missing normals are computed.
    pub compute_normals: bool,
    /// Whether normals are flipped.
    pub flip_normals: bool,
}

impl ImportOptions {
    /// Scale 1, vertex merging with tolerance 1e-6, computed normals, no flipping.
    pub fn new() -> (o: ImportOptions)
        ensures
            o.scale.bits == 0x3FF0_0000_0000_0000u64,
            o.merge_vertices,
            o.merge_tolerance.bits == 0x3EB0_C6F7_A0B5_ED8Du64,
            o.compute_normals,
            !o.flip_normals,
    {
        ImportOptions {
            scale: Real::one(),
            merge_vertices: true,
            merge_tolerance: Real::from_bits(0x3EB0_C6F7_A0B5_ED8Du64),
            compute_normals: true,
            flip_normals: false,
        }
    }
}

/// Options for exporting a model.
#[derive(Debug)]
pub struct ExportOptions {
    /// Format-specific options.
    pub format_options: ParamMap<String>,
    /// Whether the binary form is written, where the format has one.
    pub binary: bool,
    /// Compression level, 0 to 9, where the format has one.
    pub compression: u8,
    pub include_materials: bool,
    pub include_textures: bool,
}

impl ExportOptions {
    /// Binary output, compression 6, with materials and textures.
    pub fn new() -> (o: ExportOptions)
        ensures
            o.format_options@ == Map::<Seq<char>, String>::empty(),
            o.binary,
            o.compression == 6,
            o.include_materials,
            o.include_textures,
    {
        ExportOptions {
            format_options: ParamMap::new(),
            binary: true,
            compression: 6,
            include_materials: true,
            include_textures: true,
        }
    }

    /// As `new`, but for ASCII output.
    pub fn ascii() -> (o: ExportOptions)
        ensures
            o.format_options@ == Map::<Seq<char>, String>::empty(),
            !o.binary,
            o.compression == 6,
            o.include_materials,
            o.include_textures,
    {
        let mut o = ExportOptions::new();
        o.binary = false;
        o
    }
}

/// The extension written for a format names that format again, whether it is
/// read as written or in ASCII uppercase.
pub proof fn law_extension_round_trip(f: FileFormat)
    ensures
        format_of_lowercase(extension_text(f).map_values(|c: char| ascii_lower(c))) == Some(f),
        format_of_lowercase(
            extension_text(f).map_values(|c: char| ascii_upper(c)).map_values(|c: char| ascii_lower(c)),
        ) == Some(f),
{
    reveal_strlit("step");
    reveal_strlit("stp");
    reveal_strlit("p21");
    reveal_strlit("iges");
    reveal_strlit("igs");
    reveal_strlit("stl");
    reveal_strlit("obj");
    reveal_strlit("gltf");
    reveal_strlit("glb");
    reveal_strlit("usd");
    reveal_strlit("usda");
    reveal_strlit("usdc");
    reveal_strlit("usdz");
    let e = extension_text(f);
    assert(forall|i: int| 0 <= i < e.len() ==> 'a' <= #[trigger] e[i] <= 'z');
    assert(e.map_values(|c: char| ascii_lower(c)) =~= e);
    assert(e.map_values(|c: char| ascii_upper(c)).map_values(|c: char| ascii_lower(c)) =~= e) by {
        assert forall|i: int| 0 <= i < e.len() implies ascii_lower(ascii_upper(#[trigger] e[i])) == e[i] by {
            assert('a' <= e[i] <= 'z');
        }
    }
    assert("step"@ != "iges"@) by { assert("step"@[0] != "iges"@[0]); }
    assert("stl"@ != "stp"@) by { assert("stl"@[2] != "stp"@[2]); }
    assert("stl"@ != "p21"@) by { assert("stl"@[0] != "p21"@[0]); }
    assert("stl"@ != "igs"@) by { assert("stl"@[0] != "igs"@[0]); }
    assert("obj"@ != "stp"@) by { assert("obj"@[0] != "stp"@[0]); }
    assert("obj"@ != "p21"@) by { assert("obj"@[0] != "p21"@[0]); }
    assert("obj"@ != "igs"@) by { assert("obj"@[0] != "igs"@[0]); }
    assert("obj"@ != "stl"@) by { assert("obj"@[0] != "stl"@[0]); }
    assert("gltf"@ != "step"@) by { assert("gltf"@[0] != "step"@[0]); }
    assert("gltf"@ != "iges"@) by { assert("gltf"@[0] != "iges"@[0]); }
    assert("usda"@ != "step"@) by { assert("usda"@[0] != "step"@[0]); }
    assert("usda"@ != "iges"@) by { assert("usda"@[0] != "iges"@[0]); }
    assert("usda"@ != "gltf"@) by { assert("usda"@[0] != "gltf"@[0]); }
}

} // verus!
