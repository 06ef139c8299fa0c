//! glTF buffers: the binary blob of a GLB file and base64 data URIs.
use vstd::prelude::*;
use crate::base64::{base64_decode, base64_decoded};
use crate::formats::IoError;
use crate::text::{chars_of, concat, split_chars, split_on, string_from_chars};
use vstd::utf8::encode_utf8;
use crate::bytes::{le_bytes, le_u32, le_words, push_le_u32, read_le_u32};
use crate::mesh::Mesh;

verus! {

/// Where the bytes of a glTF buffer come from.
#[derive(Debug, Clone)]
pub enum BufferSource {
    /// The binary chunk embedded in a GLB file.
    Bin,
    /// A URI: a base64 `data:` URI, or an external file.
    Uri(String),
}

/// How one buffer loads.
pub enum BufferOutcome {
    /// The buffer's bytes.
    Data(Seq<u8>),
    /// A GLB chunk was wanted but the file has none.
    MissingBlob,
    /// A data URI has no comma before its payload.
    BadDataUri,
    /// The payload of a data URI is not valid base64.
    BadBase64,
    /// The buffer lives in an external file.
    External,
}

/// The bytes of an optional binary chunk.
pub open spec fn blob_view(blob: Option<&Vec<u8>>) -> Option<Seq<u8>> {
    match blob {
        Some(b) => Some(b@),
        None => None,
    }
}

/// Whether `u` begins with `data:`.
pub open spec fn is_data_uri(u: Seq<char>) -> bool {
    u.len() >= 5 && u.take(5) == "data:"@
}

/// A buffer source as a plain value: none for the binary chunk, else its URI.
pub open spec fn source_view(s: BufferSource) -> Option<Seq<char>> {
    match s {
        BufferSource::Bin => None,
        BufferSource::Uri(u) => Some(u@),
    }
}

/// How a buffer with source `src` (see [`source_view`]) loads, given the
/// file's binary chunk.
pub open spec fn source_outcome(src: Option<Seq<char>>, blob: Option<Seq<u8>>) -> BufferOutcome {
    match src {
        None => match blob {
            Some(b) => BufferOutcome::Data(b),
            None => BufferOutcome::MissingBlob,
        },
        Some(u) => if is_data_uri(u) {
            let pieces = split_on(u, ',');
            if pieces.len() < 2 {
                BufferOutcome::BadDataUri
            } else {
                match base64_decoded(encode_utf8(pieces[1])) {
                    Some(d) => BufferOutcome::Data(d),
                    None => BufferOutcome::BadBase64,
                }
            }
        } else {
            BufferOutcome::External
        },
    }
}

/// How buffer `src` loads, given the file's binary chunk.
pub open spec fn buffer_outcome(src: BufferSource, blob: Option<Seq<u8>>) -> BufferOutcome {
    source_outcome(source_view(src), blob)
}

/// Whether the error `e` reports the failed outcome `o`.
pub open spec fn reports(e: IoError, o: BufferOutcome) -> bool {
    match o {
        BufferOutcome::MissingBlob => e matches IoError::ParseError(m) && m@ == "Missing embedded buffer"@,
        BufferOutcome::BadDataUri => e matches IoError::ParseError(m) && m@ == "Invalid data URI"@,
        BufferOutcome::BadBase64 => e is ParseError,
        BufferOutcome::External => e matches IoError::UnsupportedFeature(m) && m@
            == "External buffer files not supported"@,
        BufferOutcome::Data(_) => false,
    }
}

fn message(lit: &str) -> (s: String)
    ensures
        s@ == lit@,
{
    String::from_str(lit)
}

fn starts_with_data(v: &Vec<char>) -> (b: bool)
    ensures
        b == is_data_uri(v@),
{
    let prefix = "data:";
    proof {
        reveal_strlit("data:");
    }
    if v.len() < 5 {
        return false;
    }
    let r = v[0] == 'd' && v[1] == 'a' && v[2] == 't' && v[3] == 'a' && v[4] == ':';
    proof {
        let lit = seq!['d', 'a', 't', 'a', ':'];
        assert("data:"@ =~= lit);
        if r {
            assert(v@.take(5) =~= lit);
        } else if v@.take(5) == lit {
            assert(v@.take(5)[0] == lit[0] && v@.take(5)[1] == lit[1] && v@.take(5)[2] == lit[2]
                && v@.take(5)[3] == lit[3] && v@.take(5)[4] == lit[4]);
        }
    }
    r
}

/// Loads one buffer.
fn load_buffer(src: &BufferSource, blob: Option<&Vec<u8>>) -> (r: Result<Vec<u8>, IoError>)
    ensures
        match buffer_outcome(*src, blob_view(blob)) {
            BufferOutcome::Data(d) => r is Ok && r->Ok_0@ == d,
            o => r is Err && reports(r->Err_0, o),
        },
{
    match src {
        BufferSource::Bin => match blob {
            Some(b) => {
                let c = b.clone();
                assert(c@ =~= b@);
                Ok(c)
            },
            None => Err(IoError::ParseError(message("Missing embedded buffer"))),
        },
        BufferSource::Uri(u) => {
            let chars = chars_of(u.as_str());
            if starts_with_data(&chars) {
                let pieces = split_chars(&chars, ',');
                if pieces.len() < 2 {
                    return Err(IoError::ParseError(message("Invalid data URI")));
                }
                let payload = string_from_chars(&pieces[1]);
                base64_decode(payload.as_str())
            } else {
                Err(IoError::UnsupportedFeature(message("External buffer files not supported")))
            }
        },
    }
}

/// Loads the bytes of every buffer, in order. The first buffer that cannot be
/// loaded decides the error: a missing GLB chunk, a data URI without payload or
/// with invalid base64, or an external file, which is not supported.
pub fn load_buffers(sources: &Vec<BufferSource>, blob: Option<&Vec<u8>>) -> (r: Result<Vec<Vec<u8>>, IoError>)
    ensures
        ({
            let bl = blob_view(blob);
            match r {
                Ok(bufs) => bufs@.len() == sources@.len() && forall|i: int| 0 <= i < sources@.len()
                    ==> buffer_outcome(#[trigger] sources@[i], bl) == BufferOutcome::Data(bufs@[i]@),
                Err(e) => exists|i: int| 0 <= i < sources@.len()
                    && (forall|j: int| 0 <= j < i ==> #[trigger] buffer_outcome(sources@[j], bl) is Data)
                    && !(buffer_outcome(sources@[i], bl) is Data) && reports(e, buffer_outcome(sources@[i], bl)),
            }
        }),
{
    let ghost bl = blob_view(blob);
    let mut buffers: Vec<Vec<u8>> = Vec::new();
    let mut i: usize = 0;
    while i < sources.len()
        invariant
            bl == blob_view(blob),
            i <= sources@.len(),
            buffers@.len() == i,
            forall|j: int| 0 <= j < i ==> buffer_outcome(#[trigger] sources@[j], bl) == BufferOutcome::Data(buffers@[j]@),
        decreases sources@.len() - i,
    {
        match load_buffer(&sources[i], blob) {
            Ok(b) => {
                buffers.push(b);
            },
            Err(e) => {
                proof {
                    assert forall|j: int| 0 <= j < i implies #[trigger] buffer_outcome(sources@[j], bl) is Data by {
                        assert(buffer_outcome(sources@[j], bl) == BufferOutcome::Data(buffers@[j]@));
                    }
                }
                return Err(e);
            },
        }
        i = i + 1;
    }
    Ok(buffers)
}


/// The bytes of an optional chunk.
pub open spec fn chunk_view(b: Option<Vec<u8>>) -> Option<Seq<u8>> {
    match b {
        Some(v) => Some(v@),
        None => None,
    }
}

/// What `gltf::Gltf::from_slice` reads from the bytes of a glTF or GLB file,
/// as far as buffers go: the source of each buffer (see [`source_view`]) and the
/// GLB binary chunk; or, when the file does not parse or validate, its error as
/// `Debug` writes it.
pub uninterp spec fn gltf_buffer_table(data: Seq<u8>) -> Result<(Seq<Option<Seq<char>>>, Option<Seq<u8>>), Seq<char>>;

/// Bytes that open with the GLB magic `glTF` and a header whose declared total
/// length is under the 12 bytes of the header itself.
pub open spec fn short_glb_header(d: Seq<u8>) -> bool {
    &&& d.len() >= 12
    &&& d[0] == 0x67u8 && d[1] == 0x6Cu8 && d[2] == 0x54u8 && d[3] == 0x46u8
    &&& le_u32(d, 8) < 12
}

/// The message of a GLB file whose header declares a length shorter than the header.
pub open spec fn short_glb_message() -> Seq<char> {
    "glTF parse error: GLB header declares a length below 12 bytes"@
}

/// `gltf::Gltf::from_slice`, read for the sources of the buffers and the binary
/// chunk. Claims only that the result is the one named by
/// [`gltf_buffer_table`] for these bytes. A GLB header that declares a length
/// under 12 bytes makes the crate subtract past zero, so such bytes are left out.
#[verifier::external_body]
fn read_buffer_table(data: &[u8]) -> (r: Result<(Vec<BufferSource>, Option<Vec<u8>>), String>)
    requires
        !short_glb_header(data@),
    ensures
        match r {
            Ok((s, b)) => gltf_buffer_table(data@) == Ok::<(Seq<Option<Seq<char>>>, Option<Seq<u8>>), Seq<char>>(
                (s@.map_values(|x: BufferSource| source_view(x)), chunk_view(b)),
            ),
            Err(e) => gltf_buffer_table(data@) == Err::<(Seq<Option<Seq<char>>>, Option<Seq<u8>>), Seq<char>>(e@),
        },
{
    match gltf::Gltf::from_slice(data) {
        Ok(g) => {
            let sources = g.buffers().map(|b| match b.source() {
                gltf::buffer::Source::Bin => BufferSource::Bin,
                gltf::buffer::Source::Uri(u) => BufferSource::Uri(u.to_string()),
            }).collect();
            Ok((sources, g.blob.clone()))
        },
        Err(e) => Err(format!("{:?}", e)),
    }
}

/// Whether `d` is a GLB file whose header declares a length under 12 bytes.
fn has_short_glb_header(d: &[u8]) -> (b: bool)
    ensures
        b == short_glb_header(d@),
{
    d.len() >= 12 && d[0] == 0x67u8 && d[1] == 0x6Cu8 && d[2] == 0x54u8 && d[3] == 0x46u8
        && read_le_u32(d, 8) < 12
}

/// Reads the bytes of every buffer of a glTF or GLB file. A GLB header that
/// declares a length under 12 bytes, or a file that does not parse, is a parse
/// error; otherwise the buffers load as [`load_buffers`] says.
pub fn import_buffers(data: &[u8]) -> (r: Result<Vec<Vec<u8>>, IoError>)
    ensures
        short_glb_header(data@) ==> (r matches Err(IoError::ParseError(x)) && x@ == short_glb_message()),
        !short_glb_header(data@) ==> match gltf_buffer_table(data@) {
            Err(m) => r matches Err(IoError::ParseError(x)) && x@ == "glTF parse error: "@ + m,
            Ok((srcs, bl)) => match r {
                Ok(bufs) => bufs@.len() == srcs.len() && forall|i: int|
                    0 <= i < srcs.len() ==> source_outcome(#[trigger] srcs[i], bl) == BufferOutcome::Data(bufs@[i]@),
                Err(e) => exists|i: int|
                    0 <= i < srcs.len() && (forall|j: int| 0 <= j < i ==> #[trigger] source_outcome(srcs[j], bl) is Data)
                        && !(source_outcome(srcs[i], bl) is Data) && reports(e, source_outcome(srcs[i], bl)),
            },
        },
{
    if has_short_glb_header(data) {
        return Err(IoError::ParseError(String::from_str("glTF parse error: GLB header declares a length below 12 bytes")));
    }
    match read_buffer_table(data) {
        Err(e) => Err(IoError::ParseError(concat("glTF parse error: ", e.as_str()))),
        Ok((sources, blob)) => {
            let ghost srcs = sources@.map_values(|x: BufferSource| source_view(x));
            let chunk = blob.as_ref();
            proof {
                assert(blob_view(chunk) == chunk_view(blob));
            }
            let r = load_buffers(&sources, chunk);
            proof {
                let bl = chunk_view(blob);
                assert(srcs.len() == sources@.len());
                assert forall|i: int| 0 <= i < sources@.len() implies #[trigger] srcs[i] == source_view(sources@[i]) by {}
                match &r {
                    Ok(bufs) => {
                        assert forall|i: int| 0 <= i < srcs.len() implies source_outcome(#[trigger] srcs[i], bl)
                            == BufferOutcome::Data(bufs@[i]@) by {
                            assert(buffer_outcome(sources@[i], bl) == BufferOutcome::Data(bufs@[i]@));
                        }
                    },
                    Err(e) => {
                        let i = choose|i: int|
                            0 <= i < sources@.len() && (forall|j: int| 0 <= j < i ==> #[trigger] buffer_outcome(sources@[j], bl) is Data)
                                && !(buffer_outcome(sources@[i], bl) is Data) && reports(*e, buffer_outcome(sources@[i], bl));
                        assert(srcs[i] == source_view(sources@[i]));
                        assert forall|j: int| 0 <= j < i implies #[trigger] source_outcome(srcs[j], bl) is Data by {
                            assert(srcs[j] == source_view(sources@[j]));
                            assert(buffer_outcome(sources@[j], bl) is Data);
                        }
                    },
                }
            }
            r
        },
    }
}

/// A contiguous range of the export buffer.
#[derive(Debug, Clone, Copy, PartialEq, Eq, Structural)]
pub struct BufferView {
    pub offset: usize,
    pub length: usize,
}

/// The single buffer of an exported glTF file, with the views and accessor
/// element counts of each mesh: positions, normals, then indices.
#[derive(Debug, Clone)]
pub struct PackedBuffer {
    pub data: Vec<u8>,
    pub views: Vec<BufferView>,
    pub counts: Vec<usize>,
}

/// The number of vertices of a mesh.
pub open spec fn vcount(m: Mesh) -> int {
    (m.positions@.len() / 3) as int
}

/// The bytes one mesh adds to the buffer: its positions, its normals (one per
/// vertex) and its indices, each as little-endian words.
pub open spec fn mesh_bytes(m: Mesh) -> Seq<u8> {
    le_words(m.positions@.take(3 * vcount(m))) + le_words(m.normals@.take(3 * vcount(m))) + le_words(m.indices@)
}

/// The buffer made from meshes `ms`.
pub open spec fn packed_data(ms: Seq<Mesh>) -> Seq<u8>
    decreases ms.len(),
{
    if ms.len() == 0 {
        Seq::empty()
    } else {
        packed_data(ms.drop_last()) + mesh_bytes(ms.last())
    }
}

/// The buffer views of meshes `ms`: three per mesh.
pub open spec fn packed_views(ms: Seq<Mesh>) -> Seq<(int, int)>
    decreases ms.len(),
{
    if ms.len() == 0 {
        Seq::empty()
    } else {
        let b = packed_data(ms.drop_last()).len() as int;
        let m = ms.last();
        packed_views(ms.drop_last()) + seq![
            (b, 12 * vcount(m)),
            (b + 12 * vcount(m), 12 * vcount(m)),
            (b + 24 * vcount(m), 4 * m.indices@.len() as int),
        ]
    }
}

/// The accessor element counts of meshes `ms`: vertices, vertices, indices.
pub open spec fn packed_counts(ms: Seq<Mesh>) -> Seq<int>
    decreases ms.len(),
{
    if ms.len() == 0 {
        Seq::empty()
    } else {
        let m = ms.last();
        packed_counts(ms.drop_last()) + seq![vcount(m), vcount(m), m.indices@.len() as int]
    }
}

/// Whether each mesh has a normal for each vertex.
pub open spec fn normals_complete(ms: Seq<Mesh>) -> bool {
    forall|i: int| 0 <= i < ms.len() ==> (#[trigger] ms[i]).normals@.len() >= 3 * vcount(ms[i])
}

/// The little-endian form of `n` words has `4 n` bytes.
proof fn lemma_le_words_len(ws: Seq<u32>)
    ensures
        le_words(ws).len() == 4 * ws.len(),
    decreases ws.len(),
{
    if ws.len() > 0 {
        lemma_le_words_len(ws.drop_last());
    }
}

fn push_words(out: &mut Vec<u8>, ws: &Vec<u32>, n: usize)
    requires
        n <= ws@.len(),
    ensures
        final(out)@ == old(out)@ + le_words(ws@.take(n as int)),
{
    let ghost start = out@;
    let mut i: usize = 0;
    assert(ws@.take(0) =~= Seq::<u32>::empty());
    assert(out@ =~= start + le_words(ws@.take(0)));
    while i < n
        invariant
            n <= ws@.len(),
            i <= n,
            out@ == start + le_words(ws@.take(i as int)),
        decreases n - i,
    {
        push_le_u32(out, ws[i]);
        proof {
            assert(ws@.take(i + 1).drop_last() =~= ws@.take(i as int));
        }
        i = i + 1;
    }
}

/// Packs the meshes into the one buffer of a glTF export: for each mesh its
/// positions, normals and indices as little-endian words, with a buffer view
/// and an accessor count for each of the three.
pub fn pack_buffer(meshes: &Vec<Mesh>) -> (p: PackedBuffer)
    requires
        normals_complete(meshes@),
    ensures
        p.data@ == packed_data(meshes@),
        p.views@.len() == packed_views(meshes@).len(),
        forall|i: int|
            0 <= i < p.views@.len() ==> (#[trigger] p.views@[i]).offset == packed_views(meshes@)[i].0
                && p.views@[i].length == packed_views(meshes@)[i].1,
        p.counts@.len() == packed_counts(meshes@).len(),
        forall|i: int| 0 <= i < p.counts@.len() ==> #[trigger] p.counts@[i] == packed_counts(meshes@)[i],
{
    let mut data: Vec<u8> = Vec::new();
    let mut views: Vec<BufferView> = Vec::new();
    let mut counts: Vec<usize> = Vec::new();
    let mut k: usize = 0;
    while k < meshes.len()
        invariant
            k <= meshes@.len(),
            normals_complete(meshes@),
            data@ == packed_data(meshes@.take(k as int)),
            views@.len() == packed_views(meshes@.take(k as int)).len(),
            forall|i: int|
                0 <= i < views@.len() ==> (#[trigger] views@[i]).offset == packed_views(meshes@.take(k as int))[i].0
                    && views@[i].length == packed_views(meshes@.take(k as int))[i].1,
            counts@.len() == packed_counts(meshes@.take(k as int)).len(),
            forall|i: int| 0 <= i < counts@.len() ==> #[trigger] counts@[i] == packed_counts(meshes@.take(k as int))[i],
        decreases meshes@.len() - k,
    {
        let m = &meshes[k];
        let ghost pre = meshes@.take(k as int);
        let ghost post = meshes@.take(k + 1);
        proof {
            assert(post.drop_last() =~= pre);
            assert(post.last() == meshes@[k as int]);
            assert(meshes@[k as int].normals@.len() >= 3 * vcount(meshes@[k as int]));
        }
        let vc = m.vertex_count();
        let plen = m.positions.len();
        assert(3 * vc <= plen);
        let ghost base = data@;
        let start = data.len();
        push_words(&mut data, &m.positions, 3 * vc);
        let mid = data.len();
        push_words(&mut data, &m.normals, 3 * vc);
        let end = data.len();
        push_words(&mut data, &m.indices, m.indices.len());
        let stop = data.len();
        proof {
            lemma_le_words_len(m.positions@.take(3 * vc as int));
            lemma_le_words_len(m.normals@.take(3 * vc as int));
            lemma_le_words_len(m.indices@.take(m.indices@.len() as int));
            assert(m.indices@.take(m.indices@.len() as int) =~= m.indices@);
            assert(data@ =~= packed_data(post));
        }
        let ghost vs0 = views@;
        let ghost cs0 = counts@;
        views.push(BufferView { offset: start, length: mid - start });
        views.push(BufferView { offset: mid, length: end - mid });
        views.push(BufferView { offset: end, length: stop - end });
        counts.push(vc);
        counts.push(vc);
        counts.push(m.indices.len());
        proof {
            let pv = packed_views(post);
            assert(pv == packed_views(pre) + seq![
                (base.len() as int, 12 * vcount(meshes@[k as int])),
                (base.len() + 12 * vcount(meshes@[k as int]), 12 * vcount(meshes@[k as int])),
                (base.len() + 24 * vcount(meshes@[k as int]), 4 * meshes@[k as int].indices@.len() as int),
            ]);
            assert forall|i: int| 0 <= i < views@.len() implies (#[trigger] views@[i]).offset == pv[i].0
                && views@[i].length == pv[i].1 by {
                if i < vs0.len() {
                    assert(views@[i] == vs0[i]);
                }
            }
        }
        proof {
            assert forall|i: int| 0 <= i < counts@.len() implies #[trigger] counts@[i] == packed_counts(post)[i] by {
                if i < cs0.len() {
                    assert(counts@[i] == cs0[i]);
                }
            }
        }
        k = k + 1;
    }
    proof {
        assert(meshes@.take(meshes@.len() as int) =~= meshes@);
    }
    PackedBuffer { data, views, counts }
}

/// The buffer views of an export tile its buffer: the first starts at 0, each
/// starts where the one before ends, and the last ends with the buffer.
pub proof fn law_views_tile_buffer(ms: Seq<Mesh>)
    requires
        normals_complete(ms),
    ensures
        packed_views(ms).len() == 3 * ms.len(),
        ms.len() > 0 ==> packed_views(ms)[0].0 == 0,
        forall|i: int|
            0 <= i < packed_views(ms).len() - 1 ==> #[trigger] packed_views(ms)[i + 1].0 == packed_views(ms)[i].0
                + packed_views(ms)[i].1,
        ms.len() > 0 ==> packed_views(ms).last().0 + packed_views(ms).last().1 == packed_data(ms).len(),
    decreases ms.len(),
{
    if ms.len() > 0 {
        let pre = ms.drop_last();
        let m = ms.last();
        assert(normals_complete(pre)) by {
            assert forall|i: int| 0 <= i < pre.len() implies (#[trigger] pre[i]).normals@.len() >= 3 * vcount(pre[i]) by {
                assert(pre[i] == ms[i]);
            }
        }
        assert(m.normals@.len() >= 3 * vcount(m)) by {
            assert(ms[ms.len() - 1] == m);
        }
        law_views_tile_buffer(pre);
        let vc = vcount(m);
        assert(3 * vc <= m.positions@.len());
        lemma_le_words_len(m.positions@.take(3 * vc));
        lemma_le_words_len(m.normals@.take(3 * vc));
        lemma_le_words_len(m.indices@);
        assert(mesh_bytes(m).len() == 12 * vc + 12 * vc + 4 * m.indices@.len());
        let pv = packed_views(ms);
        let pp = packed_views(pre);
        let b = packed_data(pre).len() as int;
        assert(pv == pp + seq![(b, 12 * vc), (b + 12 * vc, 12 * vc), (b + 24 * vc, 4 * m.indices@.len() as int)]);
        if pre.len() > 0 {
            assert(pp.last().0 + pp.last().1 == b);
            assert(pv[pp.len() - 1] == pp.last());
        } else {
            assert(b == 0);
        }
        assert forall|i: int| 0 <= i < pv.len() - 1 implies #[trigger] pv[i + 1].0 == pv[i].0 + pv[i].1 by {
            if i + 1 < pp.len() {
                assert(pv[i + 1] == pp[i + 1]);
                assert(pv[i] == pp[i]);
            }
        }
    }
}

} // verus!
