//! The server's request and response records and the content it produces:
//! export placeholders, B-Rep service records, Omniverse endpoint replies and
//! the registry of Nucleus sessions.
use vstd::prelude::*;
use crate::ids::new_uuid_text;
use crate::omniverse::{
    invalid_url_message, is_uuid_text, not_connected_error, ConnectionState, OmniverseConfig, OmniverseConnector, OmniverseError,
};
use crate::param_map::ParamMap;
use crate::text::{concat, ends_with, has_prefix, has_suffix, lowercase_of, to_lowercase, trim, trimmed};
use crate::Real;

verus! {

/// Error reply of an export endpoint.
#[derive(Debug, Clone)]
pub struct ExportError {
    pub error: String,
}

/// The clock used to stamp exports.
#[derive(Debug, Clone, Copy)]
pub struct Utc;

/// A point in time, as shown in export headers.
#[derive(Debug, Clone, Copy)]
pub struct DateTime;

impl Utc {
    /// The current time.
    pub fn now() -> (d: DateTime) {
        DateTime
    }
}

/// The fixed text that stands for every time stamp.
pub open spec fn fixed_stamp() -> Seq<char> {
    "2024-01-01T00:00:00"@
}

impl DateTime {
    /// The time in the given format; every time reads `2024-01-01T00:00:00`.
    pub fn format(&self, fmt: &str) -> (s: String)
        ensures
            s@ == fixed_stamp(),
    {
        String::from_str("2024-01-01T00:00:00")
    }
}

/// The STEP file served for an export: an empty data section with a header
/// naming the file and its time stamp.
pub open spec fn step_export_text(stamp: Seq<char>) -> Seq<char> {
    "ISO-10303-21;\nHEADER;\nFILE_DESCRIPTION(('rCAD Export'),'2;1');\nFILE_NAME('export.step','"@ + stamp
        + "',(''),(''),'rCAD','','');\nFILE_SCHEMA(('AUTOMOTIVE_DESIGN'));\nENDSEC;\nDATA;\nENDSEC;\nEND-ISO-10303-21;"@
}

/// The STEP file served for an export.
pub fn step_export_content() -> (s: String)
    ensures
        s@ == step_export_text(fixed_stamp()),
{
    let stamp = Utc::now().format("%Y-%m-%dT%H:%M:%S");
    let head = concat(
        "ISO-10303-21;\nHEADER;\nFILE_DESCRIPTION(('rCAD Export'),'2;1');\nFILE_NAME('export.step','",
        stamp.as_str(),
    );
    concat(
        head.as_str(),
        "',(''),(''),'rCAD','','');\nFILE_SCHEMA(('AUTOMOTIVE_DESIGN'));\nENDSEC;\nDATA;\nENDSEC;\nEND-ISO-10303-21;",
    )
}

/// The IGES file served for an export.
pub open spec fn iges_export_text() -> Seq<char> {
    "                                                                        S      1\n1H,,1H;,7Hexport,11Hexport.igs;                                          G      1\n                                                                        D      1\n                                                                        P      1\nS      1G      1D      1P      1                                        T      1\n"@
}

/// The IGES file served for an export, and written by the B-Rep service.
pub fn generate_iges_placeholder() -> (s: String)
    ensures
        s@ == iges_export_text(),
{
    String::from_str(
        "                                                                        S      1\n1H,,1H;,7Hexport,11Hexport.igs;                                          G      1\n                                                                        D      1\n                                                                        P      1\nS      1G      1D      1P      1                                        T      1\n",
    )
}

/// The STEP file written by the B-Rep service.
pub fn generate_step_placeholder() -> (s: String)
    ensures
        s@ == step_export_text(fixed_stamp()),
{
    let head = concat(
        "ISO-10303-21;\nHEADER;\nFILE_DESCRIPTION(('rCAD Export'),'2;1');\nFILE_NAME('export.step','",
        "2024-01-01T00:00:00",
    );
    concat(
        head.as_str(),
        "',(''),(''),'rCAD','','');\nFILE_SCHEMA(('AUTOMOTIVE_DESIGN'));\nENDSEC;\nDATA;\nENDSEC;\nEND-ISO-10303-21;",
    )
}

/// The STL file served for an export: binary, an 80-byte zero header and a
/// zero triangle count; or ASCII, an empty solid.
pub fn stl_export_content(binary: bool) -> (r: Vec<u8>)
    ensures
        binary ==> r@ == Seq::new(84, |i: int| 0u8),
        !binary ==> r@ == "solid rcad_export\nendsolid rcad_export\n"@.map_values(|c: char| c as u8),
{
    if binary {
        let mut data: Vec<u8> = Vec::new();
        let mut i: usize = 0;
        while i < 84
            invariant
                i <= 84,
                data@ == Seq::new(i as nat, |k: int| 0u8),
            decreases 84 - i,
        {
            data.push(0u8);
            assert(data@ =~= Seq::new((i + 1) as nat, |k: int| 0u8));
            i = i + 1;
        }
        data
    } else {
        let text = "solid rcad_export\nendsolid rcad_export\n";
        let n = text.unicode_len();
        let mut data: Vec<u8> = Vec::new();
        let mut i: usize = 0;
        proof {
            reveal_strlit("solid rcad_export\nendsolid rcad_export\n");
        }
        while i < n
            invariant
                n == text@.len(),
                text@ == "solid rcad_export\nendsolid rcad_export\n"@,
                i <= n,
                data@ == text@.take(i as int).map_values(|c: char| c as u8),
                forall|k: int| 0 <= k < n ==> (text@[k] as u32) < 128,
            decreases n - i,
        {
            let c = text.get_char(i);
            data.push(c as u8);
            assert(text@.take(i + 1).map_values(|c: char| c as u8) =~= text@.take(i as int).map_values(
                |c: char| c as u8,
            ).push(c as u8));
            i = i + 1;
        }
        assert(text@.take(n as int) =~= text@);
        data
    }
}

/// The glTF file served for an export: an asset with an empty scene.
pub open spec fn gltf_export_text() -> Seq<char> {
    "{\n  \"asset\": {\n    \"version\": \"2.0\",\n    \"generator\": \"rCAD\"\n  },\n  \"scenes\": [{\"nodes\": []}],\n  \"scene\": 0\n}"@
}

/// The glTF file served for an export.
pub fn gltf_export_content() -> (s: &'static str)
    ensures
        s@ == gltf_export_text(),
{
    "{\n  \"asset\": {\n    \"version\": \"2.0\",\n    \"generator\": \"rCAD\"\n  },\n  \"scenes\": [{\"nodes\": []}],\n  \"scene\": 0\n}"
}

/// The USD file served for an export: a stage whose root prim is empty.
pub open spec fn usd_export_text() -> Seq<char> {
    "#usda 1.0\n(\n    defaultPrim = \"Root\"\n    metersPerUnit = 0.001\n    upAxis = \"Y\"\n)\n\ndef Xform \"Root\"\n{\n}\n"@
}

/// The USD file served for an export.
pub fn usd_export_content() -> (s: &'static str)
    ensures
        s@ == usd_export_text(),
{
    "#usda 1.0\n(\n    defaultPrim = \"Root\"\n    metersPerUnit = 0.001\n    upAxis = \"Y\"\n)\n\ndef Xform \"Root\"\n{\n}\n"
}

/// The content type of an STL export.
pub fn stl_content_type(binary: bool) -> (r: &'static str)
    ensures
        binary ==> r@ == "application/octet-stream"@,
        !binary ==> r@ == "text/plain"@,
{
    if binary {
        "application/octet-stream"
    } else {
        "text/plain"
    }
}

/// Errors of the B-Rep service.
#[derive(Debug)]
pub enum OcctError {
    ParseError(String),
    ExportError(String),
    InvalidGeometry(String),
    Io(std::io::Error),
}

/// A face of a body.
#[derive(Debug, Clone)]
pub struct FaceData {
    pub id: String,
    pub surface_type: String,
}

/// An edge of a body.
#[derive(Debug, Clone)]
pub struct EdgeData {
    pub id: String,
    pub curve_type: String,
}

/// A vertex of a body.
#[derive(Debug, Clone)]
pub struct VertexData {
    pub id: String,
    pub position: [Real; 3],
}

/// A solid body.
#[derive(Debug, Clone)]
pub struct BodyData {
    pub id: String,
    pub faces: Vec<FaceData>,
    pub edges: Vec<EdgeData>,
    pub vertices: Vec<VertexData>,
}

/// A node of an assembly tree.
#[derive(Debug)]
pub struct AssemblyNode {
    pub name: String,
    pub transform: [[Real; 4]; 4],
    pub body_ids: Vec<String>,
    pub children: Vec<AssemblyNode>,
}

/// The result of importing geometry.
#[derive(Debug)]
pub struct ImportedGeometry {
    pub id: String,
    pub bodies: Vec<BodyData>,
    pub assembly_structure: Option<AssemblyNode>,
}

/// Geometry to export.
#[derive(Debug, Clone)]
pub struct GeometryData {
    pub bodies: Vec<BodyData>,
}

/// A tessellated body; coordinates are 32-bit float bit patterns.
#[derive(Debug, Clone)]
pub struct TessellatedMesh {
    pub positions: Vec<u32>,
    pub normals: Vec<u32>,
    pub indices: Vec<u32>,
}

/// Whether `b` is a new body without topology.
pub open spec fn is_empty_body(b: BodyData) -> bool {
    &&& is_uuid_text(b.id@)
    &&& b.faces@.len() == 0
    &&& b.edges@.len() == 0
    &&& b.vertices@.len() == 0
}

/// The B-Rep geometry service.
#[derive(Debug, Clone, Copy)]
pub struct OcctService {}

impl OcctService {
    /// A new service.
    pub fn new() -> (s: OcctService) {
        OcctService {}
    }

    /// Geometry read from STEP text: a new identifier and no bodies yet.
    pub fn import_step_text(&self, content: &str) -> (r: Result<ImportedGeometry, OcctError>)
        ensures
            r is Ok && is_uuid_text(r->Ok_0.id@) && r->Ok_0.bodies@.len() == 0 && r->Ok_0.assembly_structure is None,
    {
        Ok(ImportedGeometry { id: new_uuid_text(), bodies: Vec::new(), assembly_structure: None })
    }

    /// Geometry read from IGES text: a new identifier and no bodies yet.
    pub fn import_iges_text(&self, content: &str) -> (r: Result<ImportedGeometry, OcctError>)
        ensures
            r is Ok && is_uuid_text(r->Ok_0.id@) && r->Ok_0.bodies@.len() == 0 && r->Ok_0.assembly_structure is None,
    {
        Ok(ImportedGeometry { id: new_uuid_text(), bodies: Vec::new(), assembly_structure: None })
    }

    /// The union of two bodies: a new empty body.
    pub fn boolean_union(&self, body1: &BodyData, body2: &BodyData) -> (r: Result<BodyData, OcctError>)
        ensures
            r is Ok && is_empty_body(r->Ok_0),
    {
        Ok(new_body())
    }

    /// The difference of two bodies: a new empty body.
    pub fn boolean_subtract(&self, body1: &BodyData, body2: &BodyData) -> (r: Result<BodyData, OcctError>)
        ensures
            r is Ok && is_empty_body(r->Ok_0),
    {
        Ok(new_body())
    }

    /// The intersection of two bodies: a new empty body.
    pub fn boolean_intersect(&self, body1: &BodyData, body2: &BodyData) -> (r: Result<BodyData, OcctError>)
        ensures
            r is Ok && is_empty_body(r->Ok_0),
    {
        Ok(new_body())
    }

    /// The mesh of a body at a quality given by its 32-bit float bit pattern: empty.
    pub fn tessellate(&self, body: &BodyData, quality_bits: u32) -> (r: Result<TessellatedMesh, OcctError>)
        ensures
            r is Ok && r->Ok_0.positions@.len() == 0 && r->Ok_0.normals@.len() == 0 && r->Ok_0.indices@.len() == 0,
    {
        Ok(TessellatedMesh { positions: Vec::new(), normals: Vec::new(), indices: Vec::new() })
    }
}

fn new_body() -> (b: BodyData)
    ensures
        is_empty_body(b),
{
    BodyData { id: new_uuid_text(), faces: Vec::new(), edges: Vec::new(), vertices: Vec::new() }
}

/// Request to connect to Nucleus.
#[derive(Debug, Clone)]
pub struct ConnectRequest {
    pub nucleus_url: String,
    pub username: Option<String>,
    pub api_key: Option<String>,
}

/// Reply to a connect or disconnect request.
#[derive(Debug, Clone)]
pub struct ConnectResponse {
    pub success: bool,
    pub message: String,
    pub session_id: Option<String>,
}

/// Request to upload geometry to Nucleus.
#[derive(Debug, Clone)]
pub struct UploadRequest {
    pub geometry_id: String,
    /// Destination path on Nucleus.
    pub nucleus_path: String,
    pub session_id: String,
}

/// Reply to an upload request.
#[derive(Debug, Clone)]
pub struct UploadResponse {
    pub success: bool,
    pub message: String,
    pub url: Option<String>,
}

/// Request to start or stop live sync.
#[derive(Debug, Clone)]
pub struct LiveSyncRequest {
    pub session_id: String,
    pub nucleus_path: String,
}

/// Reply to a live-sync request.
#[derive(Debug, Clone)]
pub struct LiveSyncResponse {
    pub success: bool,
    pub message: String,
    pub channel_id: Option<String>,
}

/// The reply to a connect request: connected, under a new session.
pub fn connect_reply(request: &ConnectRequest) -> (r: ConnectResponse)
    ensures
        r.success,
        r.message@ == "Connected to Omniverse"@,
        r.session_id matches Some(s) && is_uuid_text(s@),
{
    ConnectResponse {
        success: true,
        message: String::from_str("Connected to Omniverse"),
        session_id: Some(new_uuid_text()),
    }
}

/// The reply to a disconnect request.
pub fn disconnect_reply(session_id: &str) -> (r: ConnectResponse)
    ensures
        r.success,
        r.message@ == "Disconnected from Omniverse"@,
        r.session_id is None,
{
    ConnectResponse { success: true, message: String::from_str("Disconnected from Omniverse"), session_id: None }
}

/// The reply to an upload request: the URL of the path on the local server.
pub fn upload_reply(request: &UploadRequest) -> (r: UploadResponse)
    ensures
        r.success,
        r.message@ == "Uploaded to Nucleus"@,
        r.url matches Some(u) && u@ == "omniverse://localhost"@ + request.nucleus_path@,
{
    UploadResponse {
        success: true,
        message: String::from_str("Uploaded to Nucleus"),
        url: Some(concat("omniverse://localhost", request.nucleus_path.as_str())),
    }
}

/// The reply to a request to start live sync: a new channel.
pub fn start_live_sync_reply(request: &LiveSyncRequest) -> (r: LiveSyncResponse)
    ensures
        r.success,
        r.message@ == "Live sync started"@,
        r.channel_id matches Some(c) && is_uuid_text(c@),
{
    LiveSyncResponse {
        success: true,
        message: String::from_str("Live sync started"),
        channel_id: Some(new_uuid_text()),
    }
}

/// The reply to a request to stop live sync.
pub fn stop_live_sync_reply(request: &LiveSyncRequest) -> (r: LiveSyncResponse)
    ensures
        r.success,
        r.message@ == "Live sync stopped"@,
        r.channel_id is None,
{
    LiveSyncResponse { success: true, message: String::from_str("Live sync stopped"), channel_id: None }
}

/// Request to generate a model from a text prompt.
#[derive(Debug, Clone)]
pub struct GenerateRequest {
    prompt: String,
}

impl GenerateRequest {
    /// A request for `prompt`.
    pub fn new(prompt: &str) -> (r: GenerateRequest)
        ensures
            r.spec_prompt() == prompt@,
    {
        GenerateRequest { prompt: String::from_str(prompt) }
    }

    /// The prompt as given.
    pub closed spec fn spec_prompt(&self) -> Seq<char> {
        self.prompt@
    }

    /// The prompt without surrounding white space; a blank prompt is refused
    /// with "prompt is required".
    pub fn checked_prompt(&self) -> (r: Result<String, String>)
        ensures
            trimmed(self.spec_prompt()).len() == 0 ==> r is Err && r->Err_0@ == "prompt is required"@,
            trimmed(self.spec_prompt()).len() > 0 ==> r is Ok && r->Ok_0@ == trimmed(self.spec_prompt()),
    {
        let p = trim(self.prompt.as_str());
        if p.unicode_len() == 0 {
            Err(String::from_str("prompt is required"))
        } else {
            Ok(p)
        }
    }
}

/// The open Nucleus sessions of the server, by session identifier.
#[derive(Debug)]
pub struct NucleusService {
    connections: ParamMap<OmniverseConnector>,
    default_config: OmniverseConfig,
}

impl NucleusService {
    /// The sessions, by identifier.
    pub closed spec fn spec_sessions(&self) -> Map<Seq<char>, OmniverseConnector> {
        self.connections@
    }

    /// A service with no session.
    pub fn new() -> (s: NucleusService)
        ensures
            s.spec_sessions() == Map::<Seq<char>, OmniverseConnector>::empty(),
    {
        NucleusService { connections: ParamMap::new(), default_config: OmniverseConfig::default() }
    }

    /// Connects with `config` and records the connection under its session
    /// identifier; fails as the connection fails, that is when the server
    /// address does not start with `omniverse://`.
    pub fn connect(&mut self, config: OmniverseConfig) -> (r: Result<String, OmniverseError>)
        ensures
            r is Ok <==> has_prefix(config.nucleus_url@, "omniverse://"@),
            r is Err ==> (r->Err_0 matches OmniverseError::ConnectionFailed(m) && m@ == invalid_url_message()),
            r is Err ==> final(self).spec_sessions() == old(self).spec_sessions(),
            r is Ok ==> is_uuid_text(r->Ok_0@) && final(self).spec_sessions().contains_key(r->Ok_0@)
                && final(self).spec_sessions()[r->Ok_0@].spec_state() == ConnectionState::Connected
                && final(self).spec_sessions()[r->Ok_0@].spec_config() == config
                && final(self).spec_sessions()[r->Ok_0@].spec_session() == Some(r->Ok_0@)
                && final(self).spec_sessions().remove(r->Ok_0@) == old(self).spec_sessions().remove(r->Ok_0@),
    {
        let mut connector = OmniverseConnector::new(config);
        match connector.connect() {
            Ok(()) => {},
            Err(e) => return Err(e),
        }
        let session_id = match connector.session_id() {
            Some(s) => String::from_str(s),
            None => new_uuid_text(),
        };
        self.connections.insert(session_id.as_str(), connector);
        proof {
            assert(self.connections@.remove(session_id@) =~= old(self).connections@.remove(session_id@));
        }
        Ok(session_id)
    }

    /// Disconnects and forgets a session; an unknown session is ignored.
    pub fn disconnect(&mut self, session_id: &str) -> (r: Result<(), OmniverseError>)
        ensures
            r is Ok,
            final(self).spec_sessions() == old(self).spec_sessions().remove(session_id@),
    {
        match self.connections.remove(session_id) {
            Some(mut connector) => {
                let _ = connector.disconnect();
            },
            None => {},
        }
        Ok(())
    }

    /// A connector by session identifier; connectors are not handed out.
    pub fn get_connector(&self, session_id: &str) -> (r: Option<OmniverseConnector>)
        ensures
            r is None,
    {
        None
    }

    /// Whether a session is open.
    pub fn session_exists(&self, session_id: &str) -> (b: bool)
        ensures
            b == self.spec_sessions().contains_key(session_id@),
    {
        self.connections.contains(session_id)
    }

    /// Number of open sessions.
    pub fn session_count(&self) -> (n: usize)
        ensures
            n == self.spec_sessions().len(),
    {
        self.connections.len()
    }

    /// Uploads through a session; fails for an unknown session.
    pub fn upload(&self, session_id: &str, content: &[u8], nucleus_path: &str) -> (r: Result<String, OmniverseError>)
        ensures
            !self.spec_sessions().contains_key(session_id@) ==> r is Err && (r->Err_0 matches OmniverseError::ConnectionFailed(
                m,
            ) && m@ == "Session not found"@),
            self.spec_sessions().contains_key(session_id@) ==> {
                let c = self.spec_sessions()[session_id@];
                &&& c.spec_state() == ConnectionState::Connected ==> r is Ok && r->Ok_0@ == c.spec_config().nucleus_url@
                    + nucleus_path@
                &&& c.spec_state() != ConnectionState::Connected ==> r is Err && not_connected_error(r->Err_0)
            },
    {
        match self.connections.get(session_id) {
            Some(connector) => connector.upload_usd_content(content, nucleus_path),
            None => Err(OmniverseError::ConnectionFailed(String::from_str("Session not found"))),
        }
    }

    /// Disconnects and forgets every session.
    pub fn disconnect_all(&mut self) -> (r: Result<(), OmniverseError>)
        ensures
            r is Ok,
            final(self).spec_sessions() == Map::<Seq<char>, OmniverseConnector>::empty(),
    {
        let names = self.connections.names();
        let mut i: usize = 0;
        while i < names.len()
            invariant
                i <= names@.len(),
                forall|k: Seq<char>| #[trigger] self.connections@.contains_key(k) ==> exists|j: int| i <= j < names@.len()
                    && names@[j]@ == k,
            decreases names@.len() - i,
        {
            match self.connections.remove(names[i].as_str()) {
                Some(mut connector) => {
                    let _ = connector.disconnect();
                },
                None => {},
            }
            proof {
                assert forall|k: Seq<char>| #[trigger] self.connections@.contains_key(k) implies exists|j: int| i + 1 <= j < names@.len()
                    && names@[j]@ == k by {
                    let j = choose|j: int| i <= j < names@.len() && names@[j]@ == k;
                    assert(j != i);
                }
            }
            i = i + 1;
        }
        assert(self.connections@ =~= Map::<Seq<char>, OmniverseConnector>::empty());
        Ok(())
    }
}

/// The name of an uploaded file as the upload endpoint sees it: lowercase,
/// and empty when the form gives none.
pub open spec fn upload_name(file_name: Option<&str>) -> Seq<char> {
    match file_name {
        Some(f) => lowercase_of(f@),
        None => Seq::empty(),
    }
}

/// Decides what the generic upload does with a file, by the extension of its
/// lowercased name: a STEP file (`.step`, `.stp`) is imported; any other is
/// refused with a message that names it.
pub fn upload_route(file_name: Option<&str>) -> (r: Result<(), String>)
    ensures
        (has_suffix(upload_name(file_name), ".step"@) || has_suffix(upload_name(file_name), ".stp"@)) ==> r is Ok,
        !(has_suffix(upload_name(file_name), ".step"@) || has_suffix(upload_name(file_name), ".stp"@)) ==> (r matches Err(
            m,
        ) && m@ == "Server import not supported for '"@ + upload_name(file_name)
            + "' (use STEP, or import STL/OBJ client-side)"@),
{
    let name = match file_name {
        Some(f) => to_lowercase(f),
        None => String::new(),
    };
    if ends_with(name.as_str(), ".step") || ends_with(name.as_str(), ".stp") {
        return Ok(());
    }
    let head = concat("Server import not supported for '", name.as_str());
    Err(concat(head.as_str(), "' (use STEP, or import STL/OBJ client-side)"))
}

} // verus!
