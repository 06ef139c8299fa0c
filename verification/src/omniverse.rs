//! Omniverse Nucleus: configuration, the connector's state, live-sync
//! bookkeeping, and the client-side records of a Nucleus server.
use vstd::prelude::*;
use crate::param_map::ParamMap;
use crate::ids::{hyphenated_text, is_v4_uuid, new_uuid_text};
use crate::text::{chars_of, concat, has_prefix, split_chars, split_on, starts_with, string_from_chars};

verus! {

/// Errors of the Omniverse connection.
#[derive(Debug)]
pub enum OmniverseError {
    ConnectionFailed(String),
    AuthenticationFailed(String),
    NucleusError(String),
    UsdError(String),
    SyncError(String),
    Timeout,
    Io(std::io::Error),
    Http(String),
}

/// Connection settings.
#[derive(Debug, Clone)]
pub struct OmniverseConfig {
    /// Nucleus server URL, such as `omniverse://localhost/`.
    pub nucleus_url: String,
    pub username: String,
    /// API key or token.
    pub api_key: String,
    pub timeout_secs: u64,
    /// How often a failed operation is retried.
    pub retry_count: u32,
    pub enable_live_sync: bool,
}

/// A copy of a string.
fn copy_string(s: &String) -> (r: String)
    ensures
        r@ == s@,
{
    s.clone()
}


impl Default for OmniverseConfig {
    /// The local server, no credentials, 30 s timeout, 3 retries, live sync on.
    fn default() -> (c: OmniverseConfig)
        ensures
            c.nucleus_url@ == "omniverse://localhost/"@,
            c.username@ == Seq::<char>::empty(),
            c.api_key@ == Seq::<char>::empty(),
            c.timeout_secs == 30,
            c.retry_count == 3,
            c.enable_live_sync,
    {
        OmniverseConfig {
            nucleus_url: String::from_str("omniverse://localhost/"),
            username: String::new(),
            api_key: String::new(),
            timeout_secs: 30,
            retry_count: 3,
            enable_live_sync: true,
        }
    }
}

impl OmniverseConfig {

    /// The default settings for the server at `nucleus_url`.
    pub fn new(nucleus_url: &str) -> (c: OmniverseConfig)
        ensures
            c.nucleus_url@ == nucleus_url@,
            c.username@ == Seq::<char>::empty(),
            c.api_key@ == Seq::<char>::empty(),
            c.timeout_secs == 30,
            c.retry_count == 3,
            c.enable_live_sync,
    {
        let mut c = OmniverseConfig::default();
        c.nucleus_url = String::from_str(nucleus_url);
        c
    }

    /// The same settings with the given credentials.
    pub fn with_auth(self, username: &str, api_key: &str) -> (c: OmniverseConfig)
        ensures
            c.username@ == username@,
            c.api_key@ == api_key@,
            c.nucleus_url == self.nucleus_url,
            c.timeout_secs == self.timeout_secs,
            c.retry_count == self.retry_count,
            c.enable_live_sync == self.enable_live_sync,
    {
        let mut c = self;
        c.username = String::from_str(username);
        c.api_key = String::from_str(api_key);
        c
    }
}

/// State of the connection to Nucleus.
#[derive(Debug, Clone, Copy, PartialEq, Eq, Structural)]
pub enum ConnectionState {
    Disconnected,
    Connecting,
    Connected,
    Error,
}

/// An entry of a Nucleus directory listing.
#[derive(Debug, Clone)]
pub struct NucleusEntry {
    pub name: String,
    /// Full path on Nucleus.
    pub path: String,
    pub is_directory: bool,
    /// Size in bytes; 0 for directories.
    pub size: u64,
    /// Last modification time.
    pub modified: u64,
}

/// Whether `s` is the text of a random UUID.
pub open spec fn is_uuid_text(s: Seq<char>) -> bool {
    exists|bits: u128| is_v4_uuid(bits) && s == hyphenated_text(bits)
}

/// Whether `e` is the error of an operation attempted while not connected.
pub open spec fn not_connected_error(e: OmniverseError) -> bool {
    e matches OmniverseError::ConnectionFailed(m) && m@ == not_connected_message()
}

/// The connector to an Omniverse Nucleus server.
#[derive(Debug)]
pub struct OmniverseConnector {
    config: OmniverseConfig,
    state: ConnectionState,
    session_id: Option<String>,
}

/// The message of a connection refused for a malformed URL.
pub open spec fn invalid_url_message() -> Seq<char> {
    "Invalid Nucleus URL format"@
}

/// The message of an operation attempted while not connected.
pub open spec fn not_connected_message() -> Seq<char> {
    "Not connected to Nucleus"@
}

impl OmniverseConnector {
    /// The settings of the connector.
    pub closed spec fn spec_config(&self) -> OmniverseConfig {
        self.config
    }

    /// The connection state.
    pub closed spec fn spec_state(&self) -> ConnectionState {
        self.state
    }

    /// The session identifier, while connected.
    pub closed spec fn spec_session(&self) -> Option<Seq<char>> {
        match self.session_id {
            Some(s) => Some(s@),
            None => None,
        }
    }

    /// A session identifier is held exactly while connected, and a connected
    /// connector has an `omniverse://` address.
    pub open spec fn session_follows_state(&self) -> bool {
        &&& (self.spec_session() is Some <==> self.spec_state() == ConnectionState::Connected)
        &&& (self.spec_state() == ConnectionState::Connected ==> has_prefix(self.spec_config().nucleus_url@, "omniverse://"@))
    }

    /// A disconnected connector with the given settings.
    pub fn new(config: OmniverseConfig) -> (c: OmniverseConnector)
        ensures
            c.session_follows_state(),
            c.spec_config() == config,
            c.spec_state() == ConnectionState::Disconnected,
            c.spec_session() is None,
    {
        OmniverseConnector { config, state: ConnectionState::Disconnected, session_id: None }
    }

    /// The connection state.
    pub fn state(&self) -> (s: ConnectionState)
        ensures
            s == self.spec_state(),
    {
        self.state
    }

    /// Whether the connector is connected.
    pub fn is_connected(&self) -> (b: bool)
        ensures
            b == (self.spec_state() == ConnectionState::Connected),
    {
        self.state == ConnectionState::Connected
    }

    /// Connects: a URL that does not start with `omniverse://` puts the
    /// connector in the error state; otherwise it is connected under a new
    /// random session identifier.
    pub fn connect(&mut self) -> (r: Result<(), OmniverseError>)
        ensures
            (final(self).spec_state(), final(self).spec_session() is Some) == connector_after(
                (old(self).spec_state(), old(self).spec_session() is Some),
                has_prefix(old(self).spec_config().nucleus_url@, "omniverse://"@),
                ConnectorOp::Connect,
            ),
            old(self).session_follows_state() ==> final(self).session_follows_state(),
            final(self).spec_config() == old(self).spec_config(),
            !has_prefix(old(self).spec_config().nucleus_url@, "omniverse://"@) ==> {
                &&& r is Err
                &&& r->Err_0 matches OmniverseError::ConnectionFailed(m) && m@ == invalid_url_message()
                &&& final(self).spec_state() == ConnectionState::Error
                &&& final(self).spec_session() == old(self).spec_session()
            },
            has_prefix(old(self).spec_config().nucleus_url@, "omniverse://"@) ==> {
                &&& r is Ok
                &&& final(self).spec_state() == ConnectionState::Connected
                &&& final(self).spec_session() matches Some(s) && is_uuid_text(s)
            },
    {
        self.state = ConnectionState::Connecting;
        if !starts_with(self.config.nucleus_url.as_str(), "omniverse://") {
            self.state = ConnectionState::Error;
            return Err(OmniverseError::ConnectionFailed(String::from_str("Invalid Nucleus URL format")));
        }
        self.session_id = Some(new_uuid_text());
        self.state = ConnectionState::Connected;
        Ok(())
    }

    /// Disconnects, when connected; otherwise nothing changes.
    pub fn disconnect(&mut self) -> (r: Result<(), OmniverseError>)
        ensures
            (final(self).spec_state(), final(self).spec_session() is Some) == connector_after(
                (old(self).spec_state(), old(self).spec_session() is Some),
                has_prefix(old(self).spec_config().nucleus_url@, "omniverse://"@),
                ConnectorOp::Disconnect,
            ),
            old(self).session_follows_state() ==> final(self).session_follows_state(),
            r is Ok,
            final(self).spec_config() == old(self).spec_config(),
            old(self).spec_state() == ConnectionState::Connected ==> final(self).spec_state()
                == ConnectionState::Disconnected && final(self).spec_session() is None,
            old(self).spec_state() != ConnectionState::Connected ==> final(self).spec_state()
                == old(self).spec_state() && final(self).spec_session() == old(self).spec_session(),
    {
        if self.state != ConnectionState::Connected {
            return Ok(());
        }
        self.session_id = None;
        self.state = ConnectionState::Disconnected;
        Ok(())
    }

    /// Fails unless connected.
    pub fn ensure_connected(&self) -> (r: Result<(), OmniverseError>)
        ensures
            self.spec_state() == ConnectionState::Connected ==> r is Ok,
            self.spec_state() != ConnectionState::Connected ==> r is Err && not_connected_error(r->Err_0),
    {
        if self.state != ConnectionState::Connected {
            return Err(OmniverseError::ConnectionFailed(String::from_str("Not connected to Nucleus")));
        }
        Ok(())
    }

    /// Uploads USD content to `nucleus_path` and returns its URL: the server URL
    /// followed by the path.
    pub fn upload_usd_content(&self, content: &[u8], nucleus_path: &str) -> (r: Result<String, OmniverseError>)
        ensures
            self.spec_state() == ConnectionState::Connected ==> r is Ok && r->Ok_0@ == self.spec_config().nucleus_url@ + nucleus_path@,
            self.spec_state() != ConnectionState::Connected ==> r is Err && not_connected_error(r->Err_0),
    {
        match self.ensure_connected() {
            Ok(()) => {},
            Err(e) => return Err(e),
        }
        Ok(concat(self.config.nucleus_url.as_str(), nucleus_path))
    }

    /// Lists a Nucleus directory; the listing is empty.
    pub fn list_directory(&self, nucleus_path: &str) -> (r: Result<Vec<NucleusEntry>, OmniverseError>)
        ensures
            self.spec_state() == ConnectionState::Connected ==> r is Ok && r->Ok_0@.len() == 0,
            self.spec_state() != ConnectionState::Connected ==> r is Err && not_connected_error(r->Err_0),
    {
        match self.ensure_connected() {
            Ok(()) => {},
            Err(e) => return Err(e),
        }
        Ok(Vec::new())
    }

    /// Creates a directory on Nucleus.
    pub fn create_directory(&self, nucleus_path: &str) -> (r: Result<(), OmniverseError>)
        ensures
            self.spec_state() == ConnectionState::Connected ==> r is Ok,
            self.spec_state() != ConnectionState::Connected ==> r is Err && not_connected_error(r->Err_0),
    {
        self.ensure_connected()
    }

    /// Deletes a file or directory on Nucleus.
    pub fn delete(&self, nucleus_path: &str) -> (r: Result<(), OmniverseError>)
        ensures
            self.spec_state() == ConnectionState::Connected ==> r is Ok,
            self.spec_state() != ConnectionState::Connected ==> r is Err && not_connected_error(r->Err_0),
    {
        self.ensure_connected()
    }

    /// Whether a path exists on Nucleus; no path is reported to exist.
    pub fn path_exists(&self, nucleus_path: &str) -> (r: Result<bool, OmniverseError>)
        ensures
            self.spec_state() == ConnectionState::Connected ==> r == Ok::<bool, OmniverseError>(false),
            self.spec_state() != ConnectionState::Connected ==> r is Err && not_connected_error(r->Err_0),
    {
        match self.ensure_connected() {
            Ok(()) => Ok(false),
            Err(e) => Err(e),
        }
    }

    /// The session identifier, while connected.
    pub fn session_id(&self) -> (r: Option<&str>)
        ensures
            match self.spec_session() {
                Some(s) => r is Some && r->0@ == s,
                None => r is None,
            },
    {
        match &self.session_id {
            Some(s) => Some(s.as_str()),
            None => None,
        }
    }
}

/// State of a live-sync session.
#[derive(Debug, Clone, Copy, PartialEq, Eq, Structural)]
pub enum LiveSyncState {
    Idle,
    Syncing,
    Paused,
    Error,
}

/// Kind of a change to a USD prim.
#[derive(Debug, Clone, Copy, PartialEq, Eq, Structural)]
pub enum ChangeType {
    Created,
    Modified,
    Deleted,
    TransformChanged,
    MaterialChanged,
}

/// A change to synchronize.
#[derive(Debug)]
pub struct SyncChange {
    /// Path of the changed prim.
    pub prim_path: String,
    pub change_type: ChangeType,
    /// Serialized changed data.
    pub data: Vec<u8>,
    /// Time of the change, in seconds since the Unix epoch.
    pub timestamp: u64,
}

/// Whether `b` is a copy of `a`.
pub open spec fn same_change(a: SyncChange, b: SyncChange) -> bool {
    &&& a.prim_path@ == b.prim_path@
    &&& a.change_type == b.change_type
    &&& a.data@ == b.data@
    &&& a.timestamp == b.timestamp
}

impl Clone for SyncChange {
    fn clone(&self) -> (res: Self)
        ensures
            same_change(*self, res),
    {
        let data = self.data.clone();
        assert(data@ =~= self.data@);
        SyncChange {
            prim_path: self.prim_path.clone(),
            change_type: self.change_type,
            data,
            timestamp: self.timestamp,
        }
    }
}

/// The most changes that are kept pending; older ones are dropped first.
pub const MAX_PENDING_CHANGES: usize = 1000;

/// The pending changes after recording `c`: appended, and the oldest dropped
/// when there are more than `MAX_PENDING_CHANGES`.
pub open spec fn after_record(pending: Seq<SyncChange>, c: SyncChange) -> Seq<SyncChange> {
    let p = pending.push(c);
    if p.len() > MAX_PENDING_CHANGES {
        p.drop_first()
    } else {
        p
    }
}

/// Live-sync bookkeeping: the session state, its channel and the pending changes.
#[derive(Debug)]
pub struct LiveSyncManager {
    config: OmniverseConfig,
    state: LiveSyncState,
    channel_id: Option<String>,
    pending: Vec<SyncChange>,
    subscribers: ParamMap<()>,
}

/// The message of a refused live-sync request.
pub open spec fn sync_error(e: OmniverseError, msg: Seq<char>) -> bool {
    e matches OmniverseError::SyncError(m) && m@ == msg
}

impl LiveSyncManager {
    #[verifier::type_invariant]
    closed spec fn pending_bounded(&self) -> bool {
        self.pending@.len() <= MAX_PENDING_CHANGES
    }

    /// The settings the manager was made with.
    pub closed spec fn spec_config(&self) -> OmniverseConfig {
        self.config
    }

    /// The session state.
    pub closed spec fn spec_state(&self) -> LiveSyncState {
        self.state
    }

    /// The channel of the session, while one is open.
    pub closed spec fn spec_channel(&self) -> Option<Seq<char>> {
        match self.channel_id {
            Some(s) => Some(s@),
            None => None,
        }
    }

    /// The pending changes, oldest first.
    pub closed spec fn spec_pending(&self) -> Seq<SyncChange> {
        self.pending@
    }

    /// The identifiers of the subscribers to the changes.
    pub closed spec fn spec_subscribers(&self) -> Set<Seq<char>> {
        self.subscribers@.dom()
    }

    /// Registers a subscriber to the changes; one with the same identifier is
    /// replaced.
    pub fn subscribe(&mut self, subscriber_id: &str)
        ensures
            final(self).spec_subscribers() == old(self).spec_subscribers().insert(subscriber_id@),
            final(self).spec_state() == old(self).spec_state(),
            final(self).spec_channel() == old(self).spec_channel(),
            final(self).spec_pending() == old(self).spec_pending(),
    {
        proof {
            use_type_invariant(&*self);
        }
        let mut subs: ParamMap<()> = ParamMap::new();
        std::mem::swap(&mut subs, &mut self.subscribers);
        subs.insert(subscriber_id, ());
        std::mem::swap(&mut subs, &mut self.subscribers);
        assert(self.subscribers@.dom() =~= old(self).subscribers@.dom().insert(subscriber_id@));
    }

    /// Removes a subscriber.
    pub fn unsubscribe(&mut self, subscriber_id: &str)
        ensures
            final(self).spec_subscribers() == old(self).spec_subscribers().remove(subscriber_id@),
            final(self).spec_state() == old(self).spec_state(),
            final(self).spec_channel() == old(self).spec_channel(),
            final(self).spec_pending() == old(self).spec_pending(),
    {
        proof {
            use_type_invariant(&*self);
        }
        let mut subs: ParamMap<()> = ParamMap::new();
        std::mem::swap(&mut subs, &mut self.subscribers);
        let _ = subs.remove(subscriber_id);
        std::mem::swap(&mut subs, &mut self.subscribers);
        assert(self.subscribers@.dom() =~= old(self).subscribers@.dom().remove(subscriber_id@));
    }

    /// The identifiers of the subscribers, each once.
    pub fn subscriber_ids(&self) -> (r: Vec<String>)
        ensures
            r@.len() == self.spec_subscribers().len(),
            forall|i: int| 0 <= i < r@.len() ==> self.spec_subscribers().contains(#[trigger] r@[i]@),
            forall|k: Seq<char>| self.spec_subscribers().contains(k) ==> exists|i: int| 0 <= i < r@.len() && r@[i]@ == k,
    {
        self.subscribers.names()
    }

    /// An idle manager with the given settings and no subscriber.
    pub fn new(config: OmniverseConfig) -> (m: LiveSyncManager)
        ensures
            m.spec_config() == config,
            m.spec_state() == LiveSyncState::Idle,
            m.spec_channel() is None,
            m.spec_pending().len() == 0,
            m.spec_subscribers() == Set::<Seq<char>>::empty(),
    {
        LiveSyncManager {
            config,
            state: LiveSyncState::Idle,
            channel_id: None,
            pending: Vec::new(),
            subscribers: ParamMap::new(),
        }
    }

    /// The session state.
    pub fn state(&self) -> (s: LiveSyncState)
        ensures
            s == self.spec_state(),
    {
        self.state
    }

    /// Starts a session on a new random channel and returns the channel;
    /// refused while already syncing.
    pub fn start(&mut self, nucleus_path: &str) -> (r: Result<String, OmniverseError>)
        ensures
            old(self).spec_state() == LiveSyncState::Syncing ==> r is Err && sync_error(r->Err_0, "Already syncing"@)
                && final(self).spec_state() == old(self).spec_state() && final(self).spec_channel() == old(self).spec_channel(),
            old(self).spec_state() != LiveSyncState::Syncing ==> r is Ok && final(self).spec_state() == LiveSyncState::Syncing
                && final(self).spec_channel() == Some(r->Ok_0@) && is_uuid_text(r->Ok_0@),
            final(self).spec_pending() == old(self).spec_pending(),
    {
        proof {
            use_type_invariant(&*self);
        }
        if self.state == LiveSyncState::Syncing {
            return Err(OmniverseError::SyncError(String::from_str("Already syncing")));
        }
        self.state = LiveSyncState::Syncing;
        let channel_id = new_uuid_text();
        self.channel_id = Some(channel_id.clone());
        Ok(channel_id)
    }

    /// Ends the session while syncing; otherwise nothing changes.
    pub fn stop(&mut self) -> (r: Result<(), OmniverseError>)
        ensures
            r is Ok,
            old(self).spec_state() == LiveSyncState::Syncing ==> final(self).spec_state() == LiveSyncState::Idle
                && final(self).spec_channel() is None,
            old(self).spec_state() != LiveSyncState::Syncing ==> final(self).spec_state() == old(self).spec_state()
                && final(self).spec_channel() == old(self).spec_channel(),
            final(self).spec_pending() == old(self).spec_pending(),
    {
        proof {
            use_type_invariant(&*self);
        }
        if self.state != LiveSyncState::Syncing {
            return Ok(());
        }
        self.channel_id = None;
        self.state = LiveSyncState::Idle;
        Ok(())
    }

    /// Pauses a running session; refused otherwise.
    pub fn pause(&mut self) -> (r: Result<(), OmniverseError>)
        ensures
            old(self).spec_state() == LiveSyncState::Syncing ==> r is Ok && final(self).spec_state()
                == LiveSyncState::Paused,
            old(self).spec_state() != LiveSyncState::Syncing ==> r is Err && sync_error(r->Err_0, "Not currently syncing"@)
                && final(self).spec_state() == old(self).spec_state(),
            final(self).spec_channel() == old(self).spec_channel(),
            final(self).spec_pending() == old(self).spec_pending(),
    {
        proof {
            use_type_invariant(&*self);
        }
        if self.state != LiveSyncState::Syncing {
            return Err(OmniverseError::SyncError(String::from_str("Not currently syncing")));
        }
        self.state = LiveSyncState::Paused;
        Ok(())
    }

    /// Resumes a paused session; refused otherwise.
    pub fn resume(&mut self) -> (r: Result<(), OmniverseError>)
        ensures
            old(self).spec_state() == LiveSyncState::Paused ==> r is Ok && final(self).spec_state()
                == LiveSyncState::Syncing,
            old(self).spec_state() != LiveSyncState::Paused ==> r is Err && sync_error(r->Err_0, "Not paused"@)
                && final(self).spec_state() == old(self).spec_state(),
            final(self).spec_channel() == old(self).spec_channel(),
            final(self).spec_pending() == old(self).spec_pending(),
    {
        proof {
            use_type_invariant(&*self);
        }
        if self.state != LiveSyncState::Paused {
            return Err(OmniverseError::SyncError(String::from_str("Not paused")));
        }
        self.state = LiveSyncState::Syncing;
        Ok(())
    }

    /// Whether a change may be submitted now: only while syncing.
    pub fn submit_change(&self, change: &SyncChange) -> (r: Result<(), OmniverseError>)
        ensures
            self.spec_state() == LiveSyncState::Syncing ==> r is Ok,
            self.spec_state() != LiveSyncState::Syncing ==> r is Err && sync_error(r->Err_0, "Not currently syncing"@),
    {
        if self.state != LiveSyncState::Syncing {
            return Err(OmniverseError::SyncError(String::from_str("Not currently syncing")));
        }
        Ok(())
    }

    /// Records a processed change among the pending ones, dropping the oldest
    /// beyond `MAX_PENDING_CHANGES`.
    pub fn record_change(&mut self, change: SyncChange)
        ensures
            final(self).spec_pending() == after_record(old(self).spec_pending(), change),
            final(self).spec_state() == old(self).spec_state(),
            final(self).spec_channel() == old(self).spec_channel(),
    {
        proof {
            use_type_invariant(&*self);
        }
        let mut pending: Vec<SyncChange> = Vec::new();
        std::mem::swap(&mut pending, &mut self.pending);
        pending.push(change);
        if pending.len() > MAX_PENDING_CHANGES {
            pending.remove(0);
        }
        assert(pending@ =~= after_record(old(self).spec_pending(), change));
        self.pending = pending;
    }

    /// The session ended because its change channel closed.
    pub fn channel_closed(&mut self)
        ensures
            final(self).spec_state() == LiveSyncState::Idle,
            final(self).spec_channel() == old(self).spec_channel(),
            final(self).spec_pending() == old(self).spec_pending(),
    {
        proof {
            use_type_invariant(&*self);
        }
        self.state = LiveSyncState::Idle;
    }

    /// Copies of the pending changes, oldest first.
    pub fn pending_changes(&self) -> (r: Vec<SyncChange>)
        ensures
            r@.len() == self.spec_pending().len(),
            r@.len() <= MAX_PENDING_CHANGES,
            forall|i: int| 0 <= i < r@.len() ==> same_change(self.spec_pending()[i], #[trigger] r@[i]),
    {
        proof {
            use_type_invariant(self);
        }
        let mut r: Vec<SyncChange> = Vec::new();
        let mut i: usize = 0;
        while i < self.pending.len()
            invariant
                i <= self.pending@.len(),
                r@.len() == i,
                forall|k: int| 0 <= k < i ==> same_change(self.pending@[k], #[trigger] r@[k]),
            decreases self.pending@.len() - i,
        {
            r.push(self.pending[i].clone());
            i = i + 1;
        }
        r
    }

    /// Drops every pending change.
    pub fn clear_pending(&mut self)
        ensures
            final(self).spec_pending().len() == 0,
            final(self).spec_state() == old(self).spec_state(),
            final(self).spec_channel() == old(self).spec_channel(),
    {
        let mut pending: Vec<SyncChange> = Vec::new();
        std::mem::swap(&mut pending, &mut self.pending);
        pending.clear();
        self.pending = pending;
    }

    /// The channel of the session, while one is open.
    pub fn channel_id(&self) -> (r: Option<&str>)
        ensures
            match self.spec_channel() {
                Some(s) => r is Some && r->0@ == s,
                None => r is None,
            },
    {
        match &self.channel_id {
            Some(s) => Some(s.as_str()),
            None => None,
        }
    }
}

/// However many changes are recorded, at most `MAX_PENDING_CHANGES` stay
/// pending, and the newest is always kept last.
pub proof fn law_pending_bounded(pending: Seq<SyncChange>, c: SyncChange)
    requires
        pending.len() <= MAX_PENDING_CHANGES,
    ensures
        after_record(pending, c).len() <= MAX_PENDING_CHANGES,
        after_record(pending, c).last() == c,
        pending.len() < MAX_PENDING_CHANGES ==> after_record(pending, c) == pending.push(c),
{
}

/// Builds a [`SyncChange`].
#[derive(Debug)]
pub struct SyncChangeBuilder {
    prim_path: String,
    change_type: ChangeType,
    data: Vec<u8>,
}

impl SyncChangeBuilder {
    /// The prim path of the change being built.
    pub closed spec fn spec_path(&self) -> Seq<char> {
        self.prim_path@
    }

    /// The kind of the change being built.
    pub closed spec fn spec_kind(&self) -> ChangeType {
        self.change_type
    }

    /// The data of the change being built.
    pub closed spec fn spec_data(&self) -> Seq<u8> {
        self.data@
    }

    /// A change of `change_type` to `prim_path`, with no data.
    pub fn new(prim_path: &str, change_type: ChangeType) -> (b: SyncChangeBuilder)
        ensures
            b.spec_path() == prim_path@,
            b.spec_kind() == change_type,
            b.spec_data().len() == 0,
    {
        SyncChangeBuilder { prim_path: String::from_str(prim_path), change_type, data: Vec::new() }
    }

    /// The same change carrying `data`.
    pub fn with_data(self, data: Vec<u8>) -> (b: SyncChangeBuilder)
        ensures
            b.spec_path() == self.spec_path(),
            b.spec_kind() == self.spec_kind(),
            b.spec_data() == data@,
    {
        let mut b = self;
        b.data = data;
        b
    }

    /// The change, stamped with the current time.
    pub fn build(self) -> (c: SyncChange)
        ensures
            c.prim_path@ == self.spec_path(),
            c.change_type == self.spec_kind(),
            c.data@ == self.spec_data(),
    {
        let timestamp = crate::clock::unix_timestamp();
        self.build_at(timestamp)
    }

    /// The change, stamped with the given time.
    pub fn build_at(self, timestamp: u64) -> (c: SyncChange)
        ensures
            c.prim_path@ == self.spec_path(),
            c.change_type == self.spec_kind(),
            c.data@ == self.spec_data(),
            c.timestamp == timestamp,
    {
        SyncChange { prim_path: self.prim_path, change_type: self.change_type, data: self.data, timestamp }
    }
}

/// Description of a Nucleus server.
#[derive(Debug)]
pub struct NucleusServer {
    pub url: String,
    pub name: String,
    pub version: String,
    /// Whether the server asks for credentials.
    pub requires_auth: bool,
    /// Features the server offers.
    pub features: Vec<String>,
}

/// Whether `b` is a copy of `a`.
pub open spec fn same_server(a: NucleusServer, b: NucleusServer) -> bool {
    &&& a.url@ == b.url@
    &&& a.name@ == b.name@
    &&& a.version@ == b.version@
    &&& a.requires_auth == b.requires_auth
    &&& a.features@.len() == b.features@.len()
    &&& forall|i: int| 0 <= i < a.features@.len() ==> a.features@[i]@ == #[trigger] b.features@[i]@
}

impl Clone for NucleusServer {
    fn clone(&self) -> (res: Self)
        ensures
            same_server(*self, res),
    {
        let mut features: Vec<String> = Vec::new();
        let mut i: usize = 0;
        while i < self.features.len()
            invariant
                i <= self.features@.len(),
                features@.len() == i,
                forall|k: int| 0 <= k < i ==> self.features@[k]@ == #[trigger] features@[k]@,
            decreases self.features@.len() - i,
        {
            features.push(self.features[i].clone());
            i = i + 1;
        }
        NucleusServer {
            url: self.url.clone(),
            name: self.name.clone(),
            version: self.version.clone(),
            requires_auth: self.requires_auth,
            features,
        }
    }
}

/// An authentication token.
#[derive(Debug, Clone)]
pub struct AuthToken {
    pub token: String,
    /// Expiry time, in seconds since the Unix epoch.
    pub expires_at: u64,
    pub refresh_token: Option<String>,
}

/// How long a token stays valid, in seconds.
pub const TOKEN_LIFETIME_SECS: u64 = 3600;

/// How long before expiry a token should be refreshed, in seconds.
pub const REFRESH_MARGIN_SECS: u64 = 300;

/// `a + b`, or `u64::MAX` when the sum does not fit.
pub open spec fn saturating_sum(a: u64, b: u64) -> u64 {
    if a + b > u64::MAX {
        u64::MAX
    } else {
        (a + b) as u64
    }
}

impl AuthToken {
    /// Whether the token has expired at time `now`.
    pub fn is_expired_at(&self, now: u64) -> (b: bool)
        ensures
            b == (now >= self.expires_at),
    {
        now >= self.expires_at
    }

    /// Whether the token is within `REFRESH_MARGIN_SECS` of its expiry at time `now`.
    pub fn needs_refresh_at(&self, now: u64) -> (b: bool)
        ensures
            b == (saturating_sum(now, REFRESH_MARGIN_SECS) >= self.expires_at),
    {
        now.saturating_add(REFRESH_MARGIN_SECS) >= self.expires_at
    }

    /// Whether the token has expired by the system clock: the answer of
    /// `is_expired_at` for the time the clock reads.
    pub fn is_expired(&self) -> (b: bool)
        ensures
            exists|now: u64| b == #[trigger] expired_by(self.expires_at, now),
    {
        let now = chrono_timestamp();
        let b = self.is_expired_at(now);
        assert(b == expired_by(self.expires_at, now));
        b
    }

    /// Whether the token should be refreshed by the system clock: the answer of
    /// `needs_refresh_at` for the time the clock reads.
    pub fn needs_refresh(&self) -> (b: bool)
        ensures
            exists|now: u64| b == #[trigger] due_for_refresh(self.expires_at, now),
    {
        let now = chrono_timestamp();
        let b = self.needs_refresh_at(now);
        assert(b == due_for_refresh(self.expires_at, now));
        b
    }
}

/// A token that expires at `expires_at` has expired at time `now`.
pub open spec fn expired_by(expires_at: u64, now: u64) -> bool {
    now >= expires_at
}

/// A token that expires at `expires_at` is within `REFRESH_MARGIN_SECS` of its
/// expiry at time `now`.
pub open spec fn due_for_refresh(expires_at: u64, now: u64) -> bool {
    saturating_sum(now, REFRESH_MARGIN_SECS) >= expires_at
}

/// A token that needs no refresh has not expired either.
pub proof fn law_fresh_token_not_expired(expires_at: u64, now: u64)
    requires
        !(saturating_sum(now, REFRESH_MARGIN_SECS) >= expires_at),
    ensures
        !(now >= expires_at),
{
}

/// A saved version of a file.
#[derive(Debug, Clone)]
pub struct Checkpoint {
    pub id: String,
    pub path: String,
    pub comment: String,
    /// Creation time, in seconds since the Unix epoch.
    pub created_at: u64,
    pub created_by: String,
}

/// A lock on a file.
#[derive(Debug, Clone)]
pub struct FileLock {
    pub path: String,
    pub locked_by: String,
    /// Time the lock was taken, in seconds since the Unix epoch.
    pub locked_at: u64,
    pub lock_id: String,
}

/// Metadata of a file on Nucleus.
#[derive(Debug, Clone)]
pub struct FileMetadata {
    pub path: String,
    /// Size in bytes.
    pub size: u64,
    pub created_at: u64,
    pub modified_at: u64,
    pub created_by: String,
    pub modified_by: String,
    pub checksum: Option<String>,
}

/// Seconds since the Unix epoch by the system clock (0 before the epoch).
pub fn chrono_timestamp() -> (t: u64) {
    crate::clock::unix_timestamp()
}

/// The HTTP address of a Nucleus server: for `omniverse://host/...` it is
/// `http://host:3180`; other URLs have none.
pub open spec fn http_address(url: Seq<char>) -> Option<Seq<char>> {
    if has_prefix(url, "omniverse://"@) {
        let rest = url.skip(12);
        Some("http://"@ + split_on(rest, '/')[0] + ":3180"@)
    } else {
        None
    }
}

/// Whether `e` is a failed connection with message `msg`.
pub open spec fn failure_message(e: OmniverseError, msg: Seq<char>) -> bool {
    e matches OmniverseError::ConnectionFailed(m) && m@ == msg
}

/// Client-side state of the connection to a Nucleus server.
#[derive(Debug)]
pub struct NucleusClient {
    config: OmniverseConfig,
    server_info: Option<NucleusServer>,
}

impl NucleusClient {
    /// The settings of the client.
    pub closed spec fn spec_config(&self) -> OmniverseConfig {
        self.config
    }

    /// The server description, once fetched.
    pub closed spec fn spec_server_info(&self) -> Option<NucleusServer> {
        self.server_info
    }

    /// A client with the given settings and no server description yet.
    pub fn new(config: OmniverseConfig) -> (c: NucleusClient)
        ensures
            c.spec_config() == config,
            c.spec_server_info() is None,
    {
        NucleusClient { config, server_info: None }
    }

    /// The server description, once fetched.
    pub fn server_info(&self) -> (r: Option<&NucleusServer>)
        ensures
            r == match self.spec_server_info() {
                Some(s) => Some(&s),
                None => None::<&NucleusServer>,
            },
    {
        match &self.server_info {
            Some(s) => Some(s),
            None => None,
        }
    }

    /// The HTTP address of the server, for an `omniverse://` URL.
    pub fn nucleus_to_http(&self, url: &str) -> (r: Result<String, OmniverseError>)
        ensures
            match http_address(url@) {
                Some(a) => r is Ok && r->Ok_0@ == a,
                None => r is Err && failure_message(r->Err_0, "URL must start with omniverse://"@),
            },
    {
        if !starts_with(url, "omniverse://") {
            return Err(OmniverseError::ConnectionFailed(String::from_str("URL must start with omniverse://")));
        }
        let chars = chars_of(url);
        proof {
            reveal_strlit("omniverse://");
        }
        let mut rest: Vec<char> = Vec::new();
        let mut i: usize = 12;
        while i < chars.len()
            invariant
                12 <= i <= chars@.len(),
                rest@ == chars@.subrange(12, i as int),
            decreases chars@.len() - i,
        {
            rest.push(chars[i]);
            i = i + 1;
        }
        assert(rest@ =~= url@.skip(12));
        let pieces = split_chars(&rest, '/');
        proof {
            crate::text::lemma_split_on_nonempty(rest@, '/');
        }
        let host = string_from_chars(&pieces[0]);
        let with_host = concat("http://", host.as_str());
        Ok(concat(with_host.as_str(), ":3180"))
    }

    /// Describes the server; fails when its URL is not an `omniverse://` URL.
    pub fn get_server_info(&mut self) -> (r: Result<NucleusServer, OmniverseError>)
        ensures
            final(self).spec_config() == old(self).spec_config(),
            http_address(old(self).spec_config().nucleus_url@) is None ==> r is Err && final(self).spec_server_info()
                == old(self).spec_server_info(),
            http_address(old(self).spec_config().nucleus_url@) is Some ==> r is Ok && {
                let s = r->Ok_0;
                &&& s.url@ == old(self).spec_config().nucleus_url@
                &&& s.name@ == "Local Nucleus"@
                &&& s.version@ == "2023.2.0"@
                &&& s.requires_auth == (old(self).spec_config().username@.len() > 0)
                &&& s.features@.len() == 3
                &&& s.features@[0]@ == "live-sync"@
                &&& s.features@[1]@ == "checkpoints"@
                &&& s.features@[2]@ == "collaboration"@
                &&& final(self).spec_server_info() matches Some(k) && same_server(s, k)
            },
    {
        match self.nucleus_to_http(self.config.nucleus_url.as_str()) {
            Ok(_) => {},
            Err(e) => return Err(e),
        }
        let mut features: Vec<String> = Vec::new();
        features.push(String::from_str("live-sync"));
        features.push(String::from_str("checkpoints"));
        features.push(String::from_str("collaboration"));
        let info = NucleusServer {
            url: self.config.nucleus_url.clone(),
            name: String::from_str("Local Nucleus"),
            version: String::from_str("2023.2.0"),
            requires_auth: self.config.username.unicode_len() > 0,
            features,
        };
        self.server_info = Some(info.clone());
        Ok(info)
    }

    /// A token valid for `TOKEN_LIFETIME_SECS` from `now`, for the configured
    /// credentials; fails when either credential is missing.
    pub fn authenticate_at(&self, now: u64) -> (r: Result<AuthToken, OmniverseError>)
        ensures
            (self.spec_config().username@.len() == 0 || self.spec_config().api_key@.len() == 0) ==> r is Err
                && (r->Err_0 matches OmniverseError::AuthenticationFailed(m) && m@ == "Missing credentials"@),
            (self.spec_config().username@.len() > 0 && self.spec_config().api_key@.len() > 0) ==> r is Ok && {
                let t = r->Ok_0;
                &&& t.expires_at == saturating_sum(now, TOKEN_LIFETIME_SECS)
                &&& exists|id: Seq<char>| is_uuid_text(id) && t.token@ == "token_"@ + id
                &&& t.refresh_token matches Some(rt) && exists|id: Seq<char>| is_uuid_text(id) && rt@ == "refresh_"@ + id
            },
    {
        if self.config.username.unicode_len() == 0 || self.config.api_key.unicode_len() == 0 {
            return Err(OmniverseError::AuthenticationFailed(String::from_str("Missing credentials")));
        }
        let token_id = new_uuid_text();
        let refresh_id = new_uuid_text();
        let token = concat("token_", token_id.as_str());
        let refresh = concat("refresh_", refresh_id.as_str());
        let expires_at = now.saturating_add(TOKEN_LIFETIME_SECS);
        assert(expires_at == saturating_sum(now, TOKEN_LIFETIME_SECS));
        assert(is_uuid_text(token_id@) && token@ == "token_"@ + token_id@);
        assert(is_uuid_text(refresh_id@) && refresh@ == "refresh_"@ + refresh_id@);
        Ok(AuthToken { token, expires_at, refresh_token: Some(refresh) })
    }

    /// `authenticate_at` at the time of the system clock.
    pub fn authenticate(&self) -> (r: Result<AuthToken, OmniverseError>)
        ensures
            (self.spec_config().username@.len() == 0 || self.spec_config().api_key@.len() == 0) ==> r is Err,
            (self.spec_config().username@.len() > 0 && self.spec_config().api_key@.len() > 0) ==> r is Ok,
    {
        self.authenticate_at(chrono_timestamp())
    }

    /// The checkpoints of a file; there are none.
    pub fn list_checkpoints(&self, path: &str) -> (r: Result<Vec<Checkpoint>, OmniverseError>)
        ensures
            r is Ok && r->Ok_0@.len() == 0,
    {
        Ok(Vec::new())
    }

    /// A new checkpoint of `path`, made now by the configured user.
    pub fn create_checkpoint(&self, path: &str, comment: &str) -> (r: Result<Checkpoint, OmniverseError>)
        ensures
            r is Ok,
            r->Ok_0.path@ == path@,
            r->Ok_0.comment@ == comment@,
            r->Ok_0.created_by@ == self.spec_config().username@,
            is_uuid_text(r->Ok_0.id@),
    {
        Ok(Checkpoint {
            id: new_uuid_text(),
            path: String::from_str(path),
            comment: String::from_str(comment),
            created_at: chrono_timestamp(),
            created_by: self.config.username.clone(),
        })
    }

    /// Restores a checkpoint.
    pub fn restore_checkpoint(&self, checkpoint_id: &str) -> (r: Result<(), OmniverseError>)
        ensures
            r is Ok,
    {
        Ok(())
    }

    /// Locks `path` for the configured user.
    pub fn lock_file(&self, path: &str) -> (r: Result<FileLock, OmniverseError>)
        ensures
            r is Ok,
            r->Ok_0.path@ == path@,
            r->Ok_0.locked_by@ == self.spec_config().username@,
            is_uuid_text(r->Ok_0.lock_id@),
    {
        Ok(FileLock {
            path: String::from_str(path),
            locked_by: self.config.username.clone(),
            locked_at: chrono_timestamp(),
            lock_id: new_uuid_text(),
        })
    }

    /// Releases a lock.
    pub fn unlock_file(&self, lock_id: &str) -> (r: Result<(), OmniverseError>)
        ensures
            r is Ok,
    {
        Ok(())
    }

    /// The lock on `path`, if any; no file is reported locked.
    pub fn is_locked(&self, path: &str) -> (r: Result<Option<FileLock>, OmniverseError>)
        ensures
            r is Ok && r->Ok_0 is None,
    {
        Ok(None)
    }

    /// Metadata of `path`: empty, with creation and modification times read now.
    pub fn get_metadata(&self, path: &str) -> (r: Result<FileMetadata, OmniverseError>)
        ensures
            r is Ok,
            r->Ok_0.path@ == path@,
            r->Ok_0.size == 0,
            r->Ok_0.created_by@.len() == 0,
            r->Ok_0.modified_by@.len() == 0,
            r->Ok_0.checksum is None,
    {
        let created_at = chrono_timestamp();
        let modified_at = chrono_timestamp();
        Ok(FileMetadata {
            path: String::from_str(path),
            size: 0,
            created_at,
            modified_at,
            created_by: String::new(),
            modified_by: String::new(),
            checksum: None,
        })
    }
}

/// An operation that changes a connector.
pub enum ConnectorOp {
    Connect,
    Disconnect,
}

/// The connection state, and whether a session identifier is held, after one
/// operation on a connector whose address is an `omniverse://` one when
/// `url_ok`.
pub open spec fn connector_after(s: (ConnectionState, bool), url_ok: bool, op: ConnectorOp) -> (ConnectionState, bool) {
    match op {
        ConnectorOp::Connect => if url_ok {
            (ConnectionState::Connected, true)
        } else {
            (ConnectionState::Error, s.1)
        },
        ConnectorOp::Disconnect => if s.0 == ConnectionState::Connected {
            (ConnectionState::Disconnected, false)
        } else {
            s
        },
    }
}

/// The state reached from a new connector by the operations `ops`, in order.
pub open spec fn connector_run(url_ok: bool, ops: Seq<ConnectorOp>) -> (ConnectionState, bool)
    decreases ops.len(),
{
    if ops.len() == 0 {
        (ConnectionState::Disconnected, false)
    } else {
        connector_after(connector_run(url_ok, ops.drop_last()), url_ok, ops.last())
    }
}

/// Whatever operations a new connector goes through, it holds a session
/// identifier exactly while connected; it is connected only with an
/// `omniverse://` address, and in the error state only without one.
pub proof fn law_session_iff_connected(url_ok: bool, ops: Seq<ConnectorOp>)
    ensures
        connector_run(url_ok, ops).1 == (connector_run(url_ok, ops).0 == ConnectionState::Connected),
        connector_run(url_ok, ops).0 == ConnectionState::Connected ==> url_ok,
        connector_run(url_ok, ops).0 == ConnectionState::Error ==> !url_ok,
    decreases ops.len(),
{
    if ops.len() > 0 {
        law_session_iff_connected(url_ok, ops.drop_last());
    }
}

} // verus!
