use rcad::omniverse::{
    chrono_timestamp, AuthToken, ChangeType, ConnectionState, LiveSyncManager, LiveSyncState, NucleusClient,
    OmniverseConfig, OmniverseConnector, OmniverseError, SyncChangeBuilder,
};
use rcad::server::NucleusService;

#[test]
fn test_connector_creation() {
    let config = OmniverseConfig::new("omniverse://localhost/");
    let connector = OmniverseConnector::new(config);
    assert_eq!(connector.state(), ConnectionState::Disconnected);
    assert!(!connector.is_connected());
}

#[test]
fn test_connect() {
    let config = OmniverseConfig::new("omniverse://localhost/");
    let mut connector = OmniverseConnector::new(config);
    connector.connect().unwrap();
    assert!(connector.is_connected());
    assert!(connector.session_id().is_some());
}

#[test]
fn connect_with_bad_url_fails() {
    let mut connector = OmniverseConnector::new(OmniverseConfig::new("http://example.com/"));
    match connector.connect() {
        Err(OmniverseError::ConnectionFailed(m)) => assert_eq!(m, "Invalid Nucleus URL format"),
        other => panic!("unexpected {:?}", other),
    }
    assert_eq!(connector.state(), ConnectionState::Error);
    assert!(connector.session_id().is_none());
}

#[test]
fn connector_operations_need_connection() {
    let mut connector = OmniverseConnector::new(OmniverseConfig::default());
    match connector.upload_usd_content(b"#usda 1.0", "/Projects/a.usda") {
        Err(OmniverseError::ConnectionFailed(m)) => assert_eq!(m, "Not connected to Nucleus"),
        other => panic!("unexpected {:?}", other),
    }
    connector.connect().unwrap();
    let session = connector.session_id().unwrap().to_string();
    assert_eq!(session.len(), 36);
    assert_eq!(&session[14..15], "4");
    let url = connector.upload_usd_content(b"#usda 1.0", "Projects/a.usda").unwrap();
    assert_eq!(url, "omniverse://localhost/Projects/a.usda");
    assert!(connector.list_directory("/").unwrap().is_empty());
    assert_eq!(connector.path_exists("/x").unwrap(), false);
    assert!(connector.create_directory("/d").is_ok());
    assert!(connector.delete("/d").is_ok());
    connector.disconnect().unwrap();
    assert_eq!(connector.state(), ConnectionState::Disconnected);
    assert!(connector.session_id().is_none());
    assert!(connector.delete("/d").is_err());
}

#[test]
fn config_builders() {
    let c = OmniverseConfig::new("omniverse://server/").with_auth("alice", "key");
    assert_eq!(c.nucleus_url, "omniverse://server/");
    assert_eq!(c.username, "alice");
    assert_eq!(c.api_key, "key");
    assert_eq!(c.timeout_secs, 30);
    assert_eq!(c.retry_count, 3);
    assert!(c.enable_live_sync);
}

#[test]
fn test_live_sync_creation() {
    let manager = LiveSyncManager::new(OmniverseConfig::default());
    assert_eq!(manager.state(), LiveSyncState::Idle);
}

#[test]
fn test_start_stop() {
    let mut manager = LiveSyncManager::new(OmniverseConfig::default());
    let channel_id = manager.start("/test/path").unwrap();
    assert!(!channel_id.is_empty());
    assert_eq!(manager.state(), LiveSyncState::Syncing);
    manager.stop().unwrap();
}

#[test]
fn live_sync_transitions() {
    let mut m = LiveSyncManager::new(OmniverseConfig::default());
    match m.pause() {
        Err(OmniverseError::SyncError(s)) => assert_eq!(s, "Not currently syncing"),
        other => panic!("unexpected {:?}", other),
    }
    let ch = m.start("/p").unwrap();
    assert_eq!(m.channel_id(), Some(ch.as_str()));
    match m.start("/p") {
        Err(OmniverseError::SyncError(s)) => assert_eq!(s, "Already syncing"),
        other => panic!("unexpected {:?}", other),
    }
    m.pause().unwrap();
    assert_eq!(m.state(), LiveSyncState::Paused);
    let change = SyncChangeBuilder::new("/World/Box", ChangeType::Modified).with_data(vec![1]).build();
    assert!(m.submit_change(&change).is_err());
    m.resume().unwrap();
    assert_eq!(m.state(), LiveSyncState::Syncing);
    match m.resume() {
        Err(OmniverseError::SyncError(s)) => assert_eq!(s, "Not paused"),
        other => panic!("unexpected {:?}", other),
    }
    assert!(m.submit_change(&change).is_ok());
    m.stop().unwrap();
    assert_eq!(m.state(), LiveSyncState::Idle);
    assert!(m.channel_id().is_none());
}

#[test]
fn pending_changes_are_capped() {
    let mut m = LiveSyncManager::new(OmniverseConfig::default());
    for i in 0..1005u64 {
        let c = SyncChangeBuilder::new("/p", ChangeType::Created).build_at(i);
        m.record_change(c);
    }
    let pending = m.pending_changes();
    assert_eq!(pending.len(), 1000);
    assert_eq!(pending[0].timestamp, 5);
    assert_eq!(pending[999].timestamp, 1004);
    m.clear_pending();
    assert!(m.pending_changes().is_empty());
}

#[test]
fn sync_change_builder() {
    let c = SyncChangeBuilder::new("/World/A", ChangeType::Deleted).with_data(vec![4, 5]).build_at(77);
    assert_eq!(c.prim_path, "/World/A");
    assert_eq!(c.change_type, ChangeType::Deleted);
    assert_eq!(c.data, vec![4, 5]);
    assert_eq!(c.timestamp, 77);
}

#[test]
fn test_auth_token() {
    let token = AuthToken { token: "test".to_string(), expires_at: chrono_timestamp() + 3600, refresh_token: None };
    assert!(!token.is_expired());
    assert!(!token.needs_refresh());
}

#[test]
fn auth_token_margins() {
    let t = AuthToken { token: "t".to_string(), expires_at: 1000, refresh_token: None };
    assert!(!t.is_expired_at(999));
    assert!(t.is_expired_at(1000));
    assert!(!t.needs_refresh_at(699));
    assert!(t.needs_refresh_at(700));
    assert!(t.needs_refresh_at(u64::MAX));
}

#[test]
fn test_nucleus_client_creation() {
    let config = OmniverseConfig::new("omniverse://localhost/");
    let client = NucleusClient::new(config);
    assert!(client.server_info().is_none());
}

#[test]
fn test_get_server_info() {
    let config = OmniverseConfig::new("omniverse://localhost/");
    let mut client = NucleusClient::new(config);
    let info = client.get_server_info().unwrap();
    assert!(!info.version.is_empty());
    assert_eq!(info.name, "Local Nucleus");
    assert!(!info.requires_auth);
    assert_eq!(info.features.len(), 3);
    assert!(client.server_info().is_some());
}

#[test]
fn nucleus_http_address() {
    let client = NucleusClient::new(OmniverseConfig::default());
    assert_eq!(client.nucleus_to_http("omniverse://host.example/Projects/x").unwrap(), "http://host.example:3180");
    assert_eq!(client.nucleus_to_http("omniverse://solo").unwrap(), "http://solo:3180");
    match client.nucleus_to_http("https://host/") {
        Err(OmniverseError::ConnectionFailed(m)) => assert_eq!(m, "URL must start with omniverse://"),
        other => panic!("unexpected {:?}", other),
    }
    let mut bad = NucleusClient::new(OmniverseConfig::new("file:///tmp"));
    assert!(bad.get_server_info().is_err());
    assert!(bad.server_info().is_none());
}

#[test]
fn authenticate_needs_credentials() {
    let client = NucleusClient::new(OmniverseConfig::default());
    match client.authenticate() {
        Err(OmniverseError::AuthenticationFailed(m)) => assert_eq!(m, "Missing credentials"),
        other => panic!("unexpected {:?}", other),
    }
    let client = NucleusClient::new(OmniverseConfig::default().with_auth("bob", "secret"));
    let t = client.authenticate_at(100).unwrap();
    assert_eq!(t.expires_at, 3700);
    assert!(t.token.starts_with("token_"));
    assert_eq!(t.token.len(), 6 + 36);
    assert!(t.refresh_token.unwrap().starts_with("refresh_"));
    let sat = client.authenticate_at(u64::MAX - 1).unwrap();
    assert_eq!(sat.expires_at, u64::MAX);
}

#[test]
fn nucleus_records() {
    let client = NucleusClient::new(OmniverseConfig::default().with_auth("carol", "k"));
    let cp = client.create_checkpoint("/a.usd", "first").unwrap();
    assert_eq!(cp.path, "/a.usd");
    assert_eq!(cp.comment, "first");
    assert_eq!(cp.created_by, "carol");
    assert_eq!(cp.id.len(), 36);
    let lock = client.lock_file("/a.usd").unwrap();
    assert_eq!(lock.locked_by, "carol");
    assert!(client.is_locked("/a.usd").unwrap().is_none());
    assert!(client.unlock_file(&lock.lock_id).is_ok());
    let md = client.get_metadata("/a.usd").unwrap();
    assert_eq!(md.size, 0);
    assert!(md.checksum.is_none());
    assert!(client.list_checkpoints("/a.usd").unwrap().is_empty());
    assert!(client.restore_checkpoint(&cp.id).is_ok());
}

#[test]
fn test_service_creation() {
    let service = NucleusService::new();
    assert_eq!(service.session_count(), 0);
}

#[test]
fn nucleus_service_sessions() {
    let mut service = NucleusService::new();
    let id = service.connect(OmniverseConfig::default()).unwrap();
    assert!(service.session_exists(&id));
    assert_eq!(service.session_count(), 1);
    let url = service.upload(&id, b"x", "a.usda").unwrap();
    assert_eq!(url, "omniverse://localhost/a.usda");
    match service.upload("nope", b"x", "a.usda") {
        Err(OmniverseError::ConnectionFailed(m)) => assert_eq!(m, "Session not found"),
        other => panic!("unexpected {:?}", other),
    }
    assert!(service.connect(OmniverseConfig::new("bad://")).is_err());
    let second = service.connect(OmniverseConfig::default()).unwrap();
    assert_ne!(id, second);
    service.disconnect(&id).unwrap();
    assert!(!service.session_exists(&id));
    assert!(service.get_connector(&second).is_none());
    service.disconnect_all().unwrap();
    assert_eq!(service.session_count(), 0);
}

#[test]
fn connector_holds_a_session_exactly_while_connected() {
    let mut bad = OmniverseConnector::new(OmniverseConfig::new("http://host/"));
    assert!(bad.connect().is_err());
    assert_eq!(bad.state(), ConnectionState::Error);
    assert!(bad.session_id().is_none());
    let mut good = OmniverseConnector::new(OmniverseConfig::default());
    assert!(good.session_id().is_none());
    good.connect().unwrap();
    assert!(good.is_connected() && good.session_id().is_some());
    good.disconnect().unwrap();
    assert_eq!(good.state(), ConnectionState::Disconnected);
    assert!(good.session_id().is_none());
}
