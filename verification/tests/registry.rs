use mcp_rig::{ConnectionAttempt, McpConnectionManager, McpRigIntegrationError};
use std::sync::Arc;
use std::time::Duration;

fn ready(label: &str) -> (Arc<String>, ConnectionAttempt<String>) {
    let handle = Arc::new(label.to_string());
    (Arc::clone(&handle), ConnectionAttempt::Ready(handle))
}

fn sorted(mut ids: Vec<String>) -> Vec<String> {
    ids.sort();
    ids
}

#[test]
fn new_registry_is_empty_and_allows_thirty_seconds() {
    let manager: McpConnectionManager<String> = McpConnectionManager::new();
    assert_eq!(manager.client_count(), 0);
    assert!(manager.client_ids().is_empty());
    assert!(!manager.has_client("git-client"));
    assert!(manager.get_client("git-client").is_none());
    assert_eq!(manager.timeout(), Duration::from_secs(30));
}

#[test]
fn with_timeout_keeps_the_given_duration() {
    let manager: McpConnectionManager<String> =
        McpConnectionManager::with_timeout(Duration::from_millis(1500));
    assert_eq!(manager.timeout(), Duration::from_millis(1500));
    assert_eq!(manager.client_count(), 0);
}

#[test]
fn ready_attempt_registers_the_handle() {
    let mut manager = McpConnectionManager::new();
    let (handle, attempt) = ready("git");
    assert_eq!(manager.add_client("git-client".to_string(), attempt), Ok(()));
    assert!(manager.has_client("git-client"));
    assert_eq!(manager.client_count(), 1);
    let found = manager.get_client("git-client").unwrap();
    assert!(Arc::ptr_eq(&found, &handle));
}

#[test]
fn lookup_shares_the_handle_with_the_registry() {
    let mut manager = McpConnectionManager::new();
    let (handle, attempt) = ready("git");
    manager.add_client("git-client".to_string(), attempt).unwrap();
    let before = Arc::strong_count(&handle);
    let found = manager.get_client("git-client").unwrap();
    assert_eq!(Arc::strong_count(&handle), before + 1);
    drop(found);
    assert!(manager.has_client("git-client"));
    assert_eq!(Arc::strong_count(&handle), before);
}

#[test]
fn registering_under_one_name_leaves_other_names_alone() {
    let mut manager = McpConnectionManager::new();
    let (first, attempt) = ready("one");
    manager.add_client("b".to_string(), attempt).unwrap();
    let (second, attempt) = ready("two");
    manager.add_client("a".to_string(), attempt).unwrap();
    assert!(Arc::ptr_eq(&manager.get_client("b").unwrap(), &first));
    assert!(Arc::ptr_eq(&manager.get_client("a").unwrap(), &second));
    assert_eq!(manager.client_count(), 2);
}

#[test]
fn registering_twice_under_one_name_replaces_the_handle() {
    let mut manager = McpConnectionManager::new();
    let (old, attempt) = ready("old");
    manager.add_client("a".to_string(), attempt).unwrap();
    let (new, attempt) = ready("new");
    manager.add_client("a".to_string(), attempt).unwrap();
    let found = manager.get_client("a").unwrap();
    assert!(Arc::ptr_eq(&found, &new));
    assert!(!Arc::ptr_eq(&found, &old));
    assert_eq!(*found, "new");
    assert_eq!(manager.client_count(), 1);
    assert_eq!(manager.client_ids(), vec!["a".to_string()]);
}

#[test]
fn names_match_exactly() {
    let mut manager = McpConnectionManager::new();
    let (_, attempt) = ready("git");
    manager.add_client("Git".to_string(), attempt).unwrap();
    assert!(manager.has_client("Git"));
    assert!(!manager.has_client("git"));
    assert!(!manager.has_client("Git "));
    assert!(!manager.has_client(""));
    assert!(manager.get_client("git").is_none());
}

#[test]
fn removing_an_unknown_name_changes_nothing() {
    let mut manager = McpConnectionManager::new();
    let (handle, attempt) = ready("git");
    manager.add_client("git-client".to_string(), attempt).unwrap();
    assert!(!manager.remove_client("echo-client"));
    assert_eq!(manager.client_count(), 1);
    assert_eq!(manager.client_ids(), vec!["git-client".to_string()]);
    assert!(Arc::ptr_eq(&manager.get_client("git-client").unwrap(), &handle));
    assert_eq!(manager.timeout(), Duration::from_secs(30));
}

#[test]
fn removing_from_an_empty_registry_is_false() {
    let mut manager: McpConnectionManager<String> = McpConnectionManager::new();
    assert!(!manager.remove_client("anything"));
    assert_eq!(manager.client_count(), 0);
}

#[test]
fn removing_a_known_name_makes_it_unavailable() {
    let mut manager = McpConnectionManager::new();
    let (_, attempt) = ready("git");
    manager.add_client("git-client".to_string(), attempt).unwrap();
    let (echo, attempt) = ready("echo");
    manager.add_client("echo-client".to_string(), attempt).unwrap();
    let (_, attempt) = ready("fs");
    manager.add_client("fs-client".to_string(), attempt).unwrap();

    assert!(manager.remove_client("git-client"));
    assert!(!manager.has_client("git-client"));
    assert!(manager.get_client("git-client").is_none());
    assert_eq!(manager.client_count(), 2);
    assert!(Arc::ptr_eq(&manager.get_client("echo-client").unwrap(), &echo));
    assert!(manager.has_client("fs-client"));
    assert!(!manager.remove_client("git-client"));
}

#[test]
fn removal_releases_the_registry_share_of_the_handle() {
    let mut manager = McpConnectionManager::new();
    let (handle, attempt) = ready("git");
    manager.add_client("git-client".to_string(), attempt).unwrap();
    assert_eq!(Arc::strong_count(&handle), 2);
    assert!(manager.remove_client("git-client"));
    assert_eq!(Arc::strong_count(&handle), 1);
}

#[test]
fn client_ids_lists_each_name_once() {
    let mut manager = McpConnectionManager::new();
    for name in ["c", "a", "b", "a", "c"] {
        let (_, attempt) = ready(name);
        manager.add_client(name.to_string(), attempt).unwrap();
    }
    assert_eq!(manager.client_count(), 3);
    assert_eq!(
        sorted(manager.client_ids()),
        vec!["a".to_string(), "b".to_string(), "c".to_string()]
    );
    manager.remove_client("b");
    assert_eq!(sorted(manager.client_ids()), vec!["a".to_string(), "c".to_string()]);
    assert_eq!(manager.client_count(), 2);
}

#[test]
fn failed_transport_is_reported_and_leaves_no_entry() {
    let mut manager: McpConnectionManager<String> = McpConnectionManager::new();
    let attempt = ConnectionAttempt::TransportFailed(mcp_client::transport::Error::NotConnected);
    assert_eq!(
        manager.add_client("git-client".to_string(), attempt),
        Err(McpRigIntegrationError::McpError(
            "Transport was not connected or is already closed".to_string()
        ))
    );
    assert!(!manager.has_client("git-client"));
    assert_eq!(manager.client_count(), 0);
}

#[test]
fn failed_transport_carries_the_detail_of_the_failure() {
    let mut manager: McpConnectionManager<String> = McpConnectionManager::new();
    let attempt = ConnectionAttempt::TransportFailed(
        mcp_client::transport::Error::StdioProcessError("uvx not found".to_string()),
    );
    assert_eq!(
        manager.add_client("git-client".to_string(), attempt),
        Err(McpRigIntegrationError::McpError("Stdio process error: uvx not found".to_string()))
    );
}

#[test]
fn failed_handshake_is_reported_and_keeps_the_previous_handle() {
    let mut manager = McpConnectionManager::new();
    let (handle, attempt) = ready("git");
    manager.add_client("git-client".to_string(), attempt).unwrap();
    let attempt = ConnectionAttempt::InitializeFailed(mcp_client::Error::RpcError {
        code: -32600,
        message: "refused".to_string(),
    });
    assert_eq!(
        manager.add_client("git-client".to_string(), attempt),
        Err(McpRigIntegrationError::McpError("RPC error: code=-32600, message=refused".to_string()))
    );
    assert_eq!(manager.client_count(), 1);
    assert!(Arc::ptr_eq(&manager.get_client("git-client").unwrap(), &handle));
}

#[test]
fn timeout_survives_registration_and_removal() {
    let mut manager = McpConnectionManager::with_timeout(Duration::from_secs(5));
    let (_, attempt) = ready("git");
    manager.add_client("git-client".to_string(), attempt).unwrap();
    manager.remove_client("git-client");
    assert_eq!(manager.timeout(), Duration::from_secs(5));
}

#[test]
fn default_registry_is_empty_and_allows_no_time() {
    let manager: McpConnectionManager<String> = McpConnectionManager::default();
    assert_eq!(manager.client_count(), 0);
    assert_eq!(manager.timeout(), Duration::ZERO);
}

#[test]
fn timed_out_attempt_is_reported_and_leaves_no_entry() {
    let mut manager: McpConnectionManager<String> = McpConnectionManager::new();
    assert_eq!(
        manager.add_client("git-client".to_string(), ConnectionAttempt::TimedOut),
        Err(McpRigIntegrationError::McpError("Request timed out".to_string()))
    );
    assert!(!manager.has_client("git-client"));
    assert_eq!(manager.client_count(), 0);
}

#[test]
fn timed_out_attempt_keeps_the_previous_handle() {
    let mut manager = McpConnectionManager::new();
    let (handle, attempt) = ready("git");
    manager.add_client("git-client".to_string(), attempt).unwrap();
    assert!(manager.add_client("git-client".to_string(), ConnectionAttempt::TimedOut).is_err());
    assert!(Arc::ptr_eq(&manager.get_client("git-client").unwrap(), &handle));
}
