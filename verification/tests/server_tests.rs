use webgal_craft::errors::AppError;
use webgal_craft::server::{listen_address, resolve_bound, ServerState};

#[test]
fn registration_is_idempotent() {
    let mut s = ServerState::default();
    let (id1, new1) = s.add_static_site("/proj/site");
    let (id2, new2) = s.add_static_site("/proj/site");
    assert_eq!(id1, id2);
    assert!(new1);
    assert!(!new2);
    let root = s.site_root(&id1).cloned();
    assert_eq!(root.as_deref(), Some("/proj/site"));
}

#[test]
fn registration_of_distinct_paths_gives_distinct_ids() {
    let mut s = ServerState::default();
    let (id1, _) = s.add_static_site("/proj/a");
    let (id2, _) = s.add_static_site("/proj/b");
    assert_ne!(id1, id2);
    assert!(s.site_root(&id1).is_some());
    assert!(s.site_root(&id2).is_some());
}

#[test]
fn removal_forgets_the_site_and_is_tolerant() {
    let mut s = ServerState::default();
    let (id, _) = s.add_static_site("/proj/site");
    s.remove_static_site("/proj/site");
    assert!(s.site_root(&id).is_none());
    // removing a never-registered path is not an error
    s.remove_static_site("/proj/never");
}

#[test]
fn lifecycle_start_stop_start() {
    let mut s = ServerState::default();
    assert!(!s.is_running());
    let url1 = s.complete_start("127.0.0.1:8080");
    assert_eq!(url1, "http://127.0.0.1:8080");
    assert!(s.is_running());
    assert_eq!(s.bound_address().map(|a| a.as_str()), Some("127.0.0.1:8080"));
    s.stop_server();
    assert!(!s.is_running());
    let url2 = s.complete_start("127.0.0.1:49152");
    assert_eq!(url2, "http://127.0.0.1:49152");
    assert!(s.is_running());
}

#[test]
fn stop_is_idempotent() {
    let mut s = ServerState::default();
    s.stop_server();
    s.stop_server();
    assert!(!s.is_running());
}

#[test]
fn restart_preserves_sites_and_clients() {
    let mut s = ServerState::default();
    let (id, _) = s.add_static_site("/proj/site");
    s.connect_client(&String::from("127.0.0.1:40000"));
    let _ = s.complete_start("127.0.0.1:8080");
    s.stop_server();
    let _ = s.complete_start("127.0.0.1:8081");
    assert!(s.site_root(&id).is_some());
    assert_eq!(s.get_connected_clients(), vec![String::from("127.0.0.1:40000")]);
}

#[test]
fn bind_fallback_prefers_primary() {
    let r = resolve_bound(Some(String::from("127.0.0.1:8080")), None);
    assert_eq!(r.ok().as_deref(), Some("127.0.0.1:8080"));
}

#[test]
fn bind_fallback_uses_fallback_when_primary_fails() {
    let r = resolve_bound(None, Some(String::from("127.0.0.1:49152")));
    assert_eq!(r.ok().as_deref(), Some("127.0.0.1:49152"));
}

#[test]
fn bind_failure_on_both_is_fatal() {
    let r = resolve_bound(None, None);
    match r {
        Err(AppError::Server(_)) => (),
        _ => panic!("expected a server error"),
    }
}

#[test]
fn listen_address_formats_host_and_port() {
    assert_eq!(listen_address("127.0.0.1", 8080), "127.0.0.1:8080");
    assert_eq!(listen_address("0.0.0.0", 0), "0.0.0.0:0");
}

#[test]
fn broadcast_with_zero_clients_is_not_an_error() {
    let mut s = ServerState::default();
    assert!(s.broadcast_message("hello").is_ok());
}

#[test]
fn unicast_requires_a_connected_client() {
    let mut s = ServerState::default();
    let addr = String::from("127.0.0.1:40001");
    match s.unicast_message(&addr, "hi") {
        Err(AppError::Server(_)) => (),
        _ => panic!("expected not-found to surface as a server error"),
    }
    s.connect_client(&addr);
    assert!(s.unicast_message(&addr, "hi").is_ok());
    assert_eq!(s.pop_unicast(&addr), Some(String::from("hi")));
}
