use webgal_craft::errors::DeliveryError;
use webgal_craft::hub::ConnectionHub;

#[test]
fn broadcast_with_no_subscribers_is_advisory() {
    let mut hub = ConnectionHub::new();
    assert_eq!(hub.broadcast("nobody home"), Err(DeliveryError::NoSubscribers));
}

#[test]
fn broadcast_reaches_every_connected_client_in_order() {
    let mut hub = ConnectionHub::new();
    let a = String::from("127.0.0.1:40000");
    let b = String::from("127.0.0.1:40001");
    hub.connect(&a);
    hub.connect(&b);
    assert!(hub.broadcast("one").is_ok());
    assert!(hub.broadcast("two").is_ok());
    assert_eq!(hub.pop_broadcast(&a), Some(String::from("one")));
    assert_eq!(hub.pop_broadcast(&a), Some(String::from("two")));
    assert_eq!(hub.pop_broadcast(&a), None);
    assert_eq!(hub.pop_broadcast(&b), Some(String::from("one")));
    assert_eq!(hub.pop_broadcast(&b), Some(String::from("two")));
    assert_eq!(hub.pop_broadcast(&b), None);
}

#[test]
fn subscriber_sees_only_messages_after_connecting() {
    let mut hub = ConnectionHub::new();
    let a = String::from("127.0.0.1:40000");
    let b = String::from("127.0.0.1:40001");
    hub.connect(&a);
    assert!(hub.broadcast("early").is_ok());
    hub.connect(&b);
    assert!(hub.broadcast("late").is_ok());
    assert_eq!(hub.pop_broadcast(&a), Some(String::from("early")));
    assert_eq!(hub.pop_broadcast(&a), Some(String::from("late")));
    assert_eq!(hub.pop_broadcast(&b), Some(String::from("late")));
    assert_eq!(hub.pop_broadcast(&b), None);
}

#[test]
fn lagging_subscriber_loses_oldest_without_disturbing_others() {
    let mut hub = ConnectionHub::new();
    let slow = String::from("127.0.0.1:40000");
    hub.connect(&slow);
    for i in 0..101u32 {
        assert!(hub.broadcast(&format!("m{}", i)).is_ok());
    }
    // the oldest unread message m0 was dropped; delivery starts at m1
    assert_eq!(hub.pop_broadcast(&slow), Some(String::from("m1")));
    // a client connected now still receives everything sent from here on
    let fresh = String::from("127.0.0.1:40001");
    hub.connect(&fresh);
    assert!(hub.broadcast("after").is_ok());
    assert_eq!(hub.pop_broadcast(&fresh), Some(String::from("after")));
    assert_eq!(hub.pop_broadcast(&slow), Some(String::from("m2")));
}

#[test]
fn unicast_not_found_then_found() {
    let mut hub = ConnectionHub::new();
    let a = String::from("127.0.0.1:40000");
    assert_eq!(hub.unicast(&a, "hi"), Err(DeliveryError::NotFound));
    hub.connect(&a);
    assert_eq!(hub.unicast(&a, "hi"), Ok(()));
    assert_eq!(hub.pop_unicast(&a), Some(String::from("hi")));
    assert_eq!(hub.pop_unicast(&a), None);
}

#[test]
fn unicast_reaches_only_its_target() {
    let mut hub = ConnectionHub::new();
    let a = String::from("127.0.0.1:40000");
    let b = String::from("127.0.0.1:40001");
    hub.connect(&a);
    hub.connect(&b);
    assert_eq!(hub.unicast(&a, "for a"), Ok(()));
    assert_eq!(hub.pop_unicast(&b), None);
    assert_eq!(hub.pop_unicast(&a), Some(String::from("for a")));
}

#[test]
fn disconnect_is_unconditional_and_idempotent() {
    let mut hub = ConnectionHub::new();
    let a = String::from("127.0.0.1:40000");
    hub.connect(&a);
    assert_eq!(hub.count(), 1);
    hub.disconnect(&a);
    assert_eq!(hub.count(), 0);
    hub.disconnect(&a);
    assert_eq!(hub.count(), 0);
    assert_eq!(hub.unicast(&a, "gone"), Err(DeliveryError::NotFound));
}

#[test]
fn list_connected_snapshots_addresses() {
    let mut hub = ConnectionHub::new();
    let a = String::from("127.0.0.1:40000");
    let b = String::from("127.0.0.1:40001");
    hub.connect(&a);
    hub.connect(&b);
    let listed = hub.list_connected();
    assert_eq!(listed.len(), 2);
    assert!(listed.contains(&a));
    assert!(listed.contains(&b));
}

#[test]
fn reconnecting_replaces_the_stale_registration() {
    let mut hub = ConnectionHub::new();
    let a = String::from("127.0.0.1:40000");
    hub.connect(&a);
    assert_eq!(hub.unicast(&a, "stale"), Ok(()));
    hub.connect(&a);
    assert_eq!(hub.count(), 1);
    // the fresh registration starts with empty queues
    assert_eq!(hub.pop_unicast(&a), None);
}
