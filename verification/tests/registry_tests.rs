//! The live connection registry: registration, presence, fanout targeting,
//! and session displacement.

use privmsg::models::WsServerMessage;
use privmsg::registry::WebSocketManager;
use tokio::sync::mpsc;

#[test]
fn test_connection_management() {
    let mut manager = WebSocketManager::new();
    let (tx, _rx) = mpsc::unbounded_channel();

    // Register connection
    manager.register("user1", "device1", tx.clone());
    assert!(manager.is_user_online("user1"));
    assert!(!manager.is_user_online("user2"));

    // Register another device for same user
    let (tx2, _rx2) = mpsc::unbounded_channel();
    manager.register("user1", "device2", tx2);
    assert_eq!(manager.get_user_devices("user1").len(), 2);

    // Unregister one device
    manager.unregister("device1");
    assert!(manager.is_user_online("user1"));
    assert_eq!(manager.get_user_devices("user1").len(), 1);

    // Unregister last device
    manager.unregister("device2");
    assert!(!manager.is_user_online("user1"));
}

#[test]
fn test_session_displacement() {
    // Re-registering a device displaces its earlier channel: a targeted
    // send reaches only the later one.
    let mut manager = WebSocketManager::new();
    let (tx1, mut rx1) = mpsc::unbounded_channel();
    let (tx2, mut rx2) = mpsc::unbounded_channel();

    manager.register("u", "d", tx1);
    manager.register("u", "d", tx2);
    assert_eq!(manager.get_user_devices("u").len(), 1);

    let sent = manager.send_to_device("d", WsServerMessage::Pong);
    assert!(sent);
    assert!(matches!(rx2.try_recv(), Ok(WsServerMessage::Pong)));
    assert!(rx1.try_recv().is_err());
}

#[test]
fn test_fanout_and_echo_targets() {
    let mut manager = WebSocketManager::new();
    let (tx_a1, mut rx_a1) = mpsc::unbounded_channel();
    let (tx_a2, mut rx_a2) = mpsc::unbounded_channel();
    let (tx_b, mut rx_b) = mpsc::unbounded_channel();

    manager.register("alice", "a1", tx_a1);
    manager.register("alice", "a2", tx_a2);
    manager.register("bob", "b1", tx_b);

    assert_eq!(manager.online_user_count(), 2);

    let targets = manager.send_to_user("alice", &WsServerMessage::Pong);
    assert_eq!(targets, vec!["a1".to_string(), "a2".to_string()]);
    assert!(matches!(rx_a1.try_recv(), Ok(WsServerMessage::Pong)));
    assert!(matches!(rx_a2.try_recv(), Ok(WsServerMessage::Pong)));
    assert!(rx_b.try_recv().is_err());

    // Multi-device echo goes to the sender's other devices only.
    let echo = manager.send_to_other_devices("alice", "a1", &WsServerMessage::Pong);
    assert_eq!(echo, vec!["a2".to_string()]);
    assert!(rx_a1.try_recv().is_err());
    assert!(matches!(rx_a2.try_recv(), Ok(WsServerMessage::Pong)));

    // A broadcast to everyone else skips all of the user's own devices.
    let others = manager.broadcast_to_others("alice", &WsServerMessage::Pong);
    assert_eq!(others, vec!["b1".to_string()]);
    assert!(matches!(rx_b.try_recv(), Ok(WsServerMessage::Pong)));
}

#[test]
fn test_offline_broadcast_lists() {
    let mut manager = WebSocketManager::new();
    let (tx_a, mut rx_a) = mpsc::unbounded_channel();
    let (tx_b, mut rx_b) = mpsc::unbounded_channel();
    manager.register("alice", "a1", tx_a);
    manager.register("bob", "b1", tx_b);

    let contacts = vec!["alice".to_string(), "bob".to_string()];
    let per_contact = manager.broadcast_user_offline("carol", &contacts);
    assert_eq!(per_contact.len(), 2);
    assert_eq!(per_contact[0], vec!["a1".to_string()]);
    assert_eq!(per_contact[1], vec!["b1".to_string()]);
    assert!(matches!(
        rx_a.try_recv(),
        Ok(WsServerMessage::UserOffline { .. })
    ));
    assert!(matches!(
        rx_b.try_recv(),
        Ok(WsServerMessage::UserOffline { .. })
    ));
}
