use nekorca::protocol::{build_envelope, Direction, Envelope, MsgType, Payload};
use nekorca::router::{route_key, CliSession, Router};
use tokio::sync::mpsc::UnboundedReceiver;

fn session(client: &str) -> (CliSession, UnboundedReceiver<Envelope>) {
    CliSession::new(
        client.to_string(),
        "1.0".to_string(),
        vec!["code".to_string(), "shell".to_string()],
        vec![],
    )
}

fn ping() -> Envelope {
    build_envelope(MsgType::Heartbeat, Direction::Downstream, Payload::Json(serde_json::Value::Null))
}

fn hyphenated(id: u128) -> String {
    uuid::Uuid::from_u128(id).to_string()
}

#[test]
fn route_key_joins_platform_and_conversation() {
    assert_eq!(route_key("telegram", "tg:42"), "telegram/tg:42");
    assert_eq!(route_key("", ""), "/");
}

#[test]
fn route_keys_collide_only_through_slashes() {
    assert_ne!(route_key("telegram", "1"), route_key("qq", "1"));
    assert_ne!(route_key("telegram", "1"), route_key("telegram", "2"));
    assert_eq!(route_key("a/b", "c"), route_key("a", "b/c"));
}

#[test]
fn new_router_is_empty() {
    let router: Router<u8> = Router::new();
    assert_eq!(router.pick_cli(), None);
    assert!(router.list_clients().is_empty());
    assert!(router.routes_for_session(&1).is_empty());
}

#[test]
fn register_then_pick_and_list() {
    let mut router: Router<u8> = Router::new();
    let (s1, _rx1) = session("alpha");
    let (s2, _rx2) = session("beta");
    router.register(7, s1);
    assert_eq!(router.pick_cli(), Some(7));
    router.register(9, s2);
    // the earliest connected session stays the one picked
    assert_eq!(router.pick_cli(), Some(7));
    let clients = router.list_clients();
    assert_eq!(clients.len(), 2);
    assert_eq!(clients[0].0, 7);
    assert_eq!(clients[0].1, "alpha");
    assert_eq!(clients[0].2, vec!["code".to_string(), "shell".to_string()]);
    assert_eq!(clients[1].0, 9);
    assert_eq!(clients[1].1, "beta");
}

#[test]
fn register_same_id_replaces_session() {
    let mut router: Router<u8> = Router::new();
    let (s1, _rx1) = session("alpha");
    let (s2, _rx2) = session("gamma");
    router.register(7, s1);
    router.register(7, s2);
    let clients = router.list_clients();
    assert_eq!(clients.len(), 1);
    assert_eq!(clients[0].1, "gamma");
}

#[test]
fn bind_then_route_reaches_session() {
    let mut router: Router<u8> = Router::new();
    let (s1, mut rx1) = session("alpha");
    router.register(7, s1);
    router.bind_conversation(7, "telegram", "100", "tg:5");
    assert_eq!(router.route_to_cli("telegram", "tg:5", ping()), Ok(()));
    let got = rx1.try_recv().expect("message delivered");
    assert_eq!(got.msg_type, MsgType::Heartbeat);
    let routes = router.routes_for_session(&7);
    assert_eq!(routes.len(), 1);
    assert_eq!(routes[0].cli_session_id, 7);
    assert_eq!(routes[0].platform, "telegram");
    assert_eq!(routes[0].platform_user_id, "100");
    assert_eq!(routes[0].conversation_id, "tg:5");
}

#[test]
fn route_to_unbound_conversation_fails() {
    let mut router: Router<u8> = Router::new();
    assert_eq!(
        router.route_to_cli("qq", "room", ping()),
        Err("no CLI session bound to qq/room".to_string())
    );
}

#[test]
fn send_to_unknown_session_names_it() {
    let mut router: Router<u8> = Router::new();
    let id: u128 = 0x0123_4567_89ab_cdef_0123_4567_89ab_cdef;
    let err = router.send_to_cli(&id, ping()).unwrap_err();
    assert_eq!(err, "CLI session 01234567-89ab-cdef-0123-456789abcdef not found");
    assert_eq!(err, format!("CLI session {} not found", hyphenated(id)));
}

#[test]
fn send_to_closed_channel_fails() {
    let mut router: Router<u8> = Router::new();
    let (s1, rx1) = session("alpha");
    router.register(7, s1);
    drop(rx1);
    assert_eq!(router.send_to_cli(&7, ping()), Err("send failed: channel closed".to_string()));
}

#[test]
fn unregister_forgets_session_and_routes() {
    let mut router: Router<u8> = Router::new();
    let (s1, _rx1) = session("alpha");
    let (s2, _rx2) = session("beta");
    router.register(7, s1);
    router.register(9, s2);
    router.bind_conversation(7, "telegram", "1", "tg:1");
    router.bind_conversation(7, "qq", "2", "room");
    router.bind_conversation(9, "telegram", "3", "tg:3");
    router.unregister(&7);
    assert_eq!(router.pick_cli(), Some(9));
    assert!(router.routes_for_session(&7).is_empty());
    assert!(router.route_to_cli("telegram", "tg:1", ping()).is_err());
    assert!(router.route_to_cli("qq", "room", ping()).is_err());
    // the other session's route is untouched
    assert_eq!(router.routes_for_session(&9).len(), 1);
    assert_eq!(router.route_to_cli("telegram", "tg:3", ping()), Ok(()));
    assert_eq!(router.send_to_cli(&7, ping()).is_err(), true);
}

#[test]
fn rebinding_moves_conversation() {
    let mut router: Router<u8> = Router::new();
    let (s1, mut rx1) = session("alpha");
    let (s2, mut rx2) = session("beta");
    router.register(7, s1);
    router.register(9, s2);
    router.bind_conversation(7, "telegram", "1", "tg:1");
    router.bind_conversation(9, "telegram", "1", "tg:1");
    assert_eq!(router.route_to_cli("telegram", "tg:1", ping()), Ok(()));
    assert!(rx1.try_recv().is_err());
    assert!(rx2.try_recv().is_ok());
    // the conversation left the earlier session's list
    assert!(router.routes_for_session(&7).is_empty());
    let routes = router.routes_for_session(&9);
    assert_eq!(routes.len(), 1);
    assert_eq!(routes[0].cli_session_id, 9);
}

#[test]
fn unregister_of_earlier_binder_keeps_rebound_route() {
    let mut router: Router<u8> = Router::new();
    let (s1, _rx1) = session("alpha");
    let (s2, mut rx2) = session("beta");
    router.register(1, s1);
    router.register(2, s2);
    router.bind_conversation(1, "telegram", "u", "tg:1");
    router.bind_conversation(2, "telegram", "u", "tg:1");
    router.unregister(&1);
    assert_eq!(router.route_to_cli("telegram", "tg:1", ping()), Ok(()));
    assert_eq!(rx2.try_recv().expect("message delivered").msg_type, MsgType::Heartbeat);
}

#[test]
fn repeated_binding_lists_route_once() {
    let mut router: Router<u8> = Router::new();
    let (s1, _rx1) = session("alpha");
    router.register(1, s1);
    router.bind_conversation(1, "telegram", "u", "tg:1");
    router.bind_conversation(1, "telegram", "u", "tg:1");
    assert_eq!(router.routes_for_session(&1).len(), 1);
}

#[test]
fn rebinding_updates_the_user_in_place() {
    let mut router: Router<u8> = Router::new();
    let (s1, _rx1) = session("alpha");
    router.register(1, s1);
    router.bind_conversation(1, "telegram", "u", "tg:1");
    router.bind_conversation(1, "qq", "v", "room");
    router.bind_conversation(1, "telegram", "w", "tg:1");
    let routes = router.routes_for_session(&1);
    assert_eq!(routes.len(), 2);
    assert_eq!(routes[0].conversation_id, "tg:1");
    assert_eq!(routes[0].platform_user_id, "w");
    assert_eq!(routes[1].conversation_id, "room");
}

#[test]
fn delivery_names_the_sessions_channel() {
    let mut router: Router<u8> = Router::new();
    let (s1, mut rx1) = session("alpha");
    let (s2, mut rx2) = session("beta");
    router.register(1, s1);
    router.register(2, s2);
    let (tx, env) = router.delivery(&2, ping()).expect("connected");
    assert_eq!(env.msg_type, MsgType::Heartbeat);
    tx.send(env).expect("open channel");
    assert!(rx1.try_recv().is_err());
    assert!(rx2.try_recv().is_ok());
    assert_eq!(
        router.delivery(&3, ping()).err(),
        Some(format!("CLI session {} not found", hyphenated(3)))
    );
}

#[test]
fn send_to_cli_hands_message_to_that_session_only() {
    let mut router: Router<u8> = Router::new();
    let (s1, mut rx1) = session("alpha");
    let (s2, mut rx2) = session("beta");
    router.register(1, s1);
    router.register(2, s2);
    assert_eq!(router.send_to_cli(&2, ping()), Ok(()));
    assert!(rx1.try_recv().is_err());
    assert_eq!(rx2.try_recv().expect("message delivered").msg_type, MsgType::Heartbeat);
}

#[test]
fn senders_registered_through_router_receive_results() {
    let mut router: Router<&'static str> = Router::new();
    router.register_sender("telegram", "tg-sender");
    router.register_sender("qq", "qq-sender");
    let (s1, _rx1) = session("alpha");
    router.register(7, s1);
    router.bind_conversation(7, "telegram", "1", "tg:1");
    router.bind_conversation(7, "qq", "2", "room");
    router.unregister_sender("telegram");
    let deliveries = router.dispatch_result(&7);
    assert_eq!(deliveries.len(), 2);
    assert_eq!(deliveries[0].1, None);
    assert_eq!(deliveries[1].1, Some(&"qq-sender"));
}

#[test]
fn dispatch_result_pairs_routes_with_senders() {
    let mut router: Router<&'static str> = Router::new();
    router.dispatcher.register("telegram", "tg-sender");
    let (s1, _rx1) = session("alpha");
    router.register(7, s1);
    router.bind_conversation(7, "telegram", "1", "tg:1");
    router.bind_conversation(7, "qq", "2", "room");
    let deliveries = router.dispatch_result(&7);
    assert_eq!(deliveries.len(), 2);
    assert_eq!(deliveries[0].0.conversation_id, "tg:1");
    assert_eq!(deliveries[0].1, Some(&"tg-sender"));
    assert_eq!(deliveries[1].0.platform, "qq");
    assert_eq!(deliveries[1].1, None);
}

#[test]
fn register_then_unregister_restores_router() {
    let mut router: Router<u8> = Router::new();
    let (s1, _rx1) = session("alpha");
    router.register(3, s1);
    router.bind_conversation(3, "qq", "u", "room");
    let (s2, _rx2) = session("beta");
    router.register(5, s2);
    router.unregister(&5);
    assert_eq!(router.pick_cli(), Some(3));
    assert_eq!(router.list_clients().len(), 1);
    assert_eq!(router.routes_for_session(&3).len(), 1);
    assert_eq!(router.route_to_cli("qq", "room", ping()), Ok(()));
}

#[test]
fn unregister_unknown_session_changes_nothing() {
    let mut router: Router<u8> = Router::new();
    let (s1, _rx1) = session("alpha");
    router.register(3, s1);
    router.bind_conversation(3, "qq", "u", "room");
    router.unregister(&99);
    assert_eq!(router.pick_cli(), Some(3));
    assert_eq!(router.routes_for_session(&3).len(), 1);
}
