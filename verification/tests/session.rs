use nekorca::protocol::{
    assign_task_envelope, build_result_envelope, error_envelope, heartbeat_ack, register_ack_envelope,
    task_result_envelope, AssignTask, Direction, Envelope, MsgType, Payload, Register, TaskMessage, TaskResult,
    TaskStatus,
};
use nekorca::router::{CliSession, Router};
use nekorca::session::{
    app_platform_id, check_auth, new_app_platform_id, register_from_first_message, session_from_register,
    AppOutcome, CliOutcome,
};

fn register(labels: Option<Vec<String>>) -> Register {
    Register {
        client_id: "cli-1".to_string(),
        version: "0.3".to_string(),
        capabilities: vec!["code".to_string()],
        labels,
        auth_token: Some("secret".to_string()),
    }
}

fn task(id: u128) -> AssignTask {
    AssignTask {
        task_id: id,
        platform: "ringapp".to_string(),
        platform_user_id: "u1".to_string(),
        conversation_id: "c1".to_string(),
        message: TaskMessage { text: "do it".to_string(), attachments: None },
        context: None,
    }
}

fn envelope(msg_type: MsgType) -> Envelope {
    Envelope { id: 1, msg_type, payload: Payload::Json(serde_json::Value::Null), timestamp: 0, direction: Direction::Upstream }
}

fn failure(env: &Envelope) -> (u128, String) {
    assert_eq!(env.msg_type, MsgType::TaskResult);
    assert_eq!(env.direction, Direction::Upstream);
    match &env.payload {
        Payload::TaskResult(r) => {
            assert_eq!(r.status, TaskStatus::Failed);
            assert!(r.output.is_none());
            (r.task_id, r.error.clone().unwrap())
        }
        _ => panic!("expected a TaskResult payload"),
    }
}

#[test]
fn auth_rules() {
    assert!(check_auth(&None, &None));
    assert!(check_auth(&None, &Some("x".to_string())));
    assert!(check_auth(&Some("t".to_string()), &Some("t".to_string())));
    assert!(!check_auth(&Some("t".to_string()), &Some("u".to_string())));
    assert!(!check_auth(&Some("t".to_string()), &None));
    assert!(check_auth(&Some(String::new()), &None));
}

#[test]
fn first_message_rules() {
    assert_eq!(register_from_first_message(Err("eof".to_string())).unwrap_err(), "parse error: eof");
    assert_eq!(
        register_from_first_message(Ok((MsgType::Heartbeat, Ok(register(None))))).unwrap_err(),
        "expected register as first message"
    );
    assert_eq!(
        register_from_first_message(Ok((MsgType::Register, Err("missing field".to_string())))).unwrap_err(),
        "bad register payload: missing field"
    );
    assert_eq!(register_from_first_message(Ok((MsgType::Register, Ok(register(None))))).unwrap().client_id, "cli-1");
}

#[test]
fn session_from_register_defaults_labels() {
    let (s, _rx) = session_from_register(register(None));
    assert_eq!(s.client_id, "cli-1");
    assert_eq!(s.version, "0.3");
    assert_eq!(s.capabilities, vec!["code".to_string()]);
    assert!(s.labels.is_empty());
    let (s, _rx) = session_from_register(register(Some(vec!["gpu".to_string()])));
    assert_eq!(s.labels, vec!["gpu".to_string()]);
}

#[test]
fn app_ids() {
    assert_eq!(app_platform_id(0), "ringapp-00000000-0000-0000-0000-000000000000");
    assert_eq!(app_platform_id(u128::MAX), "ringapp-ffffffff-ffff-ffff-ffff-ffffffffffff");
    let id = new_app_platform_id();
    assert!(id.starts_with("ringapp-"));
    assert_eq!(id.len(), 44);
}

#[test]
fn envelope_builders() {
    let e = assign_task_envelope("qq", "u", "c", "t");
    assert_eq!((e.msg_type, e.direction), (MsgType::AssignTask, Direction::Downstream));
    let e = register_ack_envelope(9, "0.1.0");
    match e.payload {
        Payload::RegisterAck(a) => {
            assert_eq!((a.session_id, a.heartbeat_interval_secs, a.server_version.as_str()), (9, 30, "0.1.0"))
        }
        _ => panic!("expected a RegisterAck payload"),
    }
    let e = error_envelope("auth_failed", "invalid auth token");
    assert_eq!((e.msg_type, e.direction), (MsgType::Error, Direction::Downstream));
    match e.payload {
        Payload::Error(x) => {
            assert_eq!((x.code.as_str(), x.message.as_str(), x.task_id), ("auth_failed", "invalid auth token", None))
        }
        _ => panic!("expected an Error payload"),
    }
    let e = build_result_envelope(4, TaskStatus::Cancelled, None, None);
    assert_eq!((e.msg_type, e.direction), (MsgType::TaskResult, Direction::Upstream));
    let r = TaskResult { task_id: 3, status: TaskStatus::Completed, output: None, error: None };
    let e = task_result_envelope(r);
    assert_eq!((e.msg_type, e.direction), (MsgType::TaskResult, Direction::Upstream));
    let mut body = serde_json::Map::new();
    body.insert("seq".to_string(), serde_json::Value::from(4));
    let e = heartbeat_ack(Payload::Json(serde_json::Value::Object(body)));
    assert_eq!((e.msg_type, e.direction), (MsgType::HeartbeatAck, Direction::Downstream));
    match e.payload {
        Payload::Json(v) => assert_eq!(v["seq"], 4),
        _ => panic!("expected the heartbeat's payload"),
    }
}

#[test]
fn cli_heartbeat_is_answered() {
    let mut router: Router<u8> = Router::new();
    let (s, mut rx) = CliSession::new("a".to_string(), "1".to_string(), vec![], vec![]);
    router.register(1, s);
    match router.handle_cli_message(envelope(MsgType::Heartbeat), None, &1) {
        CliOutcome::HeartbeatAnswered(r) => assert_eq!(r, Ok(())),
        _ => panic!("expected a heartbeat answer"),
    }
    assert_eq!(rx.try_recv().unwrap().msg_type, MsgType::HeartbeatAck);
}

#[test]
fn cli_heartbeat_echoes_payload_to_that_worker_only() {
    let mut router: Router<u8> = Router::new();
    let (s1, mut rx1) = CliSession::new("a".to_string(), "1".to_string(), vec![], vec![]);
    let (s2, mut rx2) = CliSession::new("b".to_string(), "1".to_string(), vec![], vec![]);
    router.register(1, s1);
    router.register(2, s2);
    let mut body = serde_json::Map::new();
    body.insert("seq".to_string(), serde_json::Value::from(7));
    let mut ping = envelope(MsgType::Heartbeat);
    ping.payload = Payload::Json(serde_json::Value::Object(body));
    assert!(matches!(router.handle_cli_message(ping, None, &2), CliOutcome::HeartbeatAnswered(Ok(()))));
    assert!(rx1.try_recv().is_err());
    let ack = rx2.try_recv().unwrap();
    assert_eq!((ack.msg_type, ack.direction), (MsgType::HeartbeatAck, Direction::Downstream));
    match ack.payload {
        Payload::Json(v) => assert_eq!(v["seq"], 7),
        _ => panic!("expected the heartbeat's payload"),
    }
    let unknown = router.handle_cli_message(envelope(MsgType::Heartbeat), None, &3);
    match unknown {
        CliOutcome::HeartbeatAnswered(Err(e)) => assert!(e.ends_with(" not found")),
        _ => panic!("expected a failed answer"),
    }
}

#[test]
fn cli_result_is_dispatched() {
    let mut router: Router<u8> = Router::new();
    router.register_sender("telegram", 3);
    let (s, mut rx) = CliSession::new("a".to_string(), "1".to_string(), vec![], vec![]);
    router.register(1, s);
    router.bind_conversation(1, "telegram", "u", "tg:1");
    let r = TaskResult { task_id: 3, status: TaskStatus::Completed, output: None, error: None };
    match router.handle_cli_message(envelope(MsgType::TaskResult), Some(r), &1) {
        CliOutcome::Dispatch(x) => {
            assert_eq!(x.task_id, 3);
            let d = router.dispatch_result(&1);
            assert_eq!(d.len(), 1);
            assert_eq!(d[0].0.conversation_id, "tg:1");
            assert_eq!(d[0].1, Some(&3));
        }
        _ => panic!("expected a dispatch"),
    }
    assert!(matches!(router.handle_cli_message(envelope(MsgType::TaskResult), None, &1), CliOutcome::ResultUnreadable));
    assert!(matches!(router.handle_cli_message(envelope(MsgType::Register), None, &1), CliOutcome::DuplicateRegister));
    assert!(matches!(
        router.handle_cli_message(envelope(MsgType::SessionEvent), None, &1),
        CliOutcome::Unhandled(MsgType::SessionEvent)
    ));
    // none of these sends anything to the worker
    assert!(rx.try_recv().is_err());
}

#[test]
fn app_task_routed_and_failures_reported() {
    let mut router: Router<u8> = Router::new();
    let out = router.handle_app_message(envelope(MsgType::AssignTask), Err("bad json".to_string()), Some(6), "ringapp-x");
    match out {
        AppOutcome::BadPayload(e) => assert_eq!(failure(&e), (6, "bad payload: bad json".to_string())),
        _ => panic!("expected a reply"),
    }
    let out = router.handle_app_message(envelope(MsgType::AssignTask), Err("bad".to_string()), None, "ringapp-x");
    match out {
        AppOutcome::BadPayload(e) => assert_eq!(failure(&e).0, 0),
        _ => panic!("expected a reply"),
    }
    let out = router.handle_app_message(envelope(MsgType::AssignTask), Ok(task(11)), None, "ringapp-x");
    match out {
        AppOutcome::NoWorker(e) => assert_eq!(failure(&e), (11, "no CLI worker connected".to_string())),
        _ => panic!("expected a reply"),
    }
    let (s, mut rx) = CliSession::new("a".to_string(), "1".to_string(), vec![], vec![]);
    router.register(1, s);
    let out = router.handle_app_message(envelope(MsgType::AssignTask), Ok(task(12)), None, "ringapp-x");
    assert!(matches!(out, AppOutcome::Routed(1)));
    let fwd = rx.try_recv().unwrap();
    assert_eq!((fwd.msg_type, fwd.direction), (MsgType::AssignTask, Direction::Downstream));
    match fwd.payload {
        Payload::AssignTask(t) => {
            assert_eq!(t.task_id, 12);
            assert_eq!((t.platform_user_id.as_str(), t.message.text.as_str()), ("u1", "do it"));
        }
        _ => panic!("expected the task"),
    }
    // other message types send nothing to the worker
    assert!(matches!(
        router.handle_app_message(envelope(MsgType::TaskResult), Ok(task(14)), None, "ringapp-x"),
        AppOutcome::Unhandled(MsgType::TaskResult)
    ));
    assert!(rx.try_recv().is_err());
    let routes = router.routes_for_session(&1);
    assert_eq!((routes[0].platform.as_str(), routes[0].conversation_id.as_str()), ("ringapp-x", "c1"));
    drop(rx);
    let out = router.handle_app_message(envelope(MsgType::AssignTask), Ok(task(13)), None, "ringapp-x");
    match out {
        AppOutcome::ForwardFailed(1, e) => assert_eq!(failure(&e), (13, "forward failed: send failed: channel closed".to_string())),
        _ => panic!("expected a reply"),
    }
    match router.handle_app_message(envelope(MsgType::Heartbeat), Err(String::new()), None, "ringapp-x") {
        AppOutcome::HeartbeatAck(e) => assert_eq!(e.msg_type, MsgType::HeartbeatAck),
        _ => panic!("expected a heartbeat answer"),
    }
    assert!(matches!(
        router.handle_app_message(envelope(MsgType::Error), Err(String::new()), None, "ringapp-x"),
        AppOutcome::Unhandled(MsgType::Error)
    ));
}

#[test]
fn platform_message_routing() {
    let mut router: Router<u8> = Router::new();
    assert_eq!(router.route_platform_message("qq", "u", "", "hi"), (400, "missing conversation_id or text".to_string()));
    assert_eq!(router.route_platform_message("qq", "u", "c", ""), (400, "missing conversation_id or text".to_string()));
    assert_eq!(router.route_platform_message("qq", "u", "c", "hi"), (503, "no connected CLI".to_string()));
    let (s, mut rx) = CliSession::new("a".to_string(), "1".to_string(), vec![], vec![]);
    router.register(1, s);
    assert_eq!(router.route_platform_message("qq", "u", "c", "hi"), (200, "routed".to_string()));
    match rx.try_recv().unwrap().payload {
        Payload::AssignTask(t) => {
            assert_eq!((t.platform.as_str(), t.platform_user_id.as_str(), t.conversation_id.as_str()), ("qq", "u", "c"));
            assert_eq!(t.message.text, "hi");
        }
        _ => panic!("expected the task"),
    }
    drop(rx);
    assert_eq!(router.route_platform_message("qq", "u", "c", "hi"), (503, "send failed: channel closed".to_string()));
}

#[test]
fn app_result_returns_to_app_sender() {
    let mut router: Router<u8> = Router::new();
    router.register_sender("telegram", 1);
    router.register_sender("ringapp-x", 9);
    let (s, _rx) = CliSession::new("a".to_string(), "1".to_string(), vec![], vec![]);
    router.register(4, s);
    assert!(matches!(
        router.handle_app_message(envelope(MsgType::AssignTask), Ok(task(20)), None, "ringapp-x"),
        AppOutcome::Routed(4)
    ));
    let d = router.dispatch_result(&4);
    assert_eq!(d.len(), 1);
    assert_eq!((d[0].0.platform.as_str(), d[0].0.conversation_id.as_str()), ("ringapp-x", "c1"));
    assert_eq!(d[0].1, Some(&9));
    router.unregister_sender("ringapp-x");
    assert_eq!(router.dispatch_result(&4)[0].1, None);
}
