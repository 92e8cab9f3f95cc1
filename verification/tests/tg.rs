use nekorca::protocol::{build_envelope, Direction, MsgType, Payload, TaskOutput, TaskResult, TaskStatus};
use nekorca::router::{CliSession, Router};
use nekorca::tg::{
    classify_tg_text, parse_chat_id, poll_updates, task_result_messages, tg_conversation_id,
    tg_get_updates_url, tg_method_url, tg_send_message_request, tg_send_outcome, tg_set_webhook_request, tg_status_text,
    tg_user_id, update_message, TgChat, TgCommand, TgMessage, TgUpdateItem, TgUser, TG_HELP, TG_NO_AGENT,
};

fn message(chat: i64, text: Option<&str>, from: Option<i64>) -> TgMessage {
    TgMessage {
        chat: TgChat { id: chat, chat_type: "private".to_string() },
        text: text.map(|t| t.to_string()),
        from: from.map(|id| TgUser { id, first_name: None, username: None }),
        message_id: 1,
    }
}

fn result(output: Option<&str>, error: Option<&str>) -> TaskResult {
    TaskResult {
        task_id: 5,
        status: TaskStatus::Completed,
        output: output.map(|t| TaskOutput { text: t.to_string(), actions: None, metadata: None }),
        error: error.map(|e| e.to_string()),
    }
}

#[test]
fn classify_commands() {
    assert_eq!(classify_tg_text(&None), TgCommand::Ignore);
    assert_eq!(classify_tg_text(&Some("   \t\n".to_string())), TgCommand::Ignore);
    assert_eq!(classify_tg_text(&Some("\u{3000}".to_string())), TgCommand::Ignore);
    assert_eq!(classify_tg_text(&Some("/start".to_string())), TgCommand::Help);
    assert_eq!(classify_tg_text(&Some("/help".to_string())), TgCommand::Help);
    assert_eq!(classify_tg_text(&Some("/status".to_string())), TgCommand::Status);
    assert_eq!(classify_tg_text(&Some("/ping".to_string())), TgCommand::Status);
    assert_eq!(classify_tg_text(&Some(" /help".to_string())), TgCommand::Forward);
    assert_eq!(classify_tg_text(&Some("hello".to_string())), TgCommand::Forward);
}

#[test]
fn conversation_and_user_ids() {
    assert_eq!(tg_conversation_id(42), "tg:42");
    assert_eq!(tg_conversation_id(-1001234567890), "tg:-1001234567890");
    assert_eq!(tg_user_id(&Some(TgUser { id: 77, first_name: None, username: None })), "77");
    assert_eq!(tg_user_id(&None), "");
}

#[test]
fn status_text_counts_clients() {
    assert_eq!(tg_status_text(0), "\u{274C} No CLI connected");
    assert_eq!(tg_status_text(3), "\u{2705} 3 CLI connected");
}

#[test]
fn chat_id_parsing() {
    assert_eq!(parse_chat_id("tg:42"), Ok(42));
    assert_eq!(parse_chat_id("-17"), Ok(-17));
    assert_eq!(parse_chat_id("tg:+5"), Ok(5));
    assert_eq!(parse_chat_id("tg:"), Err("invalid chat_id".to_string()));
    assert_eq!(parse_chat_id("tg:tg:1"), Err("invalid chat_id".to_string()));
    assert_eq!(parse_chat_id("qq:1"), Err("invalid chat_id".to_string()));
    assert_eq!(parse_chat_id("tg:9223372036854775808"), Err("invalid chat_id".to_string()));
}

#[test]
fn chat_id_roundtrip() {
    for chat in [0i64, 42, -42, i64::MAX, i64::MIN] {
        assert_eq!(parse_chat_id(&tg_conversation_id(chat)), Ok(chat));
    }
}

#[test]
fn urls() {
    assert_eq!(tg_method_url("TOKEN", "sendMessage"), "https://api.telegram.org/botTOKEN/sendMessage");
    assert_eq!(
        tg_get_updates_url("TOKEN", 12),
        "https://api.telegram.org/botTOKEN/getUpdates?offset=12&timeout=30"
    );
    let (url, body) = tg_send_message_request("T", 9, "hi", Some(3));
    assert_eq!(url, "https://api.telegram.org/botT/sendMessage");
    assert_eq!(body.chat_id, 9);
    assert_eq!(body.text, "hi");
    assert_eq!(body.reply_to_message_id, Some(3));
    assert_eq!(tg_set_webhook_request("T", ""), Err((400, "missing url".to_string())));
    assert_eq!(tg_set_webhook_request("T", "https://x"), Ok("https://api.telegram.org/botT/setWebhook".to_string()));
}

#[test]
fn update_prefers_new_message() {
    let u = TgUpdateItem { update_id: 1, message: Some(message(1, Some("a"), None)), edited_message: Some(message(1, Some("b"), None)) };
    assert_eq!(update_message(u).unwrap().text.as_deref(), Some("a"));
    let u = TgUpdateItem { update_id: 1, message: None, edited_message: Some(message(1, Some("b"), None)) };
    assert_eq!(update_message(u).unwrap().text.as_deref(), Some("b"));
    let u = TgUpdateItem { update_id: 1, message: None, edited_message: None };
    assert!(update_message(u).is_none());
}

#[test]
fn polling_advances_offset() {
    let updates = vec![
        TgUpdateItem { update_id: 10, message: Some(message(1, Some("a"), None)), edited_message: None },
        TgUpdateItem { update_id: 11, message: None, edited_message: None },
        TgUpdateItem { update_id: 12, message: None, edited_message: Some(message(2, Some("c"), None)) },
    ];
    let batch = poll_updates(0, updates);
    assert_eq!(batch.next_offset, 13);
    assert_eq!(batch.messages.len(), 2);
    assert_eq!(batch.messages[0].chat.id, 1);
    assert_eq!(batch.messages[1].chat.id, 2);
    let empty = poll_updates(13, Vec::new());
    assert_eq!(empty.next_offset, 13);
    assert!(empty.messages.is_empty());
}

#[test]
fn task_result_replies() {
    let (out, err) = task_result_messages("tg:42", &result(Some("done"), Some("boom"))).unwrap();
    let out = out.unwrap();
    assert_eq!((out.chat_id, out.text.as_str(), out.reply_to_message_id), (42, "done", None));
    let err = err.unwrap();
    assert_eq!((err.chat_id, err.text.as_str()), (42, "Error: boom"));
    let (out, err) = task_result_messages("42", &result(None, None)).unwrap();
    assert!(out.is_none() && err.is_none());
    assert_eq!(task_result_messages("room", &result(Some("x"), None)).err(), Some("invalid chat_id".to_string()));
}

#[test]
fn tg_commands_answered_directly() {
    let mut router: Router<u8> = Router::new();
    assert!(router.handle_tg_message(message(5, Some("  "), None)).is_none());
    assert!(router.handle_tg_message(message(5, None, None)).is_none());
    let help = router.handle_tg_message(message(5, Some("/help"), None)).unwrap();
    assert_eq!((help.chat_id, help.text.as_str()), (5, TG_HELP));
    let status = router.handle_tg_message(message(5, Some("/ping"), None)).unwrap();
    assert_eq!(status.text, "\u{274C} No CLI connected");
    let none = router.handle_tg_message(message(5, Some("hello"), Some(8))).unwrap();
    assert_eq!(none.text, TG_NO_AGENT);
    assert!(router.routes_for_session(&1).is_empty());
}

#[test]
fn tg_message_forwarded_as_task() {
    let mut router: Router<u8> = Router::new();
    let (s, mut rx) = CliSession::new("a".to_string(), "1".to_string(), vec![], vec![]);
    router.register(1, s);
    assert!(router.handle_tg_message(message(5, Some("hello"), Some(8))).is_none());
    let env = rx.try_recv().unwrap();
    assert_eq!(env.msg_type, MsgType::AssignTask);
    assert_eq!(env.direction, Direction::Downstream);
    match env.payload {
        Payload::AssignTask(t) => {
            assert_eq!(t.platform, "telegram");
            assert_eq!(t.platform_user_id, "8");
            assert_eq!(t.conversation_id, "tg:5");
            assert_eq!(t.message.text, "hello");
            assert!(t.message.attachments.is_none() && t.context.is_none());
        }
        _ => panic!("expected an AssignTask payload"),
    }
    let routes = router.routes_for_session(&1);
    assert_eq!(routes.len(), 1);
    assert_eq!(routes[0].conversation_id, "tg:5");
    let status = router.handle_tg_message(message(5, Some("/status"), None)).unwrap();
    assert_eq!(status.text, "\u{2705} 1 CLI connected");
}

#[test]
fn tg_forward_to_closed_session_reports_error() {
    let mut router: Router<u8> = Router::new();
    let (s, rx) = CliSession::new("a".to_string(), "1".to_string(), vec![], vec![]);
    router.register(1, s);
    drop(rx);
    let reply = router.handle_tg_message(message(5, Some("hello"), None)).unwrap();
    assert_eq!(reply.text, "Error: send failed: channel closed");
    assert_eq!(reply.chat_id, 5);
    let _ = build_envelope(MsgType::Heartbeat, Direction::Upstream, Payload::Json(serde_json::Value::Null));
}

#[test]
fn tg_commands_send_nothing_to_the_worker() {
    let mut router: Router<u8> = Router::new();
    let (s, mut rx) = CliSession::new("a".to_string(), "1".to_string(), vec![], vec![]);
    router.register(1, s);
    assert!(router.handle_tg_message(message(5, Some("   "), None)).is_none());
    let help = router.handle_tg_message(message(5, Some("/start"), None)).unwrap();
    assert!(help.text.contains("/help") && help.text.contains("/status"));
    assert!(help.reply_to_message_id.is_none());
    router.handle_tg_message(message(5, Some("/status"), None)).unwrap();
    assert!(rx.try_recv().is_err());
    assert!(router.routes_for_session(&1).is_empty());
}

#[test]
fn tg_forward_keeps_text_untrimmed() {
    let mut router: Router<u8> = Router::new();
    let (s, mut rx) = CliSession::new("a".to_string(), "1".to_string(), vec![], vec![]);
    router.register(1, s);
    assert!(router.handle_tg_message(message(9, Some("  hi  "), None)).is_none());
    match rx.try_recv().unwrap().payload {
        Payload::AssignTask(t) => {
            assert_eq!(t.message.text, "  hi  ");
            assert_eq!(t.platform_user_id, "");
            assert_eq!(t.conversation_id, "tg:9");
        }
        _ => panic!("expected an AssignTask payload"),
    }
}

#[test]
fn tg_send_outcomes() {
    assert_eq!(tg_send_outcome(Ok((200, "{}".to_string()))), Ok(()));
    assert_eq!(tg_send_outcome(Ok((299, String::new()))), Ok(()));
    assert_eq!(
        tg_send_outcome(Ok((400, "Bad Request: chat not found".to_string()))),
        Err("tg api error: Bad Request: chat not found".to_string())
    );
    assert_eq!(tg_send_outcome(Ok((302, "moved".to_string()))), Err("tg api error: moved".to_string()));
    assert_eq!(tg_send_outcome(Ok((199, String::new()))), Err("tg api error: ".to_string()));
    assert_eq!(
        tg_send_outcome(Err("connection refused".to_string())),
        Err("tg send failed: connection refused".to_string())
    );
}
