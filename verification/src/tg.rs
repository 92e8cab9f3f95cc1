//! Telegram adapter logic: which updates carry messages, what a chat message asks for,
//! how it is routed to a CLI session, and what is sent back to the chat.
//!
//! The HTTP exchanges with the Telegram Bot API are made by the caller; this module
//! decides what to send and reads what came back.

use vstd::prelude::*;
use crate::assoc::lemma_to_map_entry;
use crate::external::{i64_to_string, parse_i64, trim, usize_to_string};
use crate::protocol::{assign_task_envelope, is_platform_task_envelope, TaskResult};
use crate::router::{send_failed_text, Router};
use crate::text::{int_decimal, lemma_parse_decimal, parse_i64_spec, trim_spec};

verus! {

/// Base URL of the Telegram Bot API; the bot token follows it.
pub const TG_API: &'static str = "https://api.telegram.org/bot";

/// Name under which conversations from Telegram are routed.
pub const TG_PLATFORM: &'static str = "telegram";

/// Reply to `/start` and `/help`.
pub const TG_HELP: &'static str = "\u{1F43E} *RingCLI - Telegram*\n\nSend any message to chat with the AI agent.\n\nCommands:\n/help  - Show this\n/status - Connection status\n\nMessages are routed to a connected RingCLI.";

/// Reply when no CLI session is connected.
pub const TG_NO_AGENT: &'static str = "No agent connected. Start RingCLI and connect first.";

/// Error for a conversation id that does not name a chat.
pub const INVALID_CHAT_ID: &'static str = "invalid chat_id";

pub struct TgChat {
    pub id: i64,
    pub chat_type: String,
}

pub struct TgUser {
    pub id: i64,
    pub first_name: Option<String>,
    pub username: Option<String>,
}

/// A chat message received from Telegram.
pub struct TgMessage {
    pub chat: TgChat,
    pub text: Option<String>,
    pub from: Option<TgUser>,
    pub message_id: i64,
}

/// One update of the Bot API.
pub struct TgUpdateItem {
    pub update_id: i64,
    pub message: Option<TgMessage>,
    pub edited_message: Option<TgMessage>,
}

/// A `getUpdates` answer.
pub struct TgUpdatesList {
    pub result: Vec<TgUpdateItem>,
}

/// Outgoing message to Telegram (`sendMessage`).
pub struct TgSendMessage {
    pub chat_id: i64,
    pub text: String,
    pub reply_to_message_id: Option<i64>,
}

/// What a chat message asks of the gateway.
#[derive(Debug, Clone, Copy, PartialEq, Eq, Structural)]
pub enum TgCommand {
    /// No text, or only white space: nothing to do.
    Ignore,
    /// `/start` or `/help`.
    Help,
    /// `/status` or `/ping`.
    Status,
    /// Anything else: a message for the agent.
    Forward,
}

pub open spec fn opt_text(t: Option<String>) -> Option<Seq<char>> {
    match t {
        Some(s) => Some(s@),
        None => None,
    }
}

pub open spec fn tg_command_spec(text: Option<Seq<char>>) -> TgCommand {
    match text {
        None => TgCommand::Ignore,
        Some(t) => if trim_spec(t).len() == 0 {
            TgCommand::Ignore
        } else if t == "/start"@ || t == "/help"@ {
            TgCommand::Help
        } else if t == "/status"@ || t == "/ping"@ {
            TgCommand::Status
        } else {
            TgCommand::Forward
        },
    }
}

/// Id of the conversation of a Telegram chat: `tg:<chat id>`.
pub open spec fn tg_conversation_spec(chat_id: i64) -> Seq<char> {
    "tg:"@ + int_decimal(chat_id as int)
}

/// Platform user id of a message's sender: the decimal user id, or empty when unknown.
pub open spec fn tg_user_spec(from: Option<TgUser>) -> Seq<char> {
    match from {
        Some(u) => int_decimal(u.id as int),
        None => Seq::empty(),
    }
}

/// Reply to `/status`, for `n` connected sessions.
pub open spec fn tg_status_spec(n: nat) -> Seq<char> {
    if n > 0 {
        "\u{2705} "@ + int_decimal(n as int) + " CLI connected"@
    } else {
        "\u{274C} No CLI connected"@
    }
}

/// The conversation id with a leading `tg:` removed, if it has one.
pub open spec fn strip_tg_spec(s: Seq<char>) -> Seq<char> {
    if s.len() >= 3 && s.take(3) == "tg:"@ {
        s.skip(3)
    } else {
        s
    }
}

/// The chat a conversation id names.
pub open spec fn chat_id_spec(conversation_id: Seq<char>) -> Result<i64, Seq<char>> {
    match parse_i64_spec(strip_tg_spec(conversation_id)) {
        Some(id) => Ok(id),
        None => Err(INVALID_CHAT_ID@),
    }
}

/// `r` is a plain message (not a reply) to chat `chat_id` with text `text`.
pub open spec fn is_message_to(r: Option<TgSendMessage>, chat_id: i64, text: Seq<char>) -> bool {
    r matches Some(m) && m.chat_id == chat_id && m.text@ == text && m.reply_to_message_id is None
}

fn text_is(t: &String, lit: &str) -> (b: bool)
    ensures
        b == (t@ == lit@),
{
    let l = lit.to_owned();
    *t == l
}

/// What a chat message's text asks for.
pub fn classify_tg_text(text: &Option<String>) -> (c: TgCommand)
    ensures
        c == tg_command_spec(opt_text(*text)),
        c == TgCommand::Ignore <==> (match *text {
            Some(t) => trim_spec(t@).len() == 0,
            None => true,
        }),
        (match *text {
            Some(t) => trim_spec(t@).len() > 0 && t@ != "/start"@ && t@ != "/help"@
                && t@ != "/status"@ && t@ != "/ping"@,
            None => false,
        }) ==> c == TgCommand::Forward,
{
    match text {
        None => TgCommand::Ignore,
        Some(t) => {
            let trimmed = trim(t.as_str());
            if trimmed.is_empty() {
                TgCommand::Ignore
            } else if text_is(t, "/start") || text_is(t, "/help") {
                TgCommand::Help
            } else if text_is(t, "/status") || text_is(t, "/ping") {
                TgCommand::Status
            } else {
                TgCommand::Forward
            }
        },
    }
}

/// Id of the conversation of a Telegram chat: `tg:<chat id>`.
pub fn tg_conversation_id(chat_id: i64) -> (s: String)
    ensures
        s@ == tg_conversation_spec(chat_id),
{
    let mut s = "tg:".to_owned();
    let digits = i64_to_string(chat_id);
    s.append(digits.as_str());
    s
}

/// Platform user id of a message's sender: the decimal user id, or empty when unknown.
pub fn tg_user_id(from: &Option<TgUser>) -> (s: String)
    ensures
        s@ == tg_user_spec(*from),
        match *from {
            Some(u) => parse_i64_spec(s@) == Some(u.id),
            None => s@.len() == 0,
        },
{
    proof {
        if from.is_some() {
            lemma_parse_decimal(from.unwrap().id);
        }
    }
    match from {
        Some(u) => i64_to_string(u.id),
        None => String::new(),
    }
}

/// Reply to `/status`, for `n` connected sessions.
pub fn tg_status_text(n: usize) -> (s: String)
    ensures
        s@ == tg_status_spec(n as nat),
{
    if n > 0 {
        let mut s = "\u{2705} ".to_owned();
        let digits = usize_to_string(n);
        s.append(digits.as_str());
        s.append(" CLI connected");
        s
    } else {
        "\u{274C} No CLI connected".to_owned()
    }
}

/// The chat that a conversation id names: the id after an optional `tg:`, read as an `i64`.
pub fn parse_chat_id(conversation_id: &str) -> (r: Result<i64, String>)
    ensures
        match chat_id_spec(conversation_id@) {
            Ok(id) => r == Ok::<i64, String>(id),
            Err(e) => r matches Err(x) && x@ == e,
        },
{
    let len = conversation_id.unicode_len();
    proof {
        reveal_strlit("tg:");
    }
    let has_prefix = len >= 3 && conversation_id.get_char(0) == 't' && conversation_id.get_char(1) == 'g'
        && conversation_id.get_char(2) == ':';
    let body = if has_prefix {
        assert(conversation_id@.take(3) =~= "tg:"@);
        conversation_id.substring_char(3, len)
    } else {
        proof {
            if conversation_id@.len() >= 3 && conversation_id@.take(3) == "tg:"@ {
                assert(conversation_id@[0] == conversation_id@.take(3)[0]);
                assert(conversation_id@[1] == conversation_id@.take(3)[1]);
                assert(conversation_id@[2] == conversation_id@.take(3)[2]);
            }
        }
        conversation_id
    };
    assert(body@ =~= strip_tg_spec(conversation_id@));
    match parse_i64(body) {
        Some(id) => Ok(id),
        None => Err(INVALID_CHAT_ID.to_owned()),
    }
}

/// The message an update carries: the new message, else the edited one.
pub fn update_message(update: TgUpdateItem) -> (m: Option<TgMessage>)
    ensures
        m == (if update.message is Some { update.message } else { update.edited_message }),
{
    match update.message {
        Some(m) => Some(m),
        None => update.edited_message,
    }
}

/// URL of a Bot API method for a bot token.
pub fn tg_method_url(token: &str, method: &str) -> (url: String)
    ensures
        url@ == TG_API@ + token@ + "/"@ + method@,
{
    let mut url = TG_API.to_owned();
    url.append(token);
    url.append("/");
    url.append(method);
    url
}

/// URL of the long-polling `getUpdates` call from `offset` on, waiting up to 30 seconds.
pub fn tg_get_updates_url(token: &str, offset: i64) -> (url: String)
    ensures
        url@ == TG_API@ + token@ + "/getUpdates?offset="@ + int_decimal(offset as int) + "&timeout=30"@,
{
    let mut url = TG_API.to_owned();
    url.append(token);
    url.append("/getUpdates?offset=");
    let digits = i64_to_string(offset);
    url.append(digits.as_str());
    url.append("&timeout=30");
    url
}

/// The `sendMessage` request for a text to a chat: its URL and its body.
pub fn tg_send_message_request(token: &str, chat_id: i64, text: &str, reply_to: Option<i64>) -> (r: (String, TgSendMessage))
    ensures
        r.0@ == TG_API@ + token@ + "/"@ + "sendMessage"@,
        r.1.chat_id == chat_id,
        r.1.text@ == text@,
        r.1.reply_to_message_id == reply_to,
{
    let url = tg_method_url(token, "sendMessage");
    (url, TgSendMessage { chat_id, text: text.to_owned(), reply_to_message_id: reply_to })
}

/// The `setWebhook` URL for a webhook address, or the HTTP error when none is given.
pub fn tg_set_webhook_request(token: &str, url: &str) -> (r: Result<String, (u16, String)>)
    ensures
        url@.len() == 0 ==> (r matches Err(e) && e.0 == 400 && e.1@ == "missing url"@),
        url@.len() > 0 ==> (r matches Ok(api) && api@ == TG_API@ + token@ + "/"@ + "setWebhook"@),
{
    if url.is_empty() {
        Err((400, "missing url".to_owned()))
    } else {
        Ok(tg_method_url(token, "setWebhook"))
    }
}

/// A batch of polled updates: the offset to poll from next, and the messages to handle.
pub struct TgPollBatch {
    pub next_offset: i64,
    pub messages: Vec<TgMessage>,
}

pub open spec fn update_message_spec(u: TgUpdateItem) -> Option<TgMessage> {
    if u.message is Some {
        u.message
    } else {
        u.edited_message
    }
}

/// Reads a `getUpdates` answer: each update moves the offset past its id, and each
/// update that carries a message yields it, in order.
pub fn poll_updates(offset: i64, updates: Vec<TgUpdateItem>) -> (b: TgPollBatch)
    requires
        forall|i: int| 0 <= i < updates@.len() ==> (#[trigger] updates@[i]).update_id < i64::MAX,
    ensures
        b.next_offset == (if updates@.len() == 0 { offset } else { (updates@.last().update_id + 1) as i64 }),
        b.messages@ == updates@.filter_map(|u: TgUpdateItem| update_message_spec(u)),
{
    let ghost all = updates@;
    let ghost f = |u: TgUpdateItem| update_message_spec(u);
    let start = offset;
    let mut offset = offset;
    let mut messages: Vec<TgMessage> = Vec::new();
    let mut rest = updates;
    let n = rest.len();
    let mut k: usize = 0;
    assert(messages@ =~= all.take(0).filter_map(f));
    while rest.len() > 0
        invariant
            k + rest@.len() == all.len(),
            all.len() == n,
            forall|j: int| 0 <= j < rest@.len() ==> #[trigger] rest@[j] == all[k + j],
            forall|i: int| 0 <= i < all.len() ==> (#[trigger] all[i]).update_id < i64::MAX,
            messages@ == all.take(k as int).filter_map(f),
            f == (|u: TgUpdateItem| update_message_spec(u)),
            k > 0 ==> offset == all[k - 1].update_id + 1,
            k == 0 ==> offset == start,
        decreases rest@.len(),
    {
        let ghost rest_before = rest@;
        let update = rest.remove(0);
        assert(update == all[k as int]);
        proof {
            all.lemma_filter_map_take_succ(f, k as int);
        }
        offset = update.update_id + 1;
        match update_message(update) {
            Some(m) => {
                messages.push(m);
            },
            None => {},
        }
        assert forall|j: int| 0 <= j < rest@.len() implies #[trigger] rest@[j] == all[k + 1 + j] by {
            assert(rest@[j] == rest_before[j + 1]);
        }
        k = k + 1;
    }
    assert(all.take(all.len() as int) =~= all);
    TgPollBatch { next_offset: offset, messages }
}

/// What to send back to a Telegram chat for a task result: the output text, and then the
/// error text prefixed with `Error: `; or the error when the conversation names no chat.
pub fn task_result_messages(conversation_id: &str, result: &TaskResult) -> (r: Result<(Option<TgSendMessage>, Option<TgSendMessage>), String>)
    ensures
        match chat_id_spec(conversation_id@) {
            Err(e) => r matches Err(x) && x@ == e,
            Ok(chat) => r matches Ok(msgs) && {
                &&& (match result.output {
                    Some(o) => is_message_to(msgs.0, chat, o.text@),
                    None => msgs.0 is None,
                })
                &&& (match result.error {
                    Some(e) => is_message_to(msgs.1, chat, "Error: "@ + e@),
                    None => msgs.1 is None,
                })
            },
        },
{
    let chat_id = match parse_chat_id(conversation_id) {
        Ok(id) => id,
        Err(e) => {
            return Err(e);
        },
    };
    let output = match &result.output {
        Some(o) => Some(TgSendMessage { chat_id, text: o.text.clone(), reply_to_message_id: None }),
        None => None,
    };
    let error = match &result.error {
        Some(e) => {
            let mut text = "Error: ".to_owned();
            text.append(e.as_str());
            Some(TgSendMessage { chat_id, text, reply_to_message_id: None })
        },
        None => None,
    };
    Ok((output, error))
}

/// The outcome of a sendMessage call, from what the HTTP exchange gave: the transport's
/// error, or the status and body of Telegram's answer. Any 2xx status is success.
pub fn tg_send_outcome(answer: Result<(u16, String), String>) -> (r: Result<(), String>)
    ensures
        match answer {
            Err(e) => r matches Err(x) && x@ == "tg send failed: "@ + e@,
            Ok((status, body)) => if 200 <= status && status <= 299 {
                r is Ok
            } else {
                r matches Err(x) && x@ == "tg api error: "@ + body@
            },
        },
{
    match answer {
        Err(e) => {
            let mut text = "tg send failed: ".to_owned();
            text.append(e.as_str());
            Err(text)
        },
        Ok((status, body)) => {
            if 200 <= status && status <= 299 {
                Ok(())
            } else {
                let mut text = "tg api error: ".to_owned();
                text.append(body.as_str());
                Err(text)
            }
        },
    }
}

impl<S> Router<S> {
    /// Handle a chat message from Telegram (webhook or long polling). Commands are answered
    /// directly; other text is bound to a CLI session and sent to it as a task, which is the
    /// only case that sends anything to a worker. Returns the message to send back to the
    /// chat, if any.
    pub fn handle_tg_message(&mut self, msg: TgMessage) -> (reply: Option<TgSendMessage>)
        requires
            old(self)@.wf(),
        ensures
            final(self)@.wf(),
            final(self).senders() == old(self).senders(),
            match tg_command_spec(opt_text(msg.text)) {
                TgCommand::Ignore => final(self)@ == old(self)@ && reply is None,
                TgCommand::Help => final(self)@ == old(self)@ && is_message_to(reply, msg.chat.id, TG_HELP@),
                TgCommand::Status => final(self)@ == old(self)@
                    && is_message_to(reply, msg.chat.id, tg_status_spec(old(self)@.sessions.len())),
                TgCommand::Forward => match old(self)@.pick() {
                    None => final(self)@ == old(self)@ && is_message_to(reply, msg.chat.id, TG_NO_AGENT@),
                    Some(sid) => {
                        &&& final(self)@ == old(self)@.bind(
                            sid,
                            TG_PLATFORM@,
                            tg_user_spec(msg.from),
                            tg_conversation_spec(msg.chat.id),
                        ).hand_off(sid, final(self)@.last_sent())
                        &&& is_platform_task_envelope(
                            final(self)@.last_sent(),
                            TG_PLATFORM@,
                            tg_user_spec(msg.from),
                            tg_conversation_spec(msg.chat.id),
                            match msg.text { Some(t) => t@, None => Seq::empty() },
                        )
                        &&& (reply is None || is_message_to(reply, msg.chat.id, "Error: "@ + send_failed_text()))
                    },
                },
            },
    {
        let chat_id = msg.chat.id;
        match classify_tg_text(&msg.text) {
            TgCommand::Ignore => None,
            TgCommand::Help => Some(TgSendMessage { chat_id, text: TG_HELP.to_owned(), reply_to_message_id: None }),
            TgCommand::Status => {
                let n = self.list_clients().len();
                Some(TgSendMessage { chat_id, text: tg_status_text(n), reply_to_message_id: None })
            },
            TgCommand::Forward => {
                let text = match &msg.text {
                    Some(t) => t.clone(),
                    None => String::new(),
                };
                let user_id = tg_user_id(&msg.from);
                let conv_id = tg_conversation_id(chat_id);
                let session_id = match self.pick_cli() {
                    Some(id) => id,
                    None => {
                        return Some(TgSendMessage { chat_id, text: TG_NO_AGENT.to_owned(), reply_to_message_id: None });
                    },
                };
                proof {
                    lemma_to_map_entry(self@.sessions, 0);
                }
                self.bind_conversation(session_id, TG_PLATFORM, user_id.as_str(), conv_id.as_str());
                let env = assign_task_envelope(TG_PLATFORM, user_id.as_str(), conv_id.as_str(), text.as_str());
                match self.send_to_cli(&session_id, env) {
                    Ok(()) => None,
                    Err(e) => {
                        let mut reply = "Error: ".to_owned();
                        reply.append(e.as_str());
                        Some(TgSendMessage { chat_id, text: reply, reply_to_message_id: None })
                    },
                }
            },
        }
    }
}

} // verus!
