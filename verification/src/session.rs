//! Decisions of the WebSocket front ends: admitting a client, and answering the
//! messages of NekoCLI workers and of apps.

use vstd::prelude::*;
use crate::assoc::lemma_to_map_entry;
use crate::external::{new_uuid, uuid_to_string};
use crate::protocol::{
    assign_task_envelope, build_envelope, build_result_envelope, heartbeat_ack, is_heartbeat_ack,
    is_platform_task_envelope, is_task_envelope, AssignTask, Direction, Envelope, MsgType, Payload,
    Register, TaskResult, TaskStatus,
};
use crate::router::{send_failed_text, send_outcome, CliSession, Router};
use crate::text::{is_v4_uuid, uuid_text};

verus! {

/// Whether a client may connect: always when no token is expected, else when the token it
/// gave (none counting as empty) equals the expected one.
pub fn check_auth(expected: &Option<String>, provided: &Option<String>) -> (ok: bool)
    ensures
        ok == match expected {
            None => true,
            Some(e) => (match provided {
                Some(p) => p@,
                None => Seq::<char>::empty(),
            }) == e@,
        },
{
    match expected {
        None => true,
        Some(e) => match provided {
            Some(p) => *p == *e,
            None => {
                let empty = String::new();
                empty == *e
            },
        },
    }
}

/// The outcome of a connection's first text message, given how it parsed: its message type
/// and its payload read as a Register, or the reason the envelope did not parse.
pub fn register_from_first_message(frame: Result<(MsgType, Result<Register, String>), String>) -> (r: Result<Register, String>)
    ensures
        match frame {
            Err(e) => r matches Err(x) && x@ == "parse error: "@ + e@,
            Ok((t, p)) => if t != MsgType::Register {
                r matches Err(x) && x@ == "expected register as first message"@
            } else {
                match p {
                    Ok(reg) => r == Ok::<Register, String>(reg),
                    Err(e) => r matches Err(x) && x@ == "bad register payload: "@ + e@,
                }
            },
        },
{
    match frame {
        Err(e) => {
            let mut text = "parse error: ".to_owned();
            text.append(e.as_str());
            Err(text)
        },
        Ok((t, payload)) => match t {
            MsgType::Register => match payload {
                Ok(reg) => Ok(reg),
                Err(e) => {
                    let mut text = "bad register payload: ".to_owned();
                    text.append(e.as_str());
                    Err(text)
                },
            },
            _ => Err("expected register as first message".to_owned()),
        },
    }
}

/// The session of a registered worker, with a fresh channel (its receiving half beside it).
pub fn session_from_register(register: Register) -> (r: (CliSession, tokio::sync::mpsc::UnboundedReceiver<Envelope>))
    ensures
        r.0.client_id == register.client_id,
        r.0.version == register.version,
        r.0.capabilities == register.capabilities,
        r.0.labels@ == (match register.labels {
            Some(l) => l@,
            None => Seq::<String>::empty(),
        }),
{
    let labels = match register.labels {
        Some(l) => l,
        None => Vec::new(),
    };
    CliSession::new(register.client_id, register.version, register.capabilities, labels)
}

/// Platform name under which the conversations of an app are routed: `ringapp-<uuid>`.
pub fn app_platform_id(id: u128) -> (s: String)
    ensures
        s@ == "ringapp-"@ + uuid_text(id),
{
    let mut s = "ringapp-".to_owned();
    let text = uuid_to_string(id);
    s.append(text.as_str());
    s
}

/// A fresh platform name for a newly connected app.
pub fn new_app_platform_id() -> (s: String)
    ensures
        exists|id: u128| s@ == "ringapp-"@ + uuid_text(id),
        exists|id: u128| is_v4_uuid(id) && s@ == "ringapp-"@ + uuid_text(id),
{
    app_platform_id(new_uuid())
}

/// `e` is the TaskResult envelope (toward an app) that fails task `task_id` with `text`.
pub open spec fn is_failure_reply(e: Envelope, task_id: u128, text: Seq<char>) -> bool {
    &&& e.msg_type == MsgType::TaskResult
    &&& e.direction == Direction::Upstream
    &&& e.payload matches Payload::TaskResult(r) && {
        &&& r.task_id == task_id
        &&& r.status == TaskStatus::Failed
        &&& r.output is None
        &&& r.error matches Some(x) && x@ == text
    }
}

fn failure_reply(task_id: u128, text: String) -> (e: Envelope)
    ensures
        is_failure_reply(e, task_id, text@),
{
    build_result_envelope(task_id, TaskStatus::Failed, None, Some(text))
}

/// What became of a message from a NekoCLI worker.
pub enum CliOutcome {
    /// A heartbeat, answered with a HeartbeatAck sent to the worker; the send's outcome.
    HeartbeatAnswered(Result<(), String>),
    /// A task result, to be delivered along the worker's routes (see `dispatch_result`).
    Dispatch(TaskResult),
    /// A TaskResult whose payload did not read as one: nothing is done.
    ResultUnreadable,
    /// A second Register from a worker already registered.
    DuplicateRegister,
    /// A message type that workers do not send.
    Unhandled(MsgType),
}

/// What became of a message from an app. The envelopes are to be pushed back to the app.
pub enum AppOutcome {
    /// An AssignTask whose payload did not read as a task: its failure result.
    BadPayload(Envelope),
    /// No CLI session is connected: the task's failure result.
    NoWorker(Envelope),
    /// The task went to this CLI session.
    Routed(u128),
    /// The task could not be sent to the session picked for it: the task's failure result.
    ForwardFailed(u128, Envelope),
    /// A heartbeat, and its HeartbeatAck.
    HeartbeatAck(Envelope),
    /// A message type that apps do not send.
    Unhandled(MsgType),
}

impl<S> Router<S> {
    /// Handle a message received from a NekoCLI worker. `result` is the message's payload read
    /// as a TaskResult, if it reads as one. Only a heartbeat sends anything: its answer, to
    /// the worker's own channel.
    pub fn handle_cli_message(&mut self, env: Envelope, result: Option<TaskResult>, session_id: &u128) -> (o: CliOutcome)
        requires
            old(self)@.wf(),
        ensures
            final(self)@.wf(),
            final(self).senders() == old(self).senders(),
            match env.msg_type {
                MsgType::Heartbeat => {
                    &&& o matches CliOutcome::HeartbeatAnswered(r) && send_outcome(old(self)@, *session_id, r)
                    &&& if old(self)@.session_map().contains_key(*session_id) {
                        &&& final(self)@ == old(self)@.hand_off(*session_id, final(self)@.last_sent())
                        &&& is_heartbeat_ack(final(self)@.last_sent(), env.payload)
                    } else {
                        final(self)@ == old(self)@
                    }
                },
                MsgType::TaskResult => final(self)@ == old(self)@ && match result {
                    Some(x) => o == CliOutcome::Dispatch(x),
                    None => o is ResultUnreadable,
                },
                MsgType::Register => final(self)@ == old(self)@ && o is DuplicateRegister,
                t => final(self)@ == old(self)@ && o == CliOutcome::Unhandled(t),
            },
    {
        match env.msg_type {
            MsgType::Heartbeat => {
                let pong = heartbeat_ack(env.payload);
                CliOutcome::HeartbeatAnswered(self.send_to_cli(session_id, pong))
            },
            MsgType::TaskResult => match result {
                Some(x) => CliOutcome::Dispatch(x),
                None => CliOutcome::ResultUnreadable,
            },
            MsgType::Register => CliOutcome::DuplicateRegister,
            t => CliOutcome::Unhandled(t),
        }
    }

    /// Handle a message received from an app whose conversations are routed under `app_id`.
    /// `task` is the message's payload read as an AssignTask (or why it did not read), and
    /// `payload_task_id` the payload's `task_id`, if it has a readable one. Only a readable
    /// task with a worker to take it sends anything: the task, to that worker.
    pub fn handle_app_message(
        &mut self,
        env: Envelope,
        task: Result<AssignTask, String>,
        payload_task_id: Option<u128>,
        app_id: &str,
    ) -> (o: AppOutcome)
        requires
            old(self)@.wf(),
        ensures
            final(self)@.wf(),
            final(self).senders() == old(self).senders(),
            match env.msg_type {
                MsgType::AssignTask => match task {
                    Err(e) => final(self)@ == old(self)@ && (o matches AppOutcome::BadPayload(r)
                        && is_failure_reply(r, match payload_task_id { Some(id) => id, None => 0 }, "bad payload: "@ + e@)),
                    Ok(t) => match old(self)@.pick() {
                        None => final(self)@ == old(self)@ && (o matches AppOutcome::NoWorker(r)
                            && is_failure_reply(r, t.task_id, "no CLI worker connected"@)),
                        Some(sid) => {
                            &&& final(self)@ == old(self)@.bind(sid, app_id@, t.platform_user_id@, t.conversation_id@)
                                .hand_off(sid, final(self)@.last_sent())
                            &&& is_task_envelope(final(self)@.last_sent(), t)
                            &&& (o == AppOutcome::Routed(sid) || (o matches AppOutcome::ForwardFailed(s, r) && s == sid
                                && is_failure_reply(r, t.task_id, "forward failed: "@ + send_failed_text())))
                        },
                    },
                },
                MsgType::Heartbeat => final(self)@ == old(self)@ && (o matches AppOutcome::HeartbeatAck(r)
                    && is_heartbeat_ack(r, env.payload)),
                t => final(self)@ == old(self)@ && o == AppOutcome::Unhandled(t),
            },
    {
        match env.msg_type {
            MsgType::AssignTask => {
                let task = match task {
                    Ok(t) => t,
                    Err(e) => {
                        let task_id = match payload_task_id {
                            Some(id) => id,
                            None => 0,
                        };
                        let mut text = "bad payload: ".to_owned();
                        text.append(e.as_str());
                        return AppOutcome::BadPayload(failure_reply(task_id, text));
                    },
                };
                let task_id = task.task_id;
                let session_id = match self.pick_cli() {
                    Some(id) => id,
                    None => {
                        return AppOutcome::NoWorker(failure_reply(task_id, "no CLI worker connected".to_owned()));
                    },
                };
                proof {
                    lemma_to_map_entry(self@.sessions, 0);
                }
                self.bind_conversation(session_id, app_id, task.platform_user_id.as_str(), task.conversation_id.as_str());
                let forward = build_envelope(MsgType::AssignTask, Direction::Downstream, Payload::AssignTask(task));
                match self.send_to_cli(&session_id, forward) {
                    Ok(()) => AppOutcome::Routed(session_id),
                    Err(e) => {
                        let mut text = "forward failed: ".to_owned();
                        text.append(e.as_str());
                        AppOutcome::ForwardFailed(session_id, failure_reply(task_id, text))
                    },
                }
            },
            MsgType::Heartbeat => AppOutcome::HeartbeatAck(heartbeat_ack(env.payload)),
            t => AppOutcome::Unhandled(t),
        }
    }

    /// Route a normalized platform message to a CLI session: the HTTP status and body of
    /// the answer. Only a complete message with a worker to take it sends anything: its
    /// task, to that worker.
    pub fn route_platform_message(
        &mut self,
        platform: &str,
        platform_user_id: &str,
        conversation_id: &str,
        text: &str,
    ) -> (r: (u16, String))
        requires
            old(self)@.wf(),
        ensures
            final(self)@.wf(),
            final(self).senders() == old(self).senders(),
            if conversation_id@.len() == 0 || text@.len() == 0 {
                final(self)@ == old(self)@ && r.0 == 400 && r.1@ == "missing conversation_id or text"@
            } else {
                match old(self)@.pick() {
                    None => final(self)@ == old(self)@ && r.0 == 503 && r.1@ == "no connected CLI"@,
                    Some(sid) => {
                        &&& final(self)@ == old(self)@.bind(sid, platform@, platform_user_id@, conversation_id@)
                            .hand_off(sid, final(self)@.last_sent())
                        &&& is_platform_task_envelope(final(self)@.last_sent(), platform@, platform_user_id@, conversation_id@, text@)
                        &&& (r.0 == 200 && r.1@ == "routed"@ || r.0 == 503 && r.1@ == send_failed_text())
                    },
                }
            },
    {
        if conversation_id.is_empty() || text.is_empty() {
            return (400, "missing conversation_id or text".to_owned());
        }
        let session_id = match self.pick_cli() {
            Some(id) => id,
            None => {
                return (503, "no connected CLI".to_owned());
            },
        };
        proof {
            lemma_to_map_entry(self@.sessions, 0);
        }
        self.bind_conversation(session_id, platform, platform_user_id, conversation_id);
        let env = assign_task_envelope(platform, platform_user_id, conversation_id, text);
        match self.send_to_cli(&session_id, env) {
            Ok(()) => (200, "routed".to_owned()),
            Err(e) => (503, e),
        }
    }
}

} // verus!
