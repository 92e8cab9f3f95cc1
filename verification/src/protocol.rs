//! Wire protocol between the gateway and its clients (NekoCLI workers and apps).
//!
//! Identifiers that travel as UUIDs are held here as their 128-bit value.
//! The payload of an envelope is typed when the gateway builds it and kept as
//! raw JSON when it arrives from a peer; the transport layer converts between
//! these and text.

use vstd::prelude::*;
use crate::external::{new_uuid, now_millis};

verus! {

/// Direction of a message.
#[derive(Debug, Clone, Copy, PartialEq, Eq, Structural)]
pub enum Direction {
    /// NekoCLI -> gateway
    Upstream,
    /// gateway -> NekoCLI
    Downstream,
}

/// Message type identifiers.
#[derive(Debug, Clone, Copy, PartialEq, Eq, Structural)]
pub enum MsgType {
    Register,
    RegisterAck,
    AssignTask,
    TaskResult,
    Heartbeat,
    HeartbeatAck,
    Error,
    SessionControl,
    SessionEvent,
}

/// Body of an envelope.
#[derive(Debug, Clone)]
pub enum Payload {
    RegisterAck(RegisterAck),
    AssignTask(AssignTask),
    TaskResult(TaskResult),
    Error(Error),
    /// A JSON value carried as it is, such as a payload received from a peer.
    Json(serde_json::Value),
}

/// Top-level envelope for all WebSocket messages.
#[derive(Debug, Clone)]
pub struct Envelope {
    pub id: u128,
    pub msg_type: MsgType,
    pub payload: Payload,
    pub timestamp: i64,
    pub direction: Direction,
}

/// Register: NekoCLI -> gateway.
#[derive(Debug, Clone)]
pub struct Register {
    pub client_id: String,
    pub version: String,
    pub capabilities: Vec<String>,
    pub labels: Option<Vec<String>>,
    pub auth_token: Option<String>,
}

#[derive(Debug, Clone)]
pub struct RegisterAck {
    pub session_id: u128,
    pub heartbeat_interval_secs: u64,
    pub server_version: String,
}

/// Task assigned from a platform user (gateway -> NekoCLI).
#[derive(Debug, Clone)]
pub struct AssignTask {
    pub task_id: u128,
    pub platform: String,
    pub platform_user_id: String,
    pub conversation_id: String,
    pub message: TaskMessage,
    pub context: Option<TaskContext>,
}

#[derive(Debug, Clone)]
pub struct TaskMessage {
    pub text: String,
    pub attachments: Option<Vec<Attachment>>,
}

#[derive(Debug, Clone)]
pub struct Attachment {
    pub name: String,
    pub mime: String,
    pub data: String,
    pub size: u64,
}

#[derive(Debug, Clone)]
pub struct TaskContext {
    pub history: Option<Vec<serde_json::Value>>,
    pub metadata: Option<serde_json::Value>,
}

/// Task result (NekoCLI -> gateway).
#[derive(Debug, Clone)]
pub struct TaskResult {
    pub task_id: u128,
    pub status: TaskStatus,
    pub output: Option<TaskOutput>,
    pub error: Option<String>,
}

#[derive(Debug, Clone, Copy, PartialEq, Eq, Structural)]
pub enum TaskStatus {
    Completed,
    Failed,
    Cancelled,
    RequiresAction,
}

#[derive(Debug, Clone)]
pub struct TaskOutput {
    pub text: String,
    pub actions: Option<Vec<String>>,
    pub metadata: Option<serde_json::Value>,
}

/// Heartbeat.
#[derive(Debug, Clone, Copy, PartialEq, Eq, Structural)]
pub struct Heartbeat {
    pub seq: u64,
}

/// Error.
#[derive(Debug, Clone)]
pub struct Error {
    pub code: String,
    pub message: String,
    pub task_id: Option<u128>,
}

/// Session control.
#[derive(Debug, Clone, Copy, PartialEq, Eq, Structural)]
pub struct SessionControl {
    pub action: SessionAction,
    pub session_id: Option<u128>,
}

#[derive(Debug, Clone, Copy, PartialEq, Eq, Structural)]
pub enum SessionAction {
    Create,
    Resume,
    Pause,
    Close,
}

/// Adapter-facing message from a platform.
#[derive(Debug, Clone)]
pub struct PlatformMessage {
    pub platform: String,
    pub platform_user_id: String,
    pub conversation_id: String,
    pub text: String,
    pub attachments: Option<Vec<Attachment>>,
}

/// Adapter-facing result to a platform.
#[derive(Debug, Clone)]
pub struct PlatformResult {
    pub conversation_id: String,
    pub text: String,
    pub error: Option<String>,
}


/// Seconds between heartbeats that the gateway asks of its clients.
pub const HEARTBEAT_INTERVAL_SECS: u64 = 30;

/// An envelope with a fresh id and the current time.
pub fn build_envelope(msg_type: MsgType, direction: Direction, payload: Payload) -> (e: Envelope)
    ensures
        e.msg_type == msg_type,
        e.direction == direction,
        e.payload == payload,
{
    Envelope { id: new_uuid(), msg_type, payload, timestamp: now_millis(), direction }
}

/// `t` is the task of a platform message: the given platform, user, conversation and
/// text, with no attachments and no context.
pub open spec fn is_platform_task(
    t: AssignTask,
    platform: Seq<char>,
    platform_user_id: Seq<char>,
    conversation_id: Seq<char>,
    text: Seq<char>,
) -> bool {
    &&& t.platform@ == platform
    &&& t.platform_user_id@ == platform_user_id
    &&& t.conversation_id@ == conversation_id
    &&& t.message.text@ == text
    &&& t.message.attachments is None
    &&& t.context is None
}

/// `e` carries, toward a worker, the task of a platform message.
pub open spec fn is_platform_task_envelope(
    e: Envelope,
    platform: Seq<char>,
    platform_user_id: Seq<char>,
    conversation_id: Seq<char>,
    text: Seq<char>,
) -> bool {
    &&& e.msg_type == MsgType::AssignTask
    &&& e.direction == Direction::Downstream
    &&& e.payload matches Payload::AssignTask(t)
        && is_platform_task(t, platform, platform_user_id, conversation_id, text)
}

/// `e` hands task `t` to a worker as it is.
pub open spec fn is_task_envelope(e: Envelope, t: AssignTask) -> bool {
    &&& e.msg_type == MsgType::AssignTask
    &&& e.direction == Direction::Downstream
    &&& e.payload == Payload::AssignTask(t)
}

/// `e` answers a heartbeat that carried `payload`.
pub open spec fn is_heartbeat_ack(e: Envelope, payload: Payload) -> bool {
    &&& e.msg_type == MsgType::HeartbeatAck
    &&& e.direction == Direction::Downstream
    &&& e.payload == payload
}

/// The AssignTask envelope (gateway -> NekoCLI) for a platform message, with a fresh task id.
pub fn assign_task_envelope(
    platform: &str,
    platform_user_id: &str,
    conversation_id: &str,
    text: &str,
) -> (e: Envelope)
    ensures
        is_platform_task_envelope(e, platform@, platform_user_id@, conversation_id@, text@),
{
    let task = AssignTask {
        task_id: new_uuid(),
        platform: platform.to_owned(),
        platform_user_id: platform_user_id.to_owned(),
        conversation_id: conversation_id.to_owned(),
        message: TaskMessage { text: text.to_owned(), attachments: None },
        context: None,
    };
    build_envelope(MsgType::AssignTask, Direction::Downstream, Payload::AssignTask(task))
}

/// The RegisterAck envelope that admits a client under `session_id`.
pub fn register_ack_envelope(session_id: u128, server_version: &str) -> (e: Envelope)
    ensures
        e.msg_type == MsgType::RegisterAck,
        e.direction == Direction::Downstream,
        e.payload matches Payload::RegisterAck(a) && a.session_id == session_id
            && a.heartbeat_interval_secs == HEARTBEAT_INTERVAL_SECS
            && a.server_version@ == server_version@,
{
    let ack = RegisterAck {
        session_id,
        heartbeat_interval_secs: HEARTBEAT_INTERVAL_SECS,
        server_version: server_version.to_owned(),
    };
    build_envelope(MsgType::RegisterAck, Direction::Downstream, Payload::RegisterAck(ack))
}

/// The Error envelope (gateway -> client) with a code and a message, for no task.
pub fn error_envelope(code: &str, message: &str) -> (e: Envelope)
    ensures
        e.msg_type == MsgType::Error,
        e.direction == Direction::Downstream,
        e.payload matches Payload::Error(x) && x.code@ == code@ && x.message@ == message@
            && x.task_id is None,
{
    let err = Error { code: code.to_owned(), message: message.to_owned(), task_id: None };
    build_envelope(MsgType::Error, Direction::Downstream, Payload::Error(err))
}

/// A TaskResult envelope (toward an app) built from its parts, as for error replies.
pub fn build_result_envelope(
    task_id: u128,
    status: TaskStatus,
    output: Option<TaskOutput>,
    error: Option<String>,
) -> (e: Envelope)
    ensures
        e.msg_type == MsgType::TaskResult,
        e.direction == Direction::Upstream,
        e.payload == Payload::TaskResult(TaskResult { task_id, status, output, error }),
{
    let result = TaskResult { task_id, status, output, error };
    build_envelope(MsgType::TaskResult, Direction::Upstream, Payload::TaskResult(result))
}

/// A TaskResult envelope (toward an app) carrying a result as it came from a worker.
pub fn task_result_envelope(result: TaskResult) -> (e: Envelope)
    ensures
        e.msg_type == MsgType::TaskResult,
        e.direction == Direction::Upstream,
        e.payload == Payload::TaskResult(result),
{
    build_envelope(MsgType::TaskResult, Direction::Upstream, Payload::TaskResult(result))
}

/// The HeartbeatAck envelope answering a heartbeat; it echoes the heartbeat's payload.
pub fn heartbeat_ack(payload: Payload) -> (e: Envelope)
    ensures
        is_heartbeat_ack(e, payload),
{
    build_envelope(MsgType::HeartbeatAck, Direction::Downstream, payload)
}

} // verus!
