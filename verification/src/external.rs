//! The outside crates that the gateway's logic calls, each behind a trusted
//! item whose contract says what the crate's source shows.

use vstd::prelude::*;
use crate::protocol::Envelope;
use crate::router::CliSession;
use crate::text::{int_decimal, is_v4_uuid, trim_spec, uuid_text, parse_i64_spec};

verus! {

/// A JSON document of `serde_json`, carried through the gateway unread.
#[verifier::external_type_specification]
#[verifier::external_body]
pub struct ExJsonValue(serde_json::Value);

/// `serde_json::Value`'s derived `Clone`. Nothing is claimed of the copy.
pub assume_specification[ <serde_json::Value as Clone>::clone ](v: &serde_json::Value) -> serde_json::Value;

/// Sending half of a `tokio` unbounded channel.
#[verifier::external_type_specification]
#[verifier::external_body]
#[verifier::reject_recursive_types(T)]
pub struct ExUnboundedSender<T>(tokio::sync::mpsc::UnboundedSender<T>);

/// Receiving half of a `tokio` unbounded channel.
#[verifier::external_type_specification]
#[verifier::external_body]
#[verifier::reject_recursive_types(T)]
pub struct ExUnboundedReceiver<T>(tokio::sync::mpsc::UnboundedReceiver<T>);

/// The error `tokio`'s `UnboundedSender::send` returns when the receiver is gone.
#[verifier::external_type_specification]
#[verifier::external_body]
#[verifier::reject_recursive_types(T)]
pub struct ExSendError<T>(tokio::sync::mpsc::error::SendError<T>);

/// `uuid::Uuid::new_v4`, as its 128-bit value. The value is random; its source sets the
/// version nibble to 4 and the two variant bits to `10`, and nothing more is claimed.
#[verifier::external_body]
pub(crate) fn new_uuid() -> (id: u128)
    ensures
        is_v4_uuid(id),
{
    uuid::Uuid::new_v4().as_u128()
}

/// `chrono::Utc::now().timestamp_millis()`: the current time. Nothing is claimed of it.
#[verifier::external_body]
pub(crate) fn now_millis() -> (ms: i64) {
    chrono::Utc::now().timestamp_millis()
}

/// `uuid::Uuid`'s `Display` (lower-case hyphenated form) of `Uuid::from_u128(id)`:
/// the 32 hexadecimal digits of `id`, most significant first, in groups 8-4-4-4-12.
#[verifier::external_body]
pub(crate) fn uuid_to_string(id: u128) -> (s: String)
    ensures
        s@ == uuid_text(id),
{
    uuid::Uuid::from_u128(id).to_string()
}

/// `tokio::sync::mpsc::unbounded_channel`: a fresh channel, both halves returned.
#[verifier::external_body]
pub(crate) fn unbounded_channel() -> (pair: (
    tokio::sync::mpsc::UnboundedSender<Envelope>,
    tokio::sync::mpsc::UnboundedReceiver<Envelope>,
)) {
    tokio::sync::mpsc::unbounded_channel::<Envelope>()
}

/// `tokio`'s `UnboundedSender::send` on the channel of `session` (its `tx`): the envelope is
/// handed to that channel and no other, which the session's record of handed envelopes
/// shows; nothing else of the session changes. Whether the send succeeds depends on whether
/// the receiving half is still alive, which nothing here can see: no outcome is promised.
#[verifier::external_body]
pub(crate) fn channel_send(
    session: &mut CliSession,
    msg: Envelope,
) -> (r: Result<(), tokio::sync::mpsc::error::SendError<Envelope>>)
    ensures
        *final(session) == (CliSession { received: Ghost(old(session).received@.push(msg)), ..*old(session) }),
{
    session.tx.send(msg)
}

/// The `Display` text of `tokio`'s `SendError`, which its source writes as "channel closed".
#[verifier::external_body]
pub(crate) fn send_error_to_string(e: &tokio::sync::mpsc::error::SendError<Envelope>) -> (s: String)
    ensures
        s@ == "channel closed"@,
{
    e.to_string()
}

/// `i64`'s `Display`: decimal digits, with a leading '-' for a negative value.
#[verifier::external_body]
pub(crate) fn i64_to_string(i: i64) -> (s: String)
    ensures
        s@ == int_decimal(i as int),
{
    i.to_string()
}

/// `usize`'s `Display`: decimal digits.
#[verifier::external_body]
pub(crate) fn usize_to_string(n: usize) -> (s: String)
    ensures
        s@ == int_decimal(n as int),
{
    n.to_string()
}

/// `str::parse::<i64>`: an optional sign followed by one or more ASCII digits whose value
/// fits in `i64`; anything else is an error.
#[verifier::external_body]
pub(crate) fn parse_i64(s: &str) -> (r: Option<i64>)
    ensures
        r == parse_i64_spec(s@),
{
    s.parse::<i64>().ok()
}

/// `str::trim`: the text without its leading and trailing Unicode white space.
#[verifier::external_body]
pub(crate) fn trim(s: &str) -> (r: &str)
    ensures
        r@ == trim_spec(s@),
{
    s.trim()
}

} // verus!
