//! Message gateway core: the routing table that binds platform conversations
//! to connected CLI sessions, the result dispatcher, the wire protocol types,
//! and the decision logic of the Telegram, webhook and WebSocket front ends.

pub mod assoc;
pub mod text;
pub mod external;
pub mod protocol;
pub mod dispatcher;
pub mod router;
pub mod laws;
pub mod tg;
pub mod session;
