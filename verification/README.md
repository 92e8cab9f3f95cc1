# nekorca

Message gateway between chat platforms (Telegram, generic webhooks, apps) and
connected NekoCLI workers, written in Verus.

- `src/` is the verified library:
  - `router` — the routing table: connected CLI sessions, the route of each
    platform conversation (`platform/conversation_id`), and the keys each
    session bound; its abstract state is `RouterModel`, which also records
    every envelope handed to a session's channel.
  - `dispatcher` — the senders through which task results go back to platforms.
  - `protocol` — the wire protocol types and the envelopes the gateway builds.
  - `tg` — Telegram decisions: commands, conversation ids, polling, replies.
  - `session` — WebSocket decisions: admission, worker and app messages, and
    the routing of normalized webhook messages.
  - `laws` — properties spanning several operations.
  - `assoc`, `text` — association sequences and the text forms used.
  - `external` — the calls into `uuid`, `chrono`, `tokio` and `std` that the
    logic makes, each with the contract it is trusted to meet.
- `app/` is the server: HTTP and WebSocket plumbing (axum), the Telegram Bot
  API client (reqwest), JSON (serde), and the command line (clap).
