# supabase_realtime

A client for Supabase Realtime (the Phoenix Channels protocol over
WebSocket), with its protocol logic verified by Verus.

- `src/` is the verified library: event names, message framing, presence
  bookkeeping, the channel state (listeners, joining and leaving, pushes
  awaiting replies), the client state (message references, channel
  registry), the heartbeat and reconnection policies, backoff delays, and
  the HTTP broadcast request. Calls into `serde_json`, `url` and `uuid`
  stand behind small trusted wrappers whose contracts are stated in
  `json.rs`, `client.rs` and `push.rs`.
- `app/` drives the library over the network with `tokio`,
  `tokio-tungstenite` and `reqwest`: the read, heartbeat and reconnection
  tasks, listener queues, and the error type with its display texts.
- `tests/` runs the library on concrete values.
