# discord_rust_framework

A bot client for the Discord gateway.

- `src/` is the verified library: the JSON text of every frame the client
  sends (`json`, with `json_read` reading string literals back, `properties`, `gateway`, `identity`, `dispatch`, `api`),
  the priority queue of outgoing frames (`queue`, ordered by `order`),
  the trimming and comparison of event names (`text`), the session state
  and its decisions (`session`), and properties that span them (`laws`).
- `app/` connects the session to the network: the websocket to the gateway,
  the HTTP API, the worker pool and the heartbeat timer, and the serde
  forms of the frames it receives.
- `tests/` runs the library on concrete frames.
