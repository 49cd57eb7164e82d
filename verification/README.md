# presence

A presence service. Devices report in by heartbeat, a key-value store remembers
them, and queries tell which devices are online and what they can do.

- `src/` is the library: what the service decides, verified with Verus. It does
  no I/O. A function says which request to send to the store next, and a further
  one takes the reply.
  - `heartbeat`, `expiry`, `devices`, `channel_status`, `metrics`, `counter` and
    `service` are the parts of the service;
  - `store`, `json`, `text` and `clock` are what they are made of;
  - `model` says what the writes and the time do to the store, and `laws` what
    holds of the service as a whole.
- `tests/` runs the library, among other things against a small store in memory.
- `app/` is the server around the library: routes, the connections to the store
  and to the broker, and the background tasks.

The calls that the proofs rest on without looking into them are those of
`serde_json` (`json::encode`, `json::decode`), `chrono` (`clock::now_rfc3339`)
and `uuid` (`service::fresh_uuid`).
