# flowsdk

A sans-I/O MQTT 3.1.1 / 5.0 client library, verified with Verus.

- `src/codec/` — the wire format: primitive fields, properties, every
  control packet (encoding and decoding), and a stream parser.
- `src/mqtt_client/` — client options, operation results, the state and
  request decisions of the blocking client, the protocol engine
  (`engine.rs`) and the I/O-free client around it, packet identifiers, the
  publication priority queue, the threaded client's worker state (held
  messages, pending subscriptions, reconnect backoff), and the
  configuration, events and completion decisions of the tokio client
  (`tokio_worker.rs`: which waiting request completes with which result,
  and when waiting requests fail).
- `src/grpc.rs`, `src/grpc_packets.rs`, `src/stream_payload.rs`, `src/relay.rs`,
  `src/relay_sessions.rs` — the protobuf form of properties and packets
  (MQTT 5 and 3.1.1) with the conversions both ways, relay stream
  messages and their MQTT bytes, the relay's routing of client packets, and
  the relay server's session table (a `DashMap` from client ids to session
  ids) with its stream and broker decisions.
- `src/ring_ops.rs`, `src/bench_stats.rs` — io_uring operation tagging and
  shutdown bookkeeping, and benchmark counters.
- `src/keyed.rs` — lists with distinct keys read as maps, shared by the
  worker's pending subscriptions, the tokio worker's waiters and the
  listing of the relay's session map.
- `app/` — the I/O around the library: the io_uring shutdown loop, the
  benchmark report, a blocking TCP driver for the I/O-free client, the
  blocking client's socket work, and the threaded client's worker thread.

The engine saves its session (`snapshot_session`: next packet identifier,
queued publications, requests awaiting acknowledgement) and takes a saved
session up in a fresh engine (`restore_session_state`); storing the snapshot
is the application's part. The library does not hold manual
acknowledgements or the reliability layer's byte limits and deadlines.

Contracts are stated over the views in each module (`PacketV`, `EngineV`,
…); laws that relate several operations are public proof functions whose
names begin with `law_`.
