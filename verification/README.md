# iotedge

The decision logic of an MQTT bridge and of the broker daemon's sidecars,
verified with Verus.

- `src/proto.rs` – the MQTT packet data the bridge handles (identifiers, QoS,
  PUBLISH, PUBACK, SUBSCRIBE) and their mathematical views.
- `src/packet_ids.rs` – the bit set that hands out packet identifiers in order.
- `src/queue.rs` – the per-broker queue of publications with its in-flight
  window; every operation is stated over `QueueView`.
- `src/bridge.rs` – topic translation and what the bridge sends for each
  packet received on either side.
- `src/sidecar.rs` – the sidecar registry and the shutdown plan once the
  server or a sidecar has ended.
- `src/authorization.rs`, `src/rules.rs` – the module authorizer and the
  forwarding rules.
- `app/` – the network side: TCP connections, the MQTT codec, tasks and the
  event loops that feed the library and send what it answers.
