# onionroute_gateway

Verified logic of the OnionRoute private gateway, written in Verus.

- `src/gateway/`: the gateway wire protocol: length-prefixed framing and its
  incremental decoder, version and capability negotiation, per-stream and
  connection flow control, the fair outbound scheduler, the session state
  machine and the client and server handshake steps.
- `src/daemon/`: the exit daemon's policy: configuration validation, the
  destination ACL, DNS message parsing and resolution policy, session and
  stream accounting, rate limiting and the circuit breaker, privacy events,
  egress decisions and the management endpoint's routing and responses.
- `src/multihop/`: entry and exit relay handshakes, replay protection, route
  selection and recovery, the per-session multiplexing queue and quotas.
- `src/mobile.rs`: the mobile client's state machine and its event records.
- `src/crypto.rs`, `src/text.rs`: the trusted boundary to SHA-256, HMAC,
  the system's random source and UTF-8 decoding.

Each public function states its result in its `ensures`; the laws that relate
several operations are public proof functions beside them.

`app/` is the daemon process: it reads the JSON configuration, validates it
with the library and serves the loopback management endpoint. It also holds
the daemon's frame I/O and the protobuf encoding of its frames, on copies of
the library's wire types that carry prost's derives.
