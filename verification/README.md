# nesquic

Verified core of the nesquic QUIC measurement tools.

- `src/latency.rs`: the three-pass scan over a client and a server qlog that
  finds the client's first Initial packet sent and its receipt of the server's
  first 1-RTT packet (the two ends of the handshake latency);
  `src/latency_laws.rs` proves what such a span means.
- `src/qlog_file.rs`: qlog's JSON-SEQ reader on the files' bytes, the time
  order keys, and the two-stage measurement (client file, then server file).
- `src/metrics.rs`: the qlog file pattern and the line-protocol record.
- `src/client.rs`: the decisions of the neqo perf client (handshake events,
  request stream and its retry at the stream limit, response transfer).
- `src/drive.rs`: the event-loop state machine that drives a poll-based QUIC
  connection.
- `app/`: the I/O around the library: qlog file reading, sockets, timers and
  the neqo connection.
