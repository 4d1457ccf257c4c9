# ple7_vpn

The verified core of the PLE7 mesh VPN desktop client's control-plane link.

- `src/text.rs`: character sequences: Unicode trimming, prefixes, left-to-right
  replacement, decimal formatting.
- `src/json.rs`: the JSON model; serde_json parses and prints.
- `src/socketio.rs`: Socket.IO frames: decoding received events, encoding
  outgoing messages.
- `src/peers.rs`: peer endpoints by public key.
- `src/client.rs`: the connection's state machine and its supervisor.
- `src/logbuf.rs`: the bounded buffer of recent log lines and the line formats.
- `src/deeplink.rs`: `ple7://` links among the program's arguments.
- `app/`: the program around it: WebSocket I/O with tokio-tungstenite, tasks,
  the logger and start-up.
