# video_chat

The logic of a group video chat built on an SFU (selective forwarding unit),
verified with Verus.

- `src/` is the verified library: configuration and its validation, rooms and
  participants, the signaling messages and their protocol versions, the ICE
  server lists, SDP sanitizing, the server's room directory and per-connection
  session, track forwarding decisions (output track naming, payload type choice,
  parameter polling, renegotiation debouncing), subscriber tables, bandwidth
  estimate, simulcast layer choice, and the client's subscriptions, reconnection,
  keepalive and handling of incoming signaling and chat text.
- `tests/` runs the library on concrete values.
- `app/` is the program around it: the axum/webrtc SFU server and the browser
  side (web-sys peer connection, data channel, WebSocket, SQLite chat log, and the
  functions the extension's pages call). It serializes the library's values with
  serde copies of its types.
