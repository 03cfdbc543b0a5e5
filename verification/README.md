# rtmp_server

The protocol core of an RTMP server, verified with Verus.

- `src/protocol.rs`: chunk basic and message headers, how each chunk
  format inherits from the previous header, decoding a message payload
  into an `RtmpMessage`, the handshake (S0/S1/S2 and the C2 check), and the
  bytes of the server's replies (Window Acknowledgement Size, Set Peer
  Bandwidth with the connect `_result`, the createStream `_result`, Stream
  Begin, onStatus).
- `src/amf0.rs`: AMF0 values, their decoder and encoder, the conversion
  between AMF0 numbers (the bits of a double) and integers, and the proof
  that decoding gives back what was encoded.
- `src/message.rs`: the messages and command objects and their AMF0 form.
- `src/connection.rs`: what a connection keeps between chunks (the header
  in force and the chunk size), how it reads the next message from the
  bytes received, and what it answers to each message.
- `src/msg_type_id.rs`, `src/error.rs`: message type ids and errors.
- `app/lib.rs`: the TCP connection, which reads and writes the socket with
  tokio and leaves every decision to the library.
- `tests/`: scenarios over concrete bytes.
