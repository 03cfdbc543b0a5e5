//! An RTMP server's protocol core: chunk headers, message decoding, AMF0
//! values, the handshake and the replies a server sends, each with a
//! contract that Verus proves.

pub mod amf0;
pub mod connection;
pub mod error;
pub mod message;
pub mod msg_type_id;
pub mod protocol;
