use rtmp_server::connection::ConnectionState;
use rtmp_server::error::ProtocolError;
use rtmp_server::message::{CreateStream, Publish, RtmpMessage};
use rtmp_server::protocol::{
    ack_msg, band_msg, header_size_from_type, on_status_msg, result_msg, stream_begin_msg,
    ChunkBasicHeader,
};

/// Reads one message from `input` at `*pos` the way a connection reads
/// it from its socket: the basic header, the message header, then as
/// much payload as the chunk carries.
fn read_message(
    state: &mut ConnectionState,
    input: &[u8],
    pos: &mut usize,
) -> Result<RtmpMessage, ProtocolError> {
    let basic_header = ChunkBasicHeader::new(&input[*pos]);
    *pos += 1;
    let header_size = header_size_from_type(&basic_header)?;
    let header = input[*pos..*pos + header_size].to_vec();
    *pos += header_size;
    state.read_chunk_header(basic_header, &header)?;
    let msg_size = state.message_size();
    let msg = input[*pos..*pos + msg_size].to_vec();
    *pos += msg_size;
    state.receive_message(msg)
}

const CONNECT_DATA: &[u8] = &[
    2, 0, 0, 0, 0, 0, 4, 1, 0, 0, 0, 0, 0, 0, 16, 0, 3, 0, 0, 0, 0, 0, 179, 20, 0, 0, 0, 0, 2, 0,
    7, 99, 111, 110, 110, 101, 99, 116, 0, 63, 240, 0, 0, 0, 0, 0, 0, 3, 0, 3, 97, 112, 112, 2, 0,
    4, 108, 105, 118, 101, 0, 4, 116, 121, 112, 101, 2, 0, 10, 110, 111, 110, 112, 114, 105, 118,
    97, 116, 101, 0, 8, 102, 108, 97, 115, 104, 86, 101, 114, 2, 0, 31, 70, 77, 76, 69, 47, 51,
    46, 48, 32, 40, 99, 111, 109, 112, 97, 116, 105, 98, 108, 101, 59, 32, 70, 77, 83, 99, 47, 49,
    46, 48, 41, 0, 6, 115, 119, 102, 85, 114, 108, 2, 0, 30, 114, 116, 109, 112, 58, 47, 47, 49,
    57, 50, 46, 49, 54, 56, 46, 49, 46, 49, 49, 50, 58, 49, 57, 51, 53, 47, 108, 105, 118, 101, 0,
    5, 116, 99, 85, 114, 108, 2, 0, 30, 114, 116, 109, 112, 58, 47, 47, 49, 57, 50, 46, 49, 54,
    56, 46, 49, 46, 49, 49, 50, 58, 49, 57, 51, 53, 47, 108, 105, 118, 101, 0, 0, 9,
];

const ACK_DATA: &[u8] = &[66, 0, 0, 0, 0, 0, 4, 3, 0, 0, 12, 35];

#[test]
fn test_read_connect() {
    let mut conn = ConnectionState::new();
    let (message, _) = conn.read_message(CONNECT_DATA).expect("Failed to read message");
    let result: Result<(), ProtocolError> = match message {
        RtmpMessage::Connect(connect_message) => {
            assert_eq!(connect_message.connect_object.app, b"live".to_vec(), "App should be 'live'");
            assert_eq!(
                connect_message.connect_object.flash_ver,
                b"FMLE/3.0 (compatible; FMSc/1.0)".to_vec(),
                "Flash version should be 'FMLE/3.0 (compatible; FMSc/1.0)'"
            );
            assert_eq!(
                connect_message.connect_object.swf_url,
                b"rtmp://192.168.1.112:1935/live".to_vec(),
                "SWF URL should be 'rtmp://192.168.1.112:1935/live'"
            );
            assert_eq!(
                connect_message.connect_object.tc_url,
                b"rtmp://192.168.1.112:1935/live".to_vec(),
                "TC URL should be 'rtmp://192.168.1.112:1935/live'"
            );
            assert_eq!(
                connect_message.connect_object.stream_type,
                b"nonprivate".to_vec(),
                "Stream type should be 'nonprivate'"
            );
            assert_eq!(connect_message.id, 1, "ID should be 1");
            Ok(())
        }
        _ => Err(ProtocolError::UnknownMessageType),
    };
    assert!(result.is_ok());
}

#[test]
fn test_read_ack() {
    let mut conn = ConnectionState::new();
    let (message, _) = conn.read_message(ACK_DATA).expect("Failed to read message");
    let result: Result<(), ProtocolError> = match message {
        RtmpMessage::Acknowledgement(ack) => {
            assert_eq!(ack.sequence_number, 3107, "Sequence number should be 3107");
            Ok(())
        }
        _ => Err(ProtocolError::UnknownMessageType),
    };
    assert!(result.is_ok());
}

const CREATE_DATA: &[u8] = &[
    67, 0, 0, 0, 0, 0, 38, 20, 2, 0, 13, 114, 101, 108, 101, 97, 115, 101, 83, 116, 114, 101, 97,
    109, 0, 64, 0, 0, 0, 0, 0, 0, 0, 5, 2, 0, 9, 115, 116, 114, 101, 97, 109, 107, 101, 121, 67, 0,
    0, 0, 0, 0, 34, 20, 2, 0, 9, 70, 67, 80, 117, 98, 108, 105, 115, 104, 0, 64, 8, 0, 0, 0, 0, 0,
    0, 5, 2, 0, 9, 115, 116, 114, 101, 97, 109, 107, 101, 121, 67, 0, 0, 0, 0, 0, 25, 20, 2, 0, 12,
    99, 114, 101, 97, 116, 101, 83, 116, 114, 101, 97, 109, 0, 64, 16, 0, 0, 0, 0, 0, 0, 5,
];

#[test]
fn test_read_create() {
    let mut conn = ConnectionState::new();
    let (message, _) = conn.read_message(CREATE_DATA).expect("Failed to read message");
    let result: Result<(), ProtocolError> = match message {
        RtmpMessage::CreateStream(create_stream) => {
            assert_eq!(
                create_stream.command_name,
                b"createStream".to_vec(),
                "Command name should be 'createStream'"
            );
            assert_eq!(create_stream.transaction_id, 4, "Transaction ID should be 4");
            Ok(())
        }
        _ => Err(ProtocolError::UnknownMessageType),
    };
    assert!(result.is_ok());
}

#[test]
fn test_handle_connect() {
    let mut conn = ConnectionState::new();
    let (rtmp_message, _) = conn.read_message(CONNECT_DATA).expect("Failed to read message");
    if let RtmpMessage::Connect(_) = rtmp_message {
        let reply = conn.handle_message(rtmp_message).expect("Failed to handle connect message");
        assert_eq!(reply.outgoing, vec![ack_msg().unwrap().to_vec(), band_msg().unwrap()]);
        assert!(reply.await_message);
        // The client's acknowledgement is the message the server then reads.
        let (ack, _) = conn.read_message(ACK_DATA).expect("Failed to read message");
        assert!(matches!(ack, RtmpMessage::Acknowledgement(_)));
    } else {
        panic!("Expected a ConnectMessage but received {:?}", rtmp_message);
    }
}

#[test]
fn one_read_applies_set_chunk_size_and_uses_all_bytes() {
    let mut conn = ConnectionState::new();
    let (_, used) = conn.read_message(CONNECT_DATA).unwrap();
    assert_eq!(used, CONNECT_DATA.len());
    assert_eq!(conn.chunk_size, 4096);
    assert_eq!(conn.chunk_header.message_length, Some(0));
    // Step by step, the first message is Set Chunk Size itself.
    let mut state = ConnectionState::new();
    let mut pos = 0usize;
    match read_message(&mut state, CONNECT_DATA, &mut pos).unwrap() {
        RtmpMessage::SetChunkSize(m) => assert_eq!(m.chunk_size, 4096),
        other => panic!("{:?}", other),
    }
}

#[test]
fn one_read_passes_over_unanswered_messages() {
    let mut conn = ConnectionState::new();
    let (message, used) = conn.read_message(CREATE_DATA).unwrap();
    assert!(matches!(message, RtmpMessage::CreateStream(_)));
    assert_eq!(used, CREATE_DATA.len());
    // With only the first chunk at hand, releaseStream is what is read.
    let mut conn = ConnectionState::new();
    let (message, used) = conn.read_message(&CREATE_DATA[..46]).unwrap();
    assert!(matches!(message, RtmpMessage::ReleaseStream(_)));
    assert_eq!(used, 46);
}

#[test]
fn truncated_and_unreadable_input() {
    let mut conn = ConnectionState::new();
    assert_eq!(conn.read_message(&CREATE_DATA[..40]).unwrap_err(), ProtocolError::Truncated);
    assert_eq!(conn.chunk_size, 128);
    assert_eq!(conn.chunk_header, rtmp_server::protocol::ChunkMessageHeader::default());
    assert_eq!(conn.read_message(&[]).unwrap_err(), ProtocolError::Truncated);
    // A type 3 chunk on a fresh connection leaves the length unknown.
    assert!(!conn.can_read(&[0xc3, 1, 2]));
    assert!(conn.can_read(ACK_DATA));
    assert_eq!(
        conn.read_message(&[0x02, 0, 0, 0, 0, 0, 4, 2, 0, 0, 0, 0, 1, 2, 3, 4]).unwrap_err(),
        ProtocolError::UnknownMessageType
    );
}

#[test]
fn refused_chunk_keeps_its_header() {
    // After Set Chunk Size 4096, an Abort chunk (type 2) is refused; the
    // header it brought stays in force, with nothing counted off.
    let mut input = CONNECT_DATA[..16].to_vec();
    input.extend([0x02, 0, 0, 0, 0, 0, 4, 2, 0, 0, 0, 0, 1, 2, 3, 4]);
    let mut conn = ConnectionState::new();
    assert_eq!(conn.read_message(&input).unwrap_err(), ProtocolError::UnknownMessageType);
    assert_eq!(conn.chunk_size, 4096);
    assert_eq!(conn.chunk_header.message_type_id, Some(2));
    assert_eq!(conn.chunk_header.message_length, Some(4));
}

#[test]
fn acknowledgements_are_read_one_at_a_time() {
    let mut input = ACK_DATA.to_vec();
    input.extend([0x42, 0, 0, 0, 0, 0, 4, 3, 0, 0, 0, 5]);
    let mut conn = ConnectionState::new();
    match conn.read_message(&input).unwrap() {
        (RtmpMessage::Acknowledgement(ack), used) => {
            assert_eq!(ack.sequence_number, 3107);
            assert_eq!(used, ACK_DATA.len());
        }
        other => panic!("{:?}", other),
    }
    match conn.read_message(&input[ACK_DATA.len()..]).unwrap() {
        (RtmpMessage::Acknowledgement(ack), _) => assert_eq!(ack.sequence_number, 5),
        other => panic!("{:?}", other),
    }
}

#[test]
fn chunked_message_is_read_a_chunk_at_a_time() {
    // An audio message of 200 bytes: the first chunk carries 128 bytes,
    // a type 3 chunk the remaining 72.
    let mut input = vec![4u8, 0, 0, 0, 0, 0, 200, 8, 1, 0, 0, 0];
    input.extend(std::iter::repeat(7u8).take(128));
    input.push(0b1100_0100);
    input.extend(std::iter::repeat(9u8).take(72));
    let mut state = ConnectionState::new();
    let mut pos = 0usize;
    match read_message(&mut state, &input, &mut pos).unwrap() {
        RtmpMessage::AudioData(a) => {
            assert_eq!(a.stream_id, 1);
            assert_eq!(a.data, vec![7u8; 128]);
        }
        other => panic!("expected audio, got {:?}", other),
    }
    assert_eq!(state.chunk_header.message_length, Some(72));
    assert_eq!(state.chunk_header.stored_message_length, Some(200));
    match read_message(&mut state, &input, &mut pos).unwrap() {
        RtmpMessage::AudioData(a) => assert_eq!(a.data, vec![9u8; 72]),
        other => panic!("expected audio, got {:?}", other),
    }
    assert_eq!(state.chunk_header.message_length, Some(0));
    assert_eq!(pos, input.len());
}

#[test]
fn refused_message_leaves_the_state_unchanged() {
    // Type 2 (Abort) is not handled.
    let input = [2u8, 0, 0, 0, 0, 0, 4, 2, 0, 0, 0, 0, 0, 0, 0, 1];
    let mut state = ConnectionState::new();
    let basic = ChunkBasicHeader::new(&input[0]);
    state.read_chunk_header(basic, &input[1..12].to_vec()).unwrap();
    let before = state;
    assert_eq!(state.receive_message(input[12..16].to_vec()).unwrap_err(), ProtocolError::UnknownMessageType);
    assert_eq!(state.chunk_header, before.chunk_header);
}

#[test]
fn unknown_chunk_format_is_refused_and_keeps_the_header() {
    let mut state = ConnectionState::new();
    let basic = ChunkBasicHeader { fmt: 4, cs: 2 };
    assert_eq!(state.read_chunk_header(basic, &vec![]), Err(ProtocolError::UnknownChunkFormat));
    assert_eq!(state.chunk_header, rtmp_server::protocol::ChunkMessageHeader::default());
}

#[test]
fn set_chunk_size_changes_only_the_chunk_size() {
    let mut state = ConnectionState::new();
    assert_eq!(state.chunk_size, 128);
    let reply = state
        .handle_message(RtmpMessage::SetChunkSize(rtmp_server::message::SetChunkSizeMessage::new(4096)))
        .unwrap();
    assert!(reply.outgoing.is_empty());
    assert!(!reply.await_message);
    assert_eq!(state.chunk_size, 4096);
}

#[test]
fn publish_and_create_stream_replies() {
    let mut state = ConnectionState::new();
    let reply = state
        .handle_message(RtmpMessage::CreateStream(CreateStream {
            command_name: b"createStream".to_vec(),
            transaction_id: 4,
        }))
        .unwrap();
    let expected = result_msg(CreateStream { command_name: b"createStream".to_vec(), transaction_id: 4 }).unwrap();
    assert_eq!(reply.outgoing, vec![expected]);
    assert!(!reply.await_message);
    let publish = || Publish {
        command_name: b"publish".to_vec(),
        transaction_id: 5,
        stream_key: b"streamkey".to_vec(),
        publish_type: b"live".to_vec(),
    };
    let reply = state.handle_message(RtmpMessage::Publish(publish())).unwrap();
    assert_eq!(reply.outgoing, vec![stream_begin_msg().unwrap(), on_status_msg(publish()).unwrap()]);
    let reply = state
        .handle_message(RtmpMessage::Acknowledgement(rtmp_server::message::AcknowledgementMessage::new(1)))
        .unwrap();
    assert!(reply.outgoing.is_empty());
    assert_eq!(state.chunk_size, 128);
}
