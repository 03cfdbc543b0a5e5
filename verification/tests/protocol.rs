use rtmp_server::amf0::{amf_number_to_u32, decode_values, AmfScalar, AmfValue};
use rtmp_server::error::ProtocolError;
use rtmp_server::message::{CreateStream, Publish, RtmpMessage};
use rtmp_server::msg_type_id;
use rtmp_server::protocol::{
    ack_msg, band_msg, check_c2, header_size_from_type, on_status_msg, parse_message, read_header,
    result_msg, s_chunk, server_handshake, stream_begin_msg, ChunkBasicHeader, ChunkMessageHeader,
    DEFAULT_CHUNK_SIZE, HANDSHAKE_CHUNK_SIZE,
};

fn amf_string(s: &str) -> Vec<u8> {
    let mut v = vec![2u8, (s.len() / 256) as u8, (s.len() % 256) as u8];
    v.extend_from_slice(s.as_bytes());
    v
}

fn amf_number(x: f64) -> Vec<u8> {
    let mut v = vec![0u8];
    v.extend_from_slice(&x.to_bits().to_be_bytes());
    v
}

fn amf_key(s: &str) -> Vec<u8> {
    let mut v = vec![(s.len() / 256) as u8, (s.len() % 256) as u8];
    v.extend_from_slice(s.as_bytes());
    v
}

fn header_with(
    msg_type: u8,
    len: usize,
    stream_id: [u8; 4],
    basic: u8,
) -> Vec<u8> {
    let mut v = vec![basic, 0, 0, 0, (len >> 16) as u8, (len >> 8) as u8, len as u8, msg_type];
    v.extend_from_slice(&stream_id);
    v
}

fn header0(bytes: [u8; 11]) -> ChunkMessageHeader {
    ChunkMessageHeader::type0(&bytes)
}

#[test]
fn basic_header_splits_format_and_stream() {
    let h = ChunkBasicHeader::new(&0b0100_0011);
    assert_eq!((h.fmt, h.cs), (1, 3));
    let h = ChunkBasicHeader::new(&0xff);
    assert_eq!((h.fmt, h.cs), (3, 63));
    let h = ChunkBasicHeader::new(&2);
    assert_eq!((h.fmt, h.cs), (0, 2));
}

#[test]
fn header_sizes_by_format() {
    let sizes: Vec<usize> = (0u8..4)
        .map(|fmt| header_size_from_type(&ChunkBasicHeader { fmt, cs: 3 }).unwrap())
        .collect();
    assert_eq!(sizes, vec![11, 7, 3, 0]);
    assert_eq!(
        header_size_from_type(&ChunkBasicHeader { fmt: 4, cs: 3 }),
        Err(ProtocolError::UnknownChunkFormat)
    );
}

#[test]
fn type0_reads_stream_id_least_significant_first() {
    let h = header0([0, 1, 2, 0, 0, 200, 9, 1, 0, 0, 0]);
    assert_eq!(h.timestamp, Some(258));
    assert_eq!(h.timestamp_delta, None);
    assert_eq!(h.message_length, Some(200));
    assert_eq!(h.stored_message_length, Some(200));
    assert_eq!(h.message_type_id, Some(9));
    assert_eq!(h.message_stream_id, Some(1));
}

#[test]
fn type1_type2_type3_inherit_from_the_previous_header() {
    let prev = header0([0, 0, 7, 0, 1, 0, 8, 5, 0, 0, 0]);
    let h1 = read_header(&vec![0, 0, 3, 0, 0, 10, 9], ChunkBasicHeader { fmt: 1, cs: 4 }, prev)
        .unwrap();
    assert_eq!(h1.timestamp, Some(7));
    assert_eq!(h1.timestamp_delta, Some(3));
    assert_eq!(h1.message_length, Some(10));
    assert_eq!(h1.message_type_id, Some(9));
    assert_eq!(h1.message_stream_id, Some(5));
    let h2 = read_header(&vec![0, 0, 4], ChunkBasicHeader { fmt: 2, cs: 4 }, h1).unwrap();
    assert_eq!(h2.timestamp, Some(7));
    assert_eq!(h2.timestamp_delta, Some(4));
    assert_eq!(h2.message_length, Some(10));
    assert_eq!(h2.stored_message_length, None);
    assert_eq!(h2.message_type_id, Some(9));
    assert_eq!(h2.message_stream_id, Some(5));
    let h3 = read_header(&vec![], ChunkBasicHeader { fmt: 3, cs: 4 }, h2).unwrap();
    assert_eq!(h3, h2);
    assert_eq!(
        read_header(&vec![], ChunkBasicHeader { fmt: 7, cs: 4 }, h2),
        Err(ProtocolError::UnknownChunkFormat)
    );
    assert_eq!(ChunkMessageHeader::type3(), ChunkMessageHeader::default());
    let h = ChunkMessageHeader::type2(&[1, 2, 3]);
    assert_eq!(h.timestamp_delta, Some(0x010203));
    assert_eq!(h.message_length, None);
}

#[test]
fn written_header_reads_back_with_swapped_stream_id() {
    // on_status_msg writes stream id 1 most significant byte first ...
    let msg = on_status_msg(Publish {
        command_name: b"publish".to_vec(),
        transaction_id: 1,
        stream_key: b"k".to_vec(),
        publish_type: b"live".to_vec(),
    })
    .unwrap();
    assert_eq!(&msg[8..12], &[0, 0, 0, 1]);
    // ... and a type 0 header reads it least significant byte first.
    let h = ChunkMessageHeader::type0(&msg[1..12]);
    assert_eq!(h.message_stream_id, Some(0x0100_0000));
    assert_eq!(h.message_type_id, Some(20));
    assert_eq!(h.message_length, Some((msg.len() - 12) as u32));
    assert_eq!(h.timestamp, Some(0));
}

#[test]
fn ack_msg_bytes() {
    assert_eq!(ack_msg().unwrap(), [2, 0, 0, 0, 0, 0, 4, 5, 0, 0, 0, 0, 0, 0, 16, 0]);
}

#[test]
fn band_msg_bytes() {
    let mut body = amf_string("_result");
    body.extend(amf_number(1.0));
    body.push(3);
    body.extend(amf_key("fmsVer"));
    body.extend(amf_string("FMS/3,0,1,123"));
    body.extend(amf_key("capabilities"));
    body.extend(amf_number(31.0));
    body.extend([0, 0, 9]);
    body.extend(amf_number(0.0));
    let mut expected = vec![2u8, 0, 0, 0, 0, 0, 5, 6, 0, 0, 0, 0, 0, 0, 16, 0, 2];
    expected.extend(header_with(20, body.len(), [0, 0, 0, 0], 2));
    expected.extend(body);
    assert_eq!(band_msg().unwrap(), expected);
}

#[test]
fn result_msg_bytes() {
    let msg = CreateStream { command_name: b"createStream".to_vec(), transaction_id: 4 };
    let mut body = amf_string("_result");
    body.extend(amf_number(4.0));
    body.push(5);
    body.extend(amf_number(1.0));
    let mut expected = header_with(20, body.len(), [0, 0, 0, 0], 3);
    expected.extend(body);
    assert_eq!(result_msg(msg).unwrap(), expected);
}

#[test]
fn stream_begin_msg_bytes() {
    assert_eq!(
        stream_begin_msg().unwrap(),
        vec![2, 0, 0, 0, 0, 0, 6, 4, 0, 0, 0, 0, 0, 0, 0, 0, 0, 1]
    );
}

#[test]
fn on_status_msg_bytes() {
    let msg = Publish {
        command_name: b"publish".to_vec(),
        transaction_id: 5,
        stream_key: b"streamkey".to_vec(),
        publish_type: b"live".to_vec(),
    };
    let mut body = amf_string("onStatus");
    body.extend(amf_number(5.0));
    body.push(5);
    body.push(3);
    body.extend(amf_key("level"));
    body.extend(amf_string("status"));
    body.extend(amf_key("code"));
    body.extend(amf_string("NetStream.Publish.Start"));
    body.extend(amf_key("description"));
    body.extend(amf_string("Start publishing"));
    body.extend([0, 0, 9]);
    let mut expected = header_with(20, body.len(), [0, 0, 0, 1], 3);
    expected.extend(body);
    assert_eq!(on_status_msg(msg).unwrap(), expected);
}

fn with_type(t: u8) -> ChunkMessageHeader {
    ChunkMessageHeader { message_type_id: Some(t), message_stream_id: Some(1), ..ChunkMessageHeader::default() }
}

#[test]
fn set_chunk_size_and_ack_ignore_the_top_bit() {
    match parse_message(with_type(msg_type_id::SET_CHUNK_SIZE), vec![0x80, 0, 0x10, 0]).unwrap() {
        RtmpMessage::SetChunkSize(m) => assert_eq!(m.chunk_size, 4096),
        other => panic!("{:?}", other),
    }
    match parse_message(with_type(msg_type_id::ACKNOWLEDGEMENT), vec![0xff, 0xff, 0xff, 0xff]).unwrap() {
        RtmpMessage::Acknowledgement(m) => assert_eq!(m.sequence_number, 0x7fff_ffff),
        other => panic!("{:?}", other),
    }
}

#[test]
fn audio_and_video_carry_their_payload() {
    match parse_message(with_type(msg_type_id::AUDIO), vec![0xaf, 1, 2]).unwrap() {
        RtmpMessage::AudioData(a) => {
            assert_eq!(a.stream_id, 1);
            assert_eq!(a.data, vec![0xaf, 1, 2]);
        }
        other => panic!("{:?}", other),
    }
    match parse_message(with_type(msg_type_id::VIDEO), vec![0x17]).unwrap() {
        RtmpMessage::VideoData(v) => assert_eq!(v.data, vec![0x17]),
        other => panic!("{:?}", other),
    }
}

#[test]
fn unhandled_types_are_refused() {
    for t in [
        msg_type_id::ABORT,
        msg_type_id::USER_CONTROL_EVENT,
        msg_type_id::WIN_ACKNOWLEDGEMENT_SIZE,
        msg_type_id::SET_PEER_BANDWIDTH,
        msg_type_id::COMMAND_AMF3,
        msg_type_id::DATA_AMF3,
        msg_type_id::SHARED_OBJ_AMF3,
        msg_type_id::SHARED_OBJ_AMF0,
        msg_type_id::AGGREGATE,
        99,
    ] {
        assert_eq!(
            parse_message(with_type(t), vec![0, 0, 0, 0]).unwrap_err(),
            ProtocolError::UnknownMessageType
        );
    }
    assert_eq!(
        parse_message(ChunkMessageHeader::default(), vec![]).unwrap_err(),
        ProtocolError::UnknownMessageType
    );
}

#[test]
fn unknown_commands_and_data_are_refused() {
    let mut play = amf_string("play");
    play.extend(amf_number(4.0));
    assert_eq!(
        parse_message(with_type(msg_type_id::COMMAND_AMF0), play).unwrap_err(),
        ProtocolError::UnknownCommand
    );
    let on_meta = amf_string("onMetaData");
    assert_eq!(
        parse_message(with_type(msg_type_id::DATA_AMF0), on_meta).unwrap_err(),
        ProtocolError::UnknownData
    );
    assert_eq!(
        parse_message(with_type(msg_type_id::COMMAND_AMF0), vec![2, 0, 9, b'c']).unwrap_err(),
        ProtocolError::MalformedAmf
    );
    let mut connect_without_object = amf_string("connect");
    connect_without_object.extend(amf_number(1.0));
    connect_without_object.push(5);
    assert_eq!(
        parse_message(with_type(msg_type_id::COMMAND_AMF0), connect_without_object).unwrap_err(),
        ProtocolError::MalformedAmf
    );
}

#[test]
fn publish_and_set_data_frame_are_read() {
    let mut publish = amf_string("publish");
    publish.extend(amf_number(5.0));
    publish.push(5);
    publish.extend(amf_string("streamkey"));
    publish.extend(amf_string("live"));
    match parse_message(with_type(msg_type_id::COMMAND_AMF0), publish).unwrap() {
        RtmpMessage::Publish(p) => {
            assert_eq!(p.transaction_id, 5);
            assert_eq!(p.stream_key, b"streamkey".to_vec());
            assert_eq!(p.publish_type, b"live".to_vec());
        }
        other => panic!("{:?}", other),
    }
    let mut frame = amf_string("@setDataFrame");
    frame.extend(amf_string("onMetaData"));
    frame.extend([8, 0, 0, 0, 2]);
    frame.extend(amf_key("width"));
    frame.extend(amf_number(1280.0));
    frame.extend(amf_key("stereo"));
    frame.extend([1, 1]);
    frame.extend([0, 0, 9]);
    match parse_message(with_type(msg_type_id::DATA_AMF0), frame).unwrap() {
        RtmpMessage::SetDataFrame(f) => {
            assert_eq!(f.data_name, b"onMetaData".to_vec());
            assert_eq!(f.metadata.len(), 2);
            assert_eq!(f.metadata[0].key, b"width".to_vec());
            assert_eq!(
                f.metadata[0].value,
                AmfScalar::Number(1280f64.to_bits())
            );
            assert_eq!(f.metadata[1].value, AmfScalar::Boolean(true));
        }
        other => panic!("{:?}", other),
    }
}

#[test]
fn handshake_answers_version_three() {
    let c0 = [3u8];
    let mut c1 = [0u8; HANDSHAKE_CHUNK_SIZE];
    for (i, b) in c1.iter_mut().enumerate() {
        *b = (i % 251) as u8;
    }
    let (s0, s1, s2) = s_chunk(c0, c1).unwrap();
    assert_eq!(s0, [3]);
    assert_eq!(&s1[0..4], &[0, 0, 0, 0]);
    assert_eq!(s2, c1);
    // The random part of S1 is filled: 1532 zero bytes would mean it was not.
    assert!(s1[4..].iter().any(|b| *b != 0));
    assert_eq!(check_c2(&s1, &s1), Ok(()));
    assert_eq!(check_c2(&s2, &s1), Err(ProtocolError::HandshakeMismatch));
}

#[test]
fn handshake_refuses_other_versions() {
    let c1 = [0u8; HANDSHAKE_CHUNK_SIZE];
    assert_eq!(s_chunk([6u8], c1).unwrap_err(), ProtocolError::UnsupportedVersion);
    assert_eq!(ProtocolError::UnsupportedVersion.message(), "Unsupported RTMP version");
}

#[test]
fn server_handshake_uses_the_given_random_bytes() {
    let c1 = [5u8; HANDSHAKE_CHUNK_SIZE];
    let random = vec![9u8; 1532];
    let (s0, s1, s2) = server_handshake([3], c1, &random);
    assert_eq!(s0, [3]);
    assert_eq!(&s1[..4], &[0, 0, 0, 0]);
    assert!(s1[4..].iter().all(|b| *b == 9));
    assert_eq!(s2, c1);
    assert_eq!(DEFAULT_CHUNK_SIZE, 128);
}

#[test]
fn replies_decode_to_the_transaction_they_answer() {
    let reply = result_msg(CreateStream { command_name: b"createStream".to_vec(), transaction_id: 4 }).unwrap();
    let values = decode_values(&reply[12..], 4).unwrap();
    assert_eq!(values[0], AmfValue::Scalar(AmfScalar::Str(b"_result".to_vec())));
    match (&values[1], &values[3]) {
        (AmfValue::Scalar(AmfScalar::Number(t)), AmfValue::Scalar(AmfScalar::Number(s))) => {
            assert_eq!(amf_number_to_u32(*t), 4);
            assert_eq!(amf_number_to_u32(*s), 1);
        }
        other => panic!("{:?}", other),
    }
    let status = on_status_msg(Publish {
        command_name: b"publish".to_vec(),
        transaction_id: 9,
        stream_key: b"k".to_vec(),
        publish_type: b"live".to_vec(),
    })
    .unwrap();
    let values = decode_values(&status[12..], 4).unwrap();
    match &values[1] {
        AmfValue::Scalar(AmfScalar::Number(t)) => assert_eq!(amf_number_to_u32(*t), 9),
        other => panic!("{:?}", other),
    }
    assert_eq!(values[2], AmfValue::Scalar(AmfScalar::Null));
}
