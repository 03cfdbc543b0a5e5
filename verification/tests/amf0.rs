use rtmp_server::amf0::{
    amf_number_from_u32, amf_number_to_u32, decode_values, encode_values, AmfProperty, AmfScalar,
    AmfValue,
};
use rtmp_server::error::ProtocolError;

#[test]
fn numbers_convert_like_rust_casts() {
    for x in [0.0f64, 1.0, 2.7, 4.0, 31.0, 65535.5, 4294967295.0, 4294967296.0, 1e12, -3.0, f64::NAN, f64::INFINITY, f64::NEG_INFINITY, 0.5] {
        assert_eq!(amf_number_to_u32(x.to_bits()), x as u32, "{}", x);
    }
}

#[test]
fn integers_become_exact_doubles() {
    for n in [0u32, 1, 2, 3, 4, 31, 1000, 65536, 0x7fff_ffff, u32::MAX] {
        assert_eq!(amf_number_from_u32(n), (n as f64).to_bits());
        assert_eq!(amf_number_to_u32(amf_number_from_u32(n)), n);
    }
}

#[test]
fn values_round_trip() {
    let values = vec![
        AmfValue::Scalar(AmfScalar::Str(b"connect".to_vec())),
        AmfValue::Scalar(AmfScalar::Number(1f64.to_bits())),
        AmfValue::Object(vec![
            AmfProperty { key: b"app".to_vec(), value: AmfScalar::Str(b"live".to_vec()) },
            AmfProperty { key: b"fpad".to_vec(), value: AmfScalar::Boolean(false) },
        ]),
        AmfValue::Scalar(AmfScalar::Null),
        AmfValue::Scalar(AmfScalar::Undefined),
        AmfValue::EcmaArray(vec![AmfProperty { key: b"w".to_vec(), value: AmfScalar::Number(2f64.to_bits()) }]),
    ];
    let mut bytes = encode_values(&values).unwrap();
    bytes.extend([7, 7, 7]);
    assert_eq!(decode_values(&bytes, values.len()).unwrap(), values);
}

#[test]
fn encoding_refuses_what_amf0_cannot_carry() {
    let long = vec![AmfValue::Scalar(AmfScalar::Str(vec![b'a'; 70000]))];
    assert_eq!(encode_values(&long), Err(ProtocolError::Unencodable));
    let empty_key = vec![AmfValue::Object(vec![AmfProperty { key: vec![], value: AmfScalar::Null }])];
    assert_eq!(encode_values(&empty_key), Err(ProtocolError::Unencodable));
}

#[test]
fn decoding_refuses_truncated_and_unknown_values() {
    assert_eq!(decode_values(&[2, 0, 5, b'a'], 1), Err(ProtocolError::MalformedAmf));
    assert_eq!(decode_values(&[0, 1, 2], 1), Err(ProtocolError::MalformedAmf));
    assert_eq!(decode_values(&[0x0b], 1), Err(ProtocolError::MalformedAmf));
    assert_eq!(decode_values(&[3, 0, 1, b'a', 3, 0, 0, 9, 0, 0, 9], 1), Err(ProtocolError::MalformedAmf));
    assert_eq!(decode_values(&[5], 2), Err(ProtocolError::MalformedAmf));
    assert_eq!(decode_values(&[5, 6], 2).unwrap(), vec![AmfValue::Scalar(AmfScalar::Null), AmfValue::Scalar(AmfScalar::Undefined)]);
}
