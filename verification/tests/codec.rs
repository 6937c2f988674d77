use clockprobe::codec::{decode_request, decode_response, encode_request, encode_response};
use clockprobe::message::{DecodeError, Request, Response};

#[test]
fn request_text_is_compact_json() {
    assert_eq!(encode_request(Request { cookie: 42 }), b"{\"cookie\":42}".to_vec());
    assert_eq!(encode_request(Request { cookie: 0 }), b"{\"cookie\":0}".to_vec());
    assert_eq!(
        encode_request(Request { cookie: u32::MAX }),
        b"{\"cookie\":4294967295}".to_vec()
    );
}

#[test]
fn response_text_is_compact_json() {
    assert_eq!(
        encode_response(Response { send_time: 1000, cookie: 42 }),
        b"{\"send_time\":1000,\"cookie\":42}".to_vec()
    );
    assert_eq!(
        encode_response(Response { send_time: u64::MAX, cookie: 0 }),
        b"{\"send_time\":18446744073709551615,\"cookie\":0}".to_vec()
    );
}

#[test]
fn request_round_trip() {
    for cookie in [0u32, 1, 9, 10, 42, 99, 100, 65535, 1_000_000, u32::MAX - 1, u32::MAX] {
        let r = Request { cookie };
        assert_eq!(decode_request(&encode_request(r)), Ok(r));
    }
}

#[test]
fn response_round_trip() {
    for send_time in [0u64, 7, 10, 1000, 1_700_000_000, u64::MAX - 1, u64::MAX] {
        for cookie in [0u32, 42, 4_000_000_000, u32::MAX] {
            let r = Response { send_time, cookie };
            assert_eq!(decode_response(&encode_response(r)), Ok(r));
        }
    }
}

#[test]
fn decode_request_literal() {
    assert_eq!(decode_request(b"{\"cookie\":7}"), Ok(Request { cookie: 7 }));
    assert_eq!(
        decode_response(b"{\"send_time\":1005,\"cookie\":99}"),
        Ok(Response { send_time: 1005, cookie: 99 })
    );
}

#[test]
fn truncated_request_is_rejected() {
    let text = encode_request(Request { cookie: 1234 });
    for cut in 0..text.len() {
        assert_eq!(decode_request(&text[..cut]), Err(DecodeError {}));
    }
}

#[test]
fn truncated_response_is_rejected() {
    let text = encode_response(Response { send_time: 1000, cookie: 42 });
    for cut in 0..text.len() {
        assert_eq!(decode_response(&text[..cut]), Err(DecodeError {}));
    }
}

#[test]
fn type_mismatch_is_rejected() {
    assert_eq!(decode_request(b"{\"cookie\":\"42\"}"), Err(DecodeError {}));
    assert_eq!(decode_request(b"{\"cookie\":-1}"), Err(DecodeError {}));
    assert_eq!(decode_request(b"{\"cookie\":4.2}"), Err(DecodeError {}));
    assert_eq!(decode_request(b"{\"cookie\":true}"), Err(DecodeError {}));
    assert_eq!(decode_request(b"{\"cookie\":}"), Err(DecodeError {}));
    assert_eq!(decode_response(b"{\"send_time\":\"now\",\"cookie\":1}"), Err(DecodeError {}));
    assert_eq!(decode_response(b"{\"send_time\":1,\"cookie\":null}"), Err(DecodeError {}));
}

#[test]
fn out_of_range_numbers_are_rejected() {
    assert_eq!(decode_request(b"{\"cookie\":4294967296}"), Err(DecodeError {}));
    assert_eq!(
        decode_request(b"{\"cookie\":99999999999999999999999999999999999999999999}"),
        Err(DecodeError {})
    );
    assert_eq!(
        decode_response(b"{\"send_time\":18446744073709551616,\"cookie\":1}"),
        Err(DecodeError {})
    );
    assert_eq!(
        decode_response(b"{\"send_time\":1,\"cookie\":4294967296}"),
        Err(DecodeError {})
    );
}

#[test]
fn foreign_datagrams_are_rejected() {
    assert_eq!(decode_request(b""), Err(DecodeError {}));
    assert_eq!(decode_request(b"hello"), Err(DecodeError {}));
    assert_eq!(decode_request(b"[42]"), Err(DecodeError {}));
    assert_eq!(decode_request(b"{\"cookie\":042}"), Err(DecodeError {}));
    assert_eq!(decode_request(b"{\"cookie\":42}}"), Err(DecodeError {}));
    assert_eq!(decode_request(b"{\"cookie\":42} "), Err(DecodeError {}));
    assert_eq!(decode_request(b"{\"biscuit\":42}"), Err(DecodeError {}));
    assert_eq!(decode_request(&[0xff, 0xfe, 0x00]), Err(DecodeError {}));
    assert_eq!(decode_response(b""), Err(DecodeError {}));
    assert_eq!(decode_response(b"{\"send_time\":1000}"), Err(DecodeError {}));
    assert_eq!(decode_response(b"{\"send_time\":01,\"cookie\":1}"), Err(DecodeError {}));
}

#[test]
fn shapes_do_not_decode_as_each_other() {
    let request = encode_request(Request { cookie: 42 });
    let response = encode_response(Response { send_time: 1000, cookie: 42 });
    assert_eq!(decode_response(&request), Err(DecodeError {}));
    assert_eq!(decode_request(&response), Err(DecodeError {}));
}

#[test]
fn request_text_reads_as_json() {
    let text = encode_request(Request { cookie: 3_000_000_000 });
    let value: serde_json::Value = serde_json::from_slice(&text).unwrap();
    let object = value.as_object().unwrap();
    assert_eq!(object.len(), 1);
    assert_eq!(object.get("cookie").and_then(|v| v.as_u64()), Some(3_000_000_000));
}

#[test]
fn response_text_reads_as_json() {
    let text = encode_response(Response { send_time: 1_700_000_000, cookie: 42 });
    let value: serde_json::Value = serde_json::from_slice(&text).unwrap();
    let object = value.as_object().unwrap();
    assert_eq!(object.len(), 2);
    assert_eq!(object.get("send_time").and_then(|v| v.as_u64()), Some(1_700_000_000));
    assert_eq!(object.get("cookie").and_then(|v| v.as_u64()), Some(42));
}

#[test]
fn compact_json_of_a_request_decodes() {
    let mut object = serde_json::Map::new();
    object.insert("cookie".to_string(), serde_json::Value::from(77u32));
    let text = serde_json::to_vec(&serde_json::Value::Object(object)).unwrap();
    assert_eq!(decode_request(&text), Ok(Request { cookie: 77 }));
}
