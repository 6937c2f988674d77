use clockprobe::codec::{decode_response, encode_request, encode_response};
use clockprobe::message::{DecodeError, Request, Response};
use clockprobe::responder::{handle, respond, stamp};

#[test]
fn stamp_echoes_cookie_and_time() {
    assert_eq!(
        stamp(Request { cookie: 42 }, 1000),
        Response { send_time: 1000, cookie: 42 }
    );
    assert_eq!(
        stamp(Request { cookie: u32::MAX }, 0),
        Response { send_time: 0, cookie: u32::MAX }
    );
}

#[test]
fn handle_answers_decoded_requests_only() {
    assert_eq!(
        handle(Ok(Request { cookie: 5 }), 17),
        Some(Response { send_time: 17, cookie: 5 })
    );
    assert_eq!(handle(Err(DecodeError {}), 17), None);
}

#[test]
fn respond_replies_with_the_stamped_text() {
    let reply = respond(&encode_request(Request { cookie: 42 }), 1000);
    assert_eq!(reply, Some(encode_response(Response { send_time: 1000, cookie: 42 })));
    assert_eq!(reply.unwrap(), b"{\"send_time\":1000,\"cookie\":42}".to_vec());
}

#[test]
fn respond_echoes_every_cookie() {
    for cookie in [0u32, 1, 7, 99, 123_456, u32::MAX] {
        for now in [0u64, 1005, u64::MAX] {
            let reply = respond(&encode_request(Request { cookie }), now).unwrap();
            assert_eq!(decode_response(&reply), Ok(Response { send_time: now, cookie }));
        }
    }
}

#[test]
fn respond_drops_malformed_datagrams() {
    assert_eq!(respond(b"", 1000), None);
    assert_eq!(respond(b"{\"cookie\":", 1000), None);
    assert_eq!(respond(b"{\"cookie\":\"x\"}", 1000), None);
    assert_eq!(respond(b"{\"send_time\":1000,\"cookie\":42}", 1000), None);
    assert_eq!(respond(&[0u8; 64], 1000), None);
}
