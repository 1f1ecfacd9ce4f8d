use secretd::protocol::{ProtocolError, Request, Response};

fn all_requests() -> Vec<Request> {
    vec![
        Request::Unlock { password: "hunter2".to_string() },
        Request::Unlock { password: "".to_string() },
        Request::Put { key: "db".to_string(), value: "pw1".to_string() },
        Request::Put { key: "".to_string(), value: "".to_string() },
        Request::Put { key: "ключ".to_string(), value: "значение 🔑".to_string() },
        Request::Get { key: "db".to_string() },
        Request::Get { key: "x".repeat(70_000) },
        Request::Lock,
    ]
}

fn all_responses() -> Vec<Response> {
    vec![
        Response::Success(None),
        Response::Success(Some("pw1".to_string())),
        Response::Success(Some("".to_string())),
        Response::Success(Some("значение 🔑".to_string())),
        Response::Error("unauthorized".to_string()),
        Response::Error("".to_string()),
    ]
}

#[test]
fn every_request_round_trips() {
    for request in all_requests() {
        assert_eq!(Request::decode(&request.encode()), Ok(request));
    }
}

#[test]
fn every_response_round_trips() {
    for response in all_responses() {
        assert_eq!(Response::decode(&response.encode()), Ok(response));
    }
}

#[test]
fn unlock_layout() {
    let bytes = Request::Unlock { password: "pw".to_string() }.encode();
    assert_eq!(bytes, vec![0, 0, 0, 0, 2, 0, 0, 0, 0, 0, 0, 0, b'p', b'w']);
}

#[test]
fn put_layout() {
    let bytes = Request::Put { key: "db".to_string(), value: "pw1".to_string() }.encode();
    assert_eq!(
        bytes,
        vec![
            1, 0, 0, 0, 2, 0, 0, 0, 0, 0, 0, 0, b'd', b'b', 3, 0, 0, 0, 0, 0, 0, 0, b'p', b'w',
            b'1'
        ]
    );
}

#[test]
fn get_layout() {
    let bytes = Request::Get { key: "é".to_string() }.encode();
    assert_eq!(bytes, vec![2, 0, 0, 0, 2, 0, 0, 0, 0, 0, 0, 0, 0xc3, 0xa9]);
}

#[test]
fn lock_layout() {
    assert_eq!(Request::Lock.encode(), vec![3, 0, 0, 0]);
}

#[test]
fn success_layout() {
    assert_eq!(Response::Success(None).encode(), vec![0, 0, 0, 0, 0]);
    assert_eq!(
        Response::Success(Some("v".to_string())).encode(),
        vec![0, 0, 0, 0, 1, 1, 0, 0, 0, 0, 0, 0, 0, b'v']
    );
}

#[test]
fn error_layout() {
    assert_eq!(
        Response::Error("no".to_string()).encode(),
        vec![1, 0, 0, 0, 2, 0, 0, 0, 0, 0, 0, 0, b'n', b'o']
    );
}

#[test]
fn long_text_length_is_little_endian() {
    let bytes = Request::Get { key: "k".repeat(0x0102) }.encode();
    assert_eq!(&bytes[..12], &[2, 0, 0, 0, 0x02, 0x01, 0, 0, 0, 0, 0, 0]);
    assert_eq!(bytes.len(), 12 + 0x0102);
}

#[test]
fn requests_encode_as_bincode_encodes_their_parts() {
    assert_eq!(
        Request::Unlock { password: "hunter2".to_string() }.encode(),
        bincode::serialize(&(0u32, "hunter2")).unwrap()
    );
    assert_eq!(
        Request::Put { key: "db".to_string(), value: "pw1".to_string() }.encode(),
        bincode::serialize(&(1u32, "db", "pw1")).unwrap()
    );
    assert_eq!(
        Request::Get { key: "db".to_string() }.encode(),
        bincode::serialize(&(2u32, "db")).unwrap()
    );
    assert_eq!(Request::Lock.encode(), bincode::serialize(&3u32).unwrap());
}

#[test]
fn responses_encode_as_bincode_encodes_their_parts() {
    assert_eq!(
        Response::Success(None).encode(),
        bincode::serialize(&(0u32, None::<String>)).unwrap()
    );
    assert_eq!(
        Response::Success(Some("pw1".to_string())).encode(),
        bincode::serialize(&(0u32, Some("pw1"))).unwrap()
    );
    assert_eq!(
        Response::Error("unauthorized".to_string()).encode(),
        bincode::serialize(&(1u32, "unauthorized")).unwrap()
    );
}

#[test]
fn responses_decode_what_bincode_encodes() {
    let bytes = bincode::serialize(&(0u32, Some("значение"))).unwrap();
    assert_eq!(Response::decode(&bytes), Ok(Response::Success(Some("значение".to_string()))));
    let bytes = bincode::serialize(&(1u32, "invalid password")).unwrap();
    assert_eq!(Response::decode(&bytes), Ok(Response::Error("invalid password".to_string())));
}

#[test]
fn bincode_decodes_what_requests_encode() {
    let bytes = Request::Put { key: "db".to_string(), value: "pw1".to_string() }.encode();
    let parts: (u32, String, String) = bincode::deserialize(&bytes).unwrap();
    assert_eq!(parts, (1, "db".to_string(), "pw1".to_string()));
}

#[test]
fn empty_input_is_malformed() {
    assert_eq!(Request::decode(&[]), Err(ProtocolError::MalformedMessage));
    assert_eq!(Response::decode(&[]), Err(ProtocolError::MalformedMessage));
}

#[test]
fn short_tag_is_malformed() {
    assert_eq!(Request::decode(&[3, 0, 0]), Err(ProtocolError::MalformedMessage));
    assert_eq!(Response::decode(&[0, 0, 0]), Err(ProtocolError::MalformedMessage));
}

#[test]
fn unknown_tag_is_malformed() {
    assert_eq!(Request::decode(&[4, 0, 0, 0]), Err(ProtocolError::MalformedMessage));
    assert_eq!(Request::decode(&[3, 0, 0, 1]), Err(ProtocolError::MalformedMessage));
    assert_eq!(Request::decode(&[0xff, 0xff, 0xff, 0xff]), Err(ProtocolError::MalformedMessage));
    assert_eq!(
        Response::decode(&[2, 0, 0, 0, 0, 0, 0, 0, 0, 0, 0, 0]),
        Err(ProtocolError::MalformedMessage)
    );
}

#[test]
fn truncated_request_is_malformed() {
    let bytes = Request::Put { key: "db".to_string(), value: "pw1".to_string() }.encode();
    for len in 0..bytes.len() {
        assert_eq!(Request::decode(&bytes[..len]), Err(ProtocolError::MalformedMessage));
    }
}

#[test]
fn truncated_response_is_malformed() {
    let bytes = Response::Success(Some("pw1".to_string())).encode();
    for len in 0..bytes.len() {
        assert_eq!(Response::decode(&bytes[..len]), Err(ProtocolError::MalformedMessage));
    }
}

#[test]
fn overlong_length_is_malformed() {
    let bytes = [2, 0, 0, 0, 3, 0, 0, 0, 0, 0, 0, 0, b'd', b'b'];
    assert_eq!(Request::decode(&bytes), Err(ProtocolError::MalformedMessage));
    let bytes = [2, 0, 0, 0, 0xff, 0xff, 0xff, 0xff, 0xff, 0xff, 0xff, 0xff, b'd', b'b'];
    assert_eq!(Request::decode(&bytes), Err(ProtocolError::MalformedMessage));
}

#[test]
fn invalid_utf8_is_malformed() {
    let bytes = [2, 0, 0, 0, 2, 0, 0, 0, 0, 0, 0, 0, 0xc3, 0x28];
    assert_eq!(Request::decode(&bytes), Err(ProtocolError::MalformedMessage));
    let bytes = [1, 0, 0, 0, 1, 0, 0, 0, 0, 0, 0, 0, 0xff];
    assert_eq!(Response::decode(&bytes), Err(ProtocolError::MalformedMessage));
}

#[test]
fn invalid_presence_byte_is_malformed() {
    assert_eq!(Response::decode(&[0, 0, 0, 0, 2]), Err(ProtocolError::MalformedMessage));
    assert_eq!(Response::decode(&[0, 0, 0, 0]), Err(ProtocolError::MalformedMessage));
}

#[test]
fn trailing_bytes_are_ignored() {
    let mut bytes = Request::Get { key: "db".to_string() }.encode();
    bytes.extend_from_slice(&[9, 9, 9]);
    assert_eq!(Request::decode(&bytes), Ok(Request::Get { key: "db".to_string() }));
    assert_eq!(Request::decode(&[3, 0, 0, 0, 7]), Ok(Request::Lock));
    assert_eq!(Response::decode(&[0, 0, 0, 0, 0, 7]), Ok(Response::Success(None)));
}

#[test]
fn second_field_starts_where_the_first_ends() {
    let bytes = Request::Put { key: "ключ".to_string(), value: "v".to_string() }.encode();
    assert_eq!(bytes.len(), 4 + 8 + 8 + 8 + 1);
    assert_eq!(
        Request::decode(&bytes),
        Ok(Request::Put { key: "ключ".to_string(), value: "v".to_string() })
    );
}

fn get_with_key_bytes(key: &[u8]) -> Vec<u8> {
    let mut bytes = vec![2, 0, 0, 0];
    bytes.extend_from_slice(&(key.len() as u64).to_le_bytes());
    bytes.extend_from_slice(key);
    bytes
}

#[test]
fn every_width_of_utf8_is_accepted() {
    for key in ["a", "é", "€", "🔑", "aé€🔑", "\u{0}", "\u{7f}", "\u{80}", "\u{7ff}", "\u{800}",
        "\u{d7ff}", "\u{e000}", "\u{ffff}", "\u{10000}", "\u{10ffff}"]
    {
        assert_eq!(
            Request::decode(&get_with_key_bytes(key.as_bytes())),
            Ok(Request::Get { key: key.to_string() })
        );
    }
}

#[test]
fn ill_formed_utf8_is_malformed() {
    let ill_formed: [&[u8]; 9] = [
        &[0x80],
        &[0xc0, 0x80],
        &[0xc1, 0xbf],
        &[0xe0, 0x9f, 0xbf],
        &[0xed, 0xa0, 0x80],
        &[0xf0, 0x8f, 0xbf, 0xbf],
        &[0xf4, 0x90, 0x80, 0x80],
        &[0xf8, 0x88, 0x80, 0x80],
        &[0xe2, 0x82],
    ];
    for key in ill_formed {
        assert_eq!(
            Request::decode(&get_with_key_bytes(key)),
            Err(ProtocolError::MalformedMessage)
        );
    }
}

#[test]
fn malformed_second_field_is_malformed() {
    let mut bytes = vec![1, 0, 0, 0];
    bytes.extend_from_slice(&2u64.to_le_bytes());
    bytes.extend_from_slice(b"db");
    bytes.extend_from_slice(&1u64.to_le_bytes());
    bytes.push(0xff);
    assert_eq!(Request::decode(&bytes), Err(ProtocolError::MalformedMessage));
}
