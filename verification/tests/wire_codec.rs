use pg_wire::codec::{ConnectionCodec, Frame};
use pg_wire::frontend::{
    decode_message, decode_startup, Bind, ClientMessage, Describe, Execute, Parse, Startup,
};
use pg_wire::protocol::{FormatCode, ProtocolError};
use pg_wire::wire::{
    find_nul, push_cstr, push_i16, push_i32, push_i64, push_u16, push_u32, push_u64, read_cstr,
    read_i16, read_i32, read_u16, read_u32, str_is_cstr_ok,
};

fn framed(tag: u8, body: &[u8]) -> Vec<u8> {
    let mut out = vec![tag];
    out.extend_from_slice(&((body.len() + 4) as u32).to_be_bytes());
    out.extend_from_slice(body);
    out
}

fn startup_packet(payload: &[u8]) -> Vec<u8> {
    let mut out = ((payload.len() + 4) as u32).to_be_bytes().to_vec();
    out.extend_from_slice(payload);
    out
}

fn startup_payload(pairs: &[(&str, &str)]) -> Vec<u8> {
    let mut out = 196608u32.to_be_bytes().to_vec();
    for (k, v) in pairs {
        out.extend_from_slice(k.as_bytes());
        out.push(0);
        out.extend_from_slice(v.as_bytes());
        out.push(0);
    }
    out.push(0);
    out
}

const SSL_REQUEST: [u8; 8] = [0x00, 0x00, 0x00, 0x08, 0x04, 0xd2, 0x16, 0x2f];

#[test]
fn integers_are_written_most_significant_byte_first() {
    let mut out = Vec::new();
    push_u16(&mut out, 0x0102);
    push_u32(&mut out, 0x0304_0506);
    push_u64(&mut out, 0x0708_090a_0b0c_0d0e);
    assert_eq!(out, vec![1, 2, 3, 4, 5, 6, 7, 8, 9, 10, 11, 12, 13, 14]);
}

#[test]
fn signed_integers_are_written_in_twos_complement() {
    let mut out = Vec::new();
    push_i16(&mut out, -1);
    push_i16(&mut out, i16::MIN);
    push_i32(&mut out, -2);
    push_i32(&mut out, i32::MAX);
    push_i64(&mut out, -3);
    push_i64(&mut out, i64::MIN);
    assert_eq!(
        out,
        vec![
            0xff, 0xff, 0x80, 0x00, 0xff, 0xff, 0xff, 0xfe, 0x7f, 0xff, 0xff, 0xff, 0xff, 0xff,
            0xff, 0xff, 0xff, 0xff, 0xff, 0xfd, 0x80, 0, 0, 0, 0, 0, 0, 0,
        ]
    );
}

#[test]
fn integers_are_read_as_they_were_written() {
    for v in [0i32, 1, -1, 255, 256, -256, 65536, i32::MAX, i32::MIN, 80877103] {
        let mut out = vec![9];
        push_i32(&mut out, v);
        assert_eq!(out[1..], v.to_be_bytes());
        assert_eq!(read_i32(&out, 1), v);
        assert_eq!(read_u32(&out, 1), v as u32);
    }
    for v in [0i16, 1, -1, 255, 256, i16::MAX, i16::MIN] {
        let mut out = vec![9, 9];
        push_i16(&mut out, v);
        assert_eq!(out[2..], v.to_be_bytes());
        assert_eq!(read_i16(&out, 2), v);
        assert_eq!(read_u16(&out, 2), v as u16);
    }
    for v in [0i64, -1, i64::MAX, i64::MIN, 653315200123456] {
        let mut out = Vec::new();
        push_i64(&mut out, v);
        assert_eq!(out, v.to_be_bytes());
    }
}

#[test]
fn strings_end_with_a_zero_byte() {
    let mut out = Vec::new();
    push_cstr(&mut out, "héllo");
    assert_eq!(out, vec![b'h', 0xc3, 0xa9, b'l', b'l', b'o', 0]);
    assert_eq!(read_cstr(&out, 0), Ok(("héllo".to_string(), 7)));
    assert_eq!(read_cstr(&out, 3), Ok(("llo".to_string(), 7)));
    assert_eq!(read_cstr(&out, 6), Ok((String::new(), 7)));
    assert_eq!(read_cstr(&out, 7), Err(ProtocolError::ShortRead));
    assert_eq!(read_cstr(&out, 2), Err(ProtocolError::BadUtf8));
    assert_eq!(find_nul(&out, 0), 6);
    assert_eq!(find_nul(&[1, 2, 3], 1), 3);
    assert!(str_is_cstr_ok("plain"));
    assert!(!str_is_cstr_ok("pl\0ain"));
}

#[test]
fn a_request_for_ssl_is_read_and_the_startup_phase_goes_on() {
    let mut codec = ConnectionCodec::new();
    assert!(codec.is_startup());
    for _ in 0..5 {
        assert_eq!(codec.decode(&SSL_REQUEST), Ok(Frame::Complete(ClientMessage::SSLRequest, 8)));
        assert!(codec.is_startup());
    }
    let packet = startup_packet(&startup_payload(&[("user", "u")]));
    let expected = ClientMessage::Startup(Startup {
        parameters: vec![("user".to_string(), "u".to_string())],
    });
    assert_eq!(codec.decode(&packet), Ok(Frame::Complete(expected, packet.len())));
    assert!(!codec.is_startup());
}

#[test]
fn the_startup_phase_ends_with_the_startup_packet() {
    let mut codec = ConnectionCodec::new();
    let mut bytes = startup_packet(&startup_payload(&[("user", "u"), ("database", "d")]));
    let first = bytes.len();
    bytes.extend_from_slice(&framed(b'S', &[]));
    match codec.decode(&bytes) {
        Ok(Frame::Complete(ClientMessage::Startup(s), taken)) => {
            assert_eq!(taken, first);
            assert_eq!(
                s.parameters,
                vec![
                    ("user".to_string(), "u".to_string()),
                    ("database".to_string(), "d".to_string())
                ]
            );
        }
        other => panic!("unexpected {:?}", other),
    }
    assert_eq!(codec.decode(&bytes[first..]), Ok(Frame::Complete(ClientMessage::Sync, 5)));
    assert!(!codec.is_startup());
}

#[test]
fn a_request_to_cancel_is_read() {
    let mut payload = 80877102u32.to_be_bytes().to_vec();
    payload.extend_from_slice(&7i32.to_be_bytes());
    payload.extend_from_slice(&(-9i32).to_be_bytes());
    assert_eq!(
        decode_startup(&payload),
        Ok(ClientMessage::CancelRequest { process_id: 7, secret_key: -9 })
    );
    let mut codec = ConnectionCodec::new();
    assert_eq!(
        codec.decode(&startup_packet(&payload)),
        Ok(Frame::Complete(ClientMessage::CancelRequest { process_id: 7, secret_key: -9 }, 16))
    );
    assert!(!codec.is_startup());
}

#[test]
fn startup_packets_that_are_wrong() {
    // another protocol
    let mut payload = 131072u32.to_be_bytes().to_vec();
    payload.push(0);
    assert_eq!(decode_startup(&payload), Err(ProtocolError::BadMagic));
    // no terminator after the settings
    let mut payload = 196608u32.to_be_bytes().to_vec();
    payload.extend_from_slice(b"user\0u\0");
    assert_eq!(decode_startup(&payload), Err(ProtocolError::ShortRead));
    // a name without its value
    let mut payload = 196608u32.to_be_bytes().to_vec();
    payload.extend_from_slice(b"user\0");
    assert_eq!(decode_startup(&payload), Err(ProtocolError::ShortRead));
    // bytes behind the terminator
    let mut payload = startup_payload(&[("user", "u")]);
    payload.push(1);
    assert_eq!(decode_startup(&payload), Err(ProtocolError::LengthMismatch));
    // a request for SSL with something behind it
    let mut payload = 80877103u32.to_be_bytes().to_vec();
    payload.push(0);
    assert_eq!(decode_startup(&payload), Err(ProtocolError::LengthMismatch));
    // a setting that is not UTF-8
    let mut payload = 196608u32.to_be_bytes().to_vec();
    payload.extend_from_slice(&[0xc3, 0x28, 0, b'u', 0, 0]);
    assert_eq!(decode_startup(&payload), Err(ProtocolError::BadUtf8));
    // too short for the number that every packet begins with
    assert_eq!(decode_startup(&[0, 3]), Err(ProtocolError::ShortRead));
    // a length that leaves no room for that number
    let mut codec = ConnectionCodec::new();
    assert_eq!(codec.decode(&[0, 0, 0, 7, 0, 0, 0]), Err(ProtocolError::LengthMismatch));
    assert!(codec.is_startup());
}

#[test]
fn a_startup_packet_without_settings_is_accepted() {
    assert_eq!(
        decode_startup(&startup_payload(&[])),
        Ok(ClientMessage::Startup(Startup { parameters: vec![] }))
    );
}

#[test]
fn parse_is_read() {
    let mut body = b"s1\0SELECT 1\0".to_vec();
    body.extend_from_slice(&[0, 2, 0, 0, 0, 23, 0, 0, 0, 25]);
    assert_eq!(
        decode_message(b'P', &body),
        Ok(ClientMessage::Parse(Parse {
            prepared_statement_name: "s1".to_string(),
            query: "SELECT 1".to_string(),
            parameter_types: vec![23, 25],
        }))
    );
    // the unnamed statement, no parameter types
    assert_eq!(
        decode_message(b'P', b"\0SELECT 2\0\0\0"),
        Ok(ClientMessage::Parse(Parse {
            prepared_statement_name: String::new(),
            query: "SELECT 2".to_string(),
            parameter_types: vec![],
        }))
    );
    // fewer types than announced
    assert_eq!(
        decode_message(b'P', b"\0SELECT 2\0\0\x01\0\0"),
        Err(ProtocolError::ShortRead)
    );
    // bytes behind the last type
    assert_eq!(
        decode_message(b'P', b"\0SELECT 2\0\0\0\0"),
        Err(ProtocolError::LengthMismatch)
    );
    // a negative count
    assert_eq!(
        decode_message(b'P', b"\0SELECT 2\0\xff\xff"),
        Err(ProtocolError::LengthMismatch)
    );
}

#[test]
fn bind_is_read() {
    let mut body = b"p1\0s1\0".to_vec();
    body.extend_from_slice(&[0, 2, 0, 0, 0, 1]); // formats of the parameters
    body.extend_from_slice(&[0, 3]); // three parameters
    body.extend_from_slice(&[0, 0, 0, 2, b'4', b'2']);
    body.extend_from_slice(&[0xff, 0xff, 0xff, 0xff]);
    body.extend_from_slice(&[0, 0, 0, 0]);
    body.extend_from_slice(&[0, 1, 0, 1]); // one format for the result: binary
    assert_eq!(
        decode_message(b'B', &body),
        Ok(ClientMessage::Bind(Bind {
            portal: "p1".to_string(),
            prepared_statement_name: "s1".to_string(),
            parameter_formats: vec![FormatCode::Text, FormatCode::Binary],
            parameters: vec![Some(b"42".to_vec()), None, Some(vec![])],
            result_formats: vec![FormatCode::Binary],
        }))
    );
}

#[test]
fn bind_with_nothing_but_names_is_read() {
    assert_eq!(
        decode_message(b'B', b"\0\0\0\0\0\0\0\0"),
        Ok(ClientMessage::Bind(Bind {
            portal: String::new(),
            prepared_statement_name: String::new(),
            parameter_formats: vec![],
            parameters: vec![],
            result_formats: vec![],
        }))
    );
}

#[test]
fn bind_that_is_wrong() {
    // a format code that is neither 0 nor 1
    assert_eq!(decode_message(b'B', b"\0\0\0\x01\0\x02\0\0\0\0"), Err(ProtocolError::BadTag));
    // a parameter longer than the message
    assert_eq!(
        decode_message(b'B', b"\0\0\0\0\0\x01\0\0\0\x05ab\0\0"),
        Err(ProtocolError::ShortRead)
    );
    // a parameter of negative length other than -1
    assert_eq!(
        decode_message(b'B', b"\0\0\0\0\0\x01\xff\xff\xff\xfe\0\0"),
        Err(ProtocolError::LengthMismatch)
    );
    // the formats of the result are missing
    assert_eq!(decode_message(b'B', b"\0\0\0\0\0\0"), Err(ProtocolError::ShortRead));
}

#[test]
fn describe_is_read() {
    assert_eq!(
        decode_message(b'D', b"Sstmt\0"),
        Ok(ClientMessage::Describe(Describe::PreparedStatement("stmt".to_string())))
    );
    assert_eq!(
        decode_message(b'D', b"P\0"),
        Ok(ClientMessage::Describe(Describe::Portal(String::new())))
    );
    assert_eq!(decode_message(b'D', b"Xname\0"), Err(ProtocolError::BadTag));
    assert_eq!(decode_message(b'D', b""), Err(ProtocolError::ShortRead));
    assert_eq!(decode_message(b'D', b"Sname"), Err(ProtocolError::ShortRead));
    assert_eq!(decode_message(b'D', b"Sname\0x"), Err(ProtocolError::LengthMismatch));
}

#[test]
fn execute_is_read() {
    assert_eq!(
        decode_message(b'E', b"p1\0\0\0\0\0"),
        Ok(ClientMessage::Execute(Execute { portal: "p1".to_string(), max_rows: 0 }))
    );
    assert_eq!(
        decode_message(b'E', b"\0\0\0\x01\0"),
        Ok(ClientMessage::Execute(Execute { portal: String::new(), max_rows: 256 }))
    );
    assert_eq!(decode_message(b'E', b"p1\0\0\0"), Err(ProtocolError::ShortRead));
}

#[test]
fn query_sync_and_terminate_are_read() {
    assert_eq!(
        decode_message(b'Q', b"SELECT 1\0"),
        Ok(ClientMessage::Query("SELECT 1".to_string()))
    );
    assert_eq!(decode_message(b'Q', b"SELECT 1"), Err(ProtocolError::ShortRead));
    assert_eq!(decode_message(b'Q', b"\xff\0"), Err(ProtocolError::BadUtf8));
    assert_eq!(decode_message(b'S', b""), Ok(ClientMessage::Sync));
    assert_eq!(decode_message(b'S', b"x"), Err(ProtocolError::LengthMismatch));
    assert_eq!(decode_message(b'X', b""), Ok(ClientMessage::Terminate));
    assert_eq!(decode_message(b'X', b"x"), Err(ProtocolError::LengthMismatch));
}

#[test]
fn a_tag_that_no_message_has_is_rejected() {
    for tag in [b'C', b'F', b'H', b'd', b'c', b'f', b'p', 0u8] {
        assert_eq!(decode_message(tag, b""), Err(ProtocolError::BadTag));
    }
}

fn message_codec() -> ConnectionCodec {
    let mut codec = ConnectionCodec::new();
    let packet = startup_packet(&startup_payload(&[]));
    assert!(matches!(codec.decode(&packet), Ok(Frame::Complete(ClientMessage::Startup(_), _))));
    codec
}

#[test]
fn a_message_is_read_only_when_all_of_it_is_there() {
    let mut codec = message_codec();
    let bytes = framed(b'Q', b"SELECT 1\0");
    for n in 0..bytes.len() {
        assert_eq!(codec.decode(&bytes[..n]), Ok(Frame::Incomplete));
    }
    assert_eq!(
        codec.decode(&bytes),
        Ok(Frame::Complete(ClientMessage::Query("SELECT 1".to_string()), bytes.len()))
    );
    let mut two = bytes.clone();
    two.extend_from_slice(&framed(b'X', &[]));
    assert_eq!(
        codec.decode(&two),
        Ok(Frame::Complete(ClientMessage::Query("SELECT 1".to_string()), bytes.len()))
    );
    assert_eq!(
        codec.decode(&two[bytes.len()..]),
        Ok(Frame::Complete(ClientMessage::Terminate, 5))
    );
}

#[test]
fn a_startup_packet_is_read_only_when_all_of_it_is_there() {
    let packet = startup_packet(&startup_payload(&[("user", "u")]));
    for n in 0..packet.len() {
        let mut codec = ConnectionCodec::new();
        assert_eq!(codec.decode(&packet[..n]), Ok(Frame::Incomplete));
        assert!(codec.is_startup());
    }
}

#[test]
fn a_length_that_does_not_count_itself_is_rejected() {
    let mut codec = message_codec();
    assert_eq!(codec.decode(&[b'S', 0, 0, 0, 3]), Err(ProtocolError::LengthMismatch));
    assert_eq!(codec.decode(&[b'S', 0xff, 0xff, 0xff, 0xff]), Err(ProtocolError::LengthMismatch));
}

#[test]
fn a_connection_closed_between_messages_ends_in_peace() {
    let mut codec = message_codec();
    assert_eq!(codec.decode_eof(&[]), Ok(Frame::Incomplete));
    let mut fresh = ConnectionCodec::new();
    assert_eq!(fresh.decode_eof(&[]), Ok(Frame::Incomplete));
}

#[test]
fn a_connection_closed_inside_a_message_is_a_short_read() {
    let mut codec = message_codec();
    let bytes = framed(b'Q', b"SELECT 1\0");
    assert_eq!(codec.decode_eof(&bytes[..3]), Err(ProtocolError::ShortRead));
    assert_eq!(codec.decode_eof(&bytes[..bytes.len() - 1]), Err(ProtocolError::ShortRead));
    assert_eq!(
        codec.decode_eof(&bytes),
        Ok(Frame::Complete(ClientMessage::Query("SELECT 1".to_string()), bytes.len()))
    );
    let mut fresh = ConnectionCodec::new();
    assert_eq!(fresh.decode_eof(&SSL_REQUEST[..5]), Err(ProtocolError::ShortRead));
}

#[test]
fn the_phase_can_be_set_by_hand() {
    let mut codec = ConnectionCodec::new();
    codec.set_startup(false);
    assert!(!codec.is_startup());
    assert_eq!(codec.decode(&[b'S', 0, 0, 0, 4]), Ok(Frame::Complete(ClientMessage::Sync, 5)));
    codec.set_startup(true);
    assert!(codec.is_startup());
    assert_eq!(codec.decode(&SSL_REQUEST), Ok(Frame::Complete(ClientMessage::SSLRequest, 8)));
}
