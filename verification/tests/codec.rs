use helix_bridge::codec::{
    decode, encode, encode_data, encode_resize, parse_resize_payload, Decoded, Frame, WindowSize,
};

fn resize_payload(cols: u16, rows: u16) -> Vec<u8> {
    let mut v = encode_resize(WindowSize { cols, rows });
    v.remove(0);
    v
}

#[test]
fn data_round_trip() {
    let payload = vec![108u8, 115u8, 10u8];
    let wire = encode(&Frame::Data(payload.clone()));
    assert_eq!(wire, vec![0u8, 108u8, 115u8, 10u8]);
    match decode(&wire) {
        Decoded::Valid(Frame::Data(p)) => assert_eq!(p, payload),
        _ => panic!("data frame did not round-trip"),
    }
}

#[test]
fn data_round_trip_single_byte() {
    let wire = encode(&Frame::Data(vec![7u8]));
    match decode(&wire) {
        Decoded::Valid(Frame::Data(p)) => assert_eq!(p, vec![7u8]),
        _ => panic!("data frame did not round-trip"),
    }
}

#[test]
fn empty_data_frame_decodes_without_error() {
    match decode(&[0u8]) {
        Decoded::Valid(Frame::Data(p)) => assert!(p.is_empty()),
        _ => panic!("tag-only data frame must decode to an empty payload"),
    }
}

#[test]
fn resize_round_trip() {
    let wire = encode(&Frame::Resize(WindowSize { cols: 80, rows: 24 }));
    match decode(&wire) {
        Decoded::Valid(Frame::Resize(ws)) => {
            assert_eq!(ws.cols, 80);
            assert_eq!(ws.rows, 24);
        },
        _ => panic!("resize frame did not round-trip"),
    }
}

#[test]
fn resize_round_trip_extremes() {
    for (c, r) in [(0u16, 0u16), (1, 65535), (65535, 1), (65535, 65535), (9, 10)] {
        let wire = encode(&Frame::Resize(WindowSize { cols: c, rows: r }));
        match decode(&wire) {
            Decoded::Valid(Frame::Resize(ws)) => {
                assert_eq!(ws.cols, c);
                assert_eq!(ws.rows, r);
            },
            _ => panic!("resize frame did not round-trip"),
        }
    }
}

#[test]
fn resize_encoding_is_the_exact_geometry_text() {
    let wire = encode(&Frame::Resize(WindowSize { cols: 80, rows: 24 }));
    let mut expected = vec![1u8];
    expected.extend_from_slice(b"{\"cols\":80,\"rows\":24}");
    assert_eq!(wire, expected);
}

#[test]
fn unknown_tag_is_ignored() {
    for tag in [2u8, 7u8, 255u8] {
        match decode(&[tag, 1u8, 2u8]) {
            Decoded::Ignored => {},
            _ => panic!("unknown tag must be ignored, not an error"),
        }
    }
}

#[test]
fn empty_message_is_ignored() {
    match decode(&[]) {
        Decoded::Ignored => {},
        _ => panic!("an empty message must be ignored"),
    }
}

#[test]
fn malformed_resize_payload_is_an_error() {
    let cases: [&[u8]; 6] = [
        b"",
        b"garbage",
        b"{\"cols\":80,\"rows\":}",
        b"{\"cols\":99999,\"rows\":24}",
        b"{\"cols\":080,\"rows\":24}",
        b"{\"cols\":80,\"rows\":24} ",
    ];
    for payload in cases {
        let mut wire = vec![1u8];
        wire.extend_from_slice(payload);
        match decode(&wire) {
            Decoded::MalformedControlFrame => {},
            _ => panic!("a malformed resize payload must fail decoding"),
        }
    }
}

#[test]
fn parse_resize_payload_reads_the_canonical_text() {
    match parse_resize_payload(b"{\"cols\":132,\"rows\":43}") {
        Some(ws) => {
            assert_eq!(ws.cols, 132);
            assert_eq!(ws.rows, 43);
        },
        None => panic!("canonical geometry text must parse"),
    }
    assert!(parse_resize_payload(b"{\"rows\":24,\"cols\":80}").is_none());
}

#[test]
fn serde_json_geometry_matches_the_grammar() {
    let mut map = serde_json::Map::new();
    map.insert("cols".to_string(), serde_json::Value::from(80u16));
    map.insert("rows".to_string(), serde_json::Value::from(24u16));
    let bytes = serde_json::to_vec(&serde_json::Value::Object(map)).unwrap();
    assert_eq!(bytes, resize_payload(80, 24));
    match parse_resize_payload(&bytes) {
        Some(ws) => {
            assert_eq!(ws.cols, 80);
            assert_eq!(ws.rows, 24);
        },
        None => panic!("a client's JSON geometry must parse"),
    }
}

#[test]
fn encode_data_prefixes_the_data_tag() {
    assert_eq!(encode_data(b"hello"), vec![0u8, 104, 101, 108, 108, 111]);
    assert_eq!(encode_data(b""), vec![0u8]);
}
