use server_status::codec::{decode_reply, encode_request, DecodeError};

/// A well-formed reply buffer built from its fields.
fn reply_buffer(
    name: &str,
    map: &str,
    folder: &str,
    game: &str,
    version: u8,
    app_id: [u8; 2],
    players: u8,
    max_players: u8,
) -> Vec<u8> {
    let mut buf: Vec<u8> = vec![0xff, 0xff, 0xff, 0xff, 0x49, version];
    buf.extend_from_slice(name.as_bytes());
    buf.push(0);
    buf.extend_from_slice(map.as_bytes());
    buf.push(0);
    buf.extend_from_slice(folder.as_bytes());
    buf.push(0);
    buf.extend_from_slice(game.as_bytes());
    buf.push(0);
    buf.extend_from_slice(&app_id);
    buf.push(players);
    buf.push(max_players);
    buf
}

#[test]
fn encode_is_idempotent() {
    let a = encode_request();
    let b = encode_request();
    assert_eq!(a, b);
    assert_eq!(a.len(), 29);
}

#[test]
fn encode_exact_bytes() {
    let expected: Vec<u8> = vec![
        0xff, 0xff, 0xff, 0xff, 0x54, b'S', b'o', b'u', b'r', b'c', b'e', b' ', b'E', b'n', b'g',
        b'i', b'n', b'e', b' ', b'Q', b'u', b'e', b'r', b'y', 0x00, 0xff, 0xff, 0xff, 0xff,
    ];
    assert_eq!(encode_request(), expected);
}

#[test]
fn decode_round_trip() {
    let buf = reply_buffer("Alpha Server", "de_dust2", "cstrike", "Counter-Strike", 17, [10, 0], 5, 10);
    let reply = decode_reply(&buf).expect("well-formed buffer must decode");
    assert_eq!(reply.reported_name, "Alpha Server");
    assert_eq!(reply.map_name, "de_dust2");
    assert_eq!(reply.player_count, 5);
    assert_eq!(reply.max_players, 10);
}

#[test]
fn decode_ignores_trailing_bytes() {
    let mut buf = reply_buffer("A", "b2", "f", "g", 2, [0, 0], 0, 8);
    buf.extend_from_slice(&[1, 2, 3, 4, 5, 6, 7]);
    let reply = decode_reply(&buf).expect("trailing bytes are ignored");
    assert_eq!(reply.reported_name, "A");
    assert_eq!(reply.map_name, "b2");
    assert_eq!(reply.player_count, 0);
    assert_eq!(reply.max_players, 8);
}

#[test]
fn decode_empty_names_and_extreme_counts() {
    let buf = reply_buffer("", "", "", "", 0, [0xff, 0xff], 255, 0);
    let reply = decode_reply(&buf).expect("empty strings are valid");
    assert_eq!(reply.reported_name, "");
    assert_eq!(reply.map_name, "");
    assert_eq!(reply.player_count, 255);
    assert_eq!(reply.max_players, 0);
}

#[test]
fn decode_replaces_invalid_text() {
    let mut buf: Vec<u8> = vec![0xff, 0xff, 0xff, 0xff, 0x49, 17];
    buf.push(0xff); // not valid UTF-8 on its own
    buf.push(0);
    buf.extend_from_slice(b"map\0f\0g\0");
    buf.extend_from_slice(&[0, 0, 1, 2]);
    let reply = decode_reply(&buf).expect("invalid text is replaced, not an error");
    assert_eq!(reply.reported_name, "\u{fffd}");
    assert_eq!(reply.map_name, "map");
}

#[test]
fn decode_rejects_malformed_header() {
    assert_eq!(decode_reply(&vec![]), Err(DecodeError::MalformedHeader));
    assert_eq!(decode_reply(&vec![0xff, 0xff]), Err(DecodeError::MalformedHeader));
    let buf = reply_buffer("A", "b", "f", "g", 2, [0, 0], 1, 2);
    let mut wrong = buf.clone();
    wrong[2] = 0x00;
    assert_eq!(decode_reply(&wrong), Err(DecodeError::MalformedHeader));
}

#[test]
fn decode_rejects_unexpected_operation() {
    let mut buf = reply_buffer("A", "b", "f", "g", 2, [0, 0], 1, 2);
    buf[4] = 0x41;
    assert_eq!(decode_reply(&buf), Err(DecodeError::UnexpectedOperation));
}

#[test]
fn decode_rejects_every_truncation() {
    let buf = reply_buffer("Alpha", "de_dust2", "cstrike", "cs", 17, [10, 0], 5, 10);
    assert!(decode_reply(&buf).is_ok());
    // Any strict prefix fails with a typed error; past the header and
    // opcode, always with TruncatedBuffer.
    for n in 0..buf.len() {
        let cut: Vec<u8> = buf[..n].to_vec();
        match decode_reply(&cut) {
            Err(DecodeError::MalformedHeader) => assert!(n < 4),
            Err(DecodeError::TruncatedBuffer) => assert!(n >= 4),
            other => panic!("prefix of length {} decoded to {:?}", n, other),
        }
    }
}

#[test]
fn decode_missing_terminator_fails() {
    // Header, opcode, version, then a name that never terminates.
    let mut buf: Vec<u8> = vec![0xff, 0xff, 0xff, 0xff, 0x49, 17];
    buf.extend_from_slice(b"endless name with no terminator");
    assert_eq!(decode_reply(&buf), Err(DecodeError::TruncatedBuffer));
}
