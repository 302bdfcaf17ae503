//! Binary codec for the UDP "info request" protocol: the fixed 29-byte
//! request packet and the decoder for the reply packet.

use vstd::prelude::*;

verus! {

/// The fixed request packet: a four-byte `0xFF` marker, the info-request
/// opcode `0x54`, the ASCII tag `"Source Engine Query"` with its
/// terminating zero byte, and a trailing four-byte "no challenge" marker.
pub open spec fn request_bytes() -> Seq<u8> {
    seq![
        0xffu8, 0xffu8, 0xffu8, 0xffu8,
        0x54u8,
        0x53u8, 0x6fu8, 0x75u8, 0x72u8, 0x63u8, 0x65u8, 0x20u8,
        0x45u8, 0x6eu8, 0x67u8, 0x69u8, 0x6eu8, 0x65u8, 0x20u8,
        0x51u8, 0x75u8, 0x65u8, 0x72u8, 0x79u8, 0x00u8,
        0xffu8, 0xffu8, 0xffu8, 0xffu8,
    ]
}

/// Encode the info request. The result is always the same 29-byte packet.
pub fn encode_request() -> (r: Vec<u8>)
    ensures
        r@ == request_bytes(),
        r@.len() == 29,
{
    let r: Vec<u8> = vec![
        0xff, 0xff, 0xff, 0xff,
        0x54,
        0x53, 0x6f, 0x75, 0x72, 0x63, 0x65, 0x20,
        0x45, 0x6e, 0x67, 0x69, 0x6e, 0x65, 0x20,
        0x51, 0x75, 0x65, 0x72, 0x79, 0x00,
        0xff, 0xff, 0xff, 0xff,
    ];
    proof {
        assert(r@ =~= request_bytes());
    }
    r
}

/// Encoding is a constant function: any two encodings are byte-identical.
pub proof fn lemma_encode_deterministic(a: Seq<u8>, b: Seq<u8>)
    requires
        a == request_bytes(),
        b == request_bytes(),
    ensures
        a == b,
        a.len() == 29,
{
}

/// Why a received buffer could not be decoded into a reply.
#[derive(Clone, Copy, Debug, PartialEq, Eq, Structural)]
pub enum DecodeError {
    /// The four-byte `0xFF` marker is missing or mismatched.
    MalformedHeader,
    /// The opcode byte is present but is not the info-reply opcode.
    UnexpectedOperation,
    /// The buffer ends before a required field or string terminator.
    TruncatedBuffer,
}

/// A decoded info reply. `player_count <= max_players` is expected of a
/// well-behaved server but is not enforced: a violation is passed through.
#[derive(Debug, PartialEq, Eq)]
pub struct QueryReply {
    pub reported_name: String,
    pub map_name: String,
    pub player_count: u8,
    pub max_players: u8,
}

/// The fields of a reply packet as raw bytes, before text conversion.
pub ghost struct ReplyModel {
    pub name: Seq<u8>,
    pub map: Seq<u8>,
    pub players: u8,
    pub max_players: u8,
}

/// The text that `String::from_utf8_lossy` makes of a byte sequence:
/// valid UTF-8 unchanged, invalid sequences replaced by U+FFFD.
pub uninterp spec fn lossy_of(bytes: Seq<u8>) -> Seq<char>;

/// Relies on `String::from_utf8_lossy`: its result is a function of the
/// bytes alone, and an empty input gives an empty string.
#[verifier::external_body]
fn lossy_string(bytes: &Vec<u8>) -> (r: String)
    ensures
        r@ == lossy_of(bytes@),
        bytes@.len() == 0 ==> r@.len() == 0,
{
    String::from_utf8_lossy(bytes.as_slice()).into_owned()
}

/// The buffer starts with the four-byte `0xFF` marker.
pub open spec fn header_matches(s: Seq<u8>) -> bool {
    &&& s.len() >= 4
    &&& s[0] == 0xff
    &&& s[1] == 0xff
    &&& s[2] == 0xff
    &&& s[3] == 0xff
}

/// Index of the first zero byte at or after `i`, or -1 if there is none.
pub open spec fn nul_at(s: Seq<u8>, i: int) -> int
    recommends
        0 <= i <= s.len(),
    decreases s.len() - i,
{
    if i < 0 || i >= s.len() {
        -1
    } else if s[i] == 0 {
        i
    } else {
        nul_at(s, i + 1)
    }
}

pub proof fn lemma_nul_at_found(s: Seq<u8>, start: int, j: int)
    requires
        0 <= start <= j < s.len(),
        s[j] == 0,
        forall|t: int| start <= t < j ==> s[t] != 0,
    ensures
        nul_at(s, start) == j,
    decreases j - start,
{
    if start < j {
        lemma_nul_at_found(s, start + 1, j);
    }
}

pub proof fn lemma_nul_at_none(s: Seq<u8>, start: int)
    requires
        0 <= start <= s.len(),
        forall|t: int| start <= t < s.len() ==> s[t] != 0,
    ensures
        nul_at(s, start) == -1,
    decreases s.len() - start,
{
    if start < s.len() {
        lemma_nul_at_none(s, start + 1);
    }
}

/// What a received buffer means: the fields of the reply, or the first
/// decode error, reading the buffer front to back. Bytes past the two
/// player-count fields are ignored.
pub open spec fn spec_decode(s: Seq<u8>) -> Result<ReplyModel, DecodeError> {
    if !header_matches(s) {
        Err(DecodeError::MalformedHeader)
    } else if s.len() < 5 {
        Err(DecodeError::TruncatedBuffer)
    } else if s[4] != 0x49 {
        Err(DecodeError::UnexpectedOperation)
    } else if s.len() < 6 {
        Err(DecodeError::TruncatedBuffer)
    } else {
        let e1 = nul_at(s, 6);
        let e2 = nul_at(s, e1 + 1);
        let e3 = nul_at(s, e2 + 1);
        let e4 = nul_at(s, e3 + 1);
        if e1 < 0 || e2 < 0 || e3 < 0 || e4 < 0 {
            Err(DecodeError::TruncatedBuffer)
        } else if e4 + 5 > s.len() {
            Err(DecodeError::TruncatedBuffer)
        } else {
            Ok(ReplyModel {
                name: s.subrange(6, e1),
                map: s.subrange(e1 + 1, e2),
                players: s[e4 + 3],
                max_players: s[e4 + 4],
            })
        }
    }
}

/// How an executable decode result must relate to the buffer's meaning:
/// the same error, or a reply whose strings are the lossy text of the
/// corresponding byte fields.
pub open spec fn decode_matches(s: Seq<u8>, r: Result<QueryReply, DecodeError>) -> bool {
    match spec_decode(s) {
        Ok(m) => match r {
            Ok(q) => {
                &&& q.reported_name@ == lossy_of(m.name)
                &&& q.map_name@ == lossy_of(m.map)
                &&& q.player_count == m.players
                &&& q.max_players == m.max_players
            },
            Err(_) => false,
        },
        Err(e) => r == Err::<QueryReply, DecodeError>(e),
    }
}

/// Collect the bytes from `start` up to (not including) the first zero
/// byte, and return them with the index just past that terminator;
/// `None` if the buffer ends first.
fn read_cstring(buf: &Vec<u8>, start: usize) -> (r: Option<(Vec<u8>, usize)>)
    requires
        start <= buf@.len(),
    ensures
        match r {
            Some(p) => {
                &&& nul_at(buf@, start as int) == start + p.0@.len()
                &&& p.0@ == buf@.subrange(start as int, start + p.0@.len())
                &&& p.1 == start + p.0@.len() + 1
                &&& p.1 <= buf@.len()
            },
            None => nul_at(buf@, start as int) == -1,
        },
{
    let mut out: Vec<u8> = Vec::new();
    let mut i: usize = start;
    while i < buf.len()
        invariant
            start <= i <= buf@.len(),
            out@ == buf@.subrange(start as int, i as int),
            forall|t: int| start <= t < i ==> buf@[t] != 0,
        decreases buf@.len() - i,
    {
        let b = buf[i];
        if b == 0 {
            proof {
                lemma_nul_at_found(buf@, start as int, i as int);
            }
            return Some((out, i + 1));
        }
        out.push(b);
        i = i + 1;
    }
    proof {
        lemma_nul_at_none(buf@, start as int);
    }
    None
}

/// Byte sequences that can stand inside a null-terminated string field:
/// anything without an embedded zero byte.
pub open spec fn text_bytes(s: Seq<u8>) -> bool {
    forall|i: int| 0 <= i < s.len() ==> s[i] != 0
}

/// A well-formed reply packet built from its fields: marker, opcode,
/// version, four null-terminated strings, the two app-id bytes, and the
/// two player-count bytes.
pub open spec fn reply_packet(
    name: Seq<u8>,
    map: Seq<u8>,
    folder: Seq<u8>,
    game: Seq<u8>,
    version: u8,
    app_lo: u8,
    app_hi: u8,
    players: u8,
    max_players: u8,
) -> Seq<u8> {
    seq![0xffu8, 0xffu8, 0xffu8, 0xffu8, 0x49u8, version] + name + seq![0u8] + map + seq![0u8]
        + folder + seq![0u8] + game + seq![0u8] + seq![app_lo, app_hi, players, max_players]
}

/// Decoding recovers from a well-formed reply packet exactly the name,
/// map, and player counts that built it.
pub proof fn lemma_round_trip(
    name: Seq<u8>,
    map: Seq<u8>,
    folder: Seq<u8>,
    game: Seq<u8>,
    version: u8,
    app_lo: u8,
    app_hi: u8,
    players: u8,
    max_players: u8,
)
    requires
        text_bytes(name),
        text_bytes(map),
        text_bytes(folder),
        text_bytes(game),
    ensures
        spec_decode(reply_packet(name, map, folder, game, version, app_lo, app_hi, players,
            max_players)) == Ok::<ReplyModel, DecodeError>(ReplyModel {
            name: name,
            map: map,
            players: players,
            max_players: max_players,
        }),
{
    let s = reply_packet(name, map, folder, game, version, app_lo, app_hi, players, max_players);
    let p1 = 6 + name.len() as int;
    let p2 = p1 + 1 + map.len() as int;
    let p3 = p2 + 1 + folder.len() as int;
    let p4 = p3 + 1 + game.len() as int;
    assert(s.len() == p4 + 5);
    assert(header_matches(s));
    assert(s[4] == 0x49);
    assert forall|t: int| 6 <= t < p1 implies s[t] != 0 by {
        assert(s[t] == name[t - 6]);
    }
    assert(s[p1] == 0);
    lemma_nul_at_found(s, 6, p1);
    assert forall|t: int| p1 + 1 <= t < p2 implies s[t] != 0 by {
        assert(s[t] == map[t - (p1 + 1)]);
    }
    assert(s[p2] == 0);
    lemma_nul_at_found(s, p1 + 1, p2);
    assert forall|t: int| p2 + 1 <= t < p3 implies s[t] != 0 by {
        assert(s[t] == folder[t - (p2 + 1)]);
    }
    assert(s[p3] == 0);
    lemma_nul_at_found(s, p2 + 1, p3);
    assert forall|t: int| p3 + 1 <= t < p4 implies s[t] != 0 by {
        assert(s[t] == game[t - (p3 + 1)]);
    }
    assert(s[p4] == 0);
    lemma_nul_at_found(s, p3 + 1, p4);
    assert(s[p4 + 3] == players);
    assert(s[p4 + 4] == max_players);
    assert(s.subrange(6, p1) =~= name);
    assert(s.subrange(p1 + 1, p2) =~= map);
}

/// Bytes after the two player-count fields are ignored: appending
/// anything to a well-formed reply packet never changes what it decodes
/// to.
pub proof fn lemma_trailing_bytes_ignored(
    name: Seq<u8>,
    map: Seq<u8>,
    folder: Seq<u8>,
    game: Seq<u8>,
    version: u8,
    app_lo: u8,
    app_hi: u8,
    players: u8,
    max_players: u8,
    extra: Seq<u8>,
)
    requires
        text_bytes(name),
        text_bytes(map),
        text_bytes(folder),
        text_bytes(game),
    ensures
        spec_decode(reply_packet(name, map, folder, game, version, app_lo, app_hi, players,
            max_players) + extra) == spec_decode(reply_packet(name, map, folder, game, version,
            app_lo, app_hi, players, max_players)),
{
    lemma_round_trip(name, map, folder, game, version, app_lo, app_hi, players, max_players);
    let s = reply_packet(name, map, folder, game, version, app_lo, app_hi, players, max_players);
    let w = s + extra;
    let p1 = 6 + name.len() as int;
    let p2 = p1 + 1 + map.len() as int;
    let p3 = p2 + 1 + folder.len() as int;
    let p4 = p3 + 1 + game.len() as int;
    assert(s.len() == p4 + 5);
    assert(header_matches(w));
    assert(w[4] == 0x49);
    assert forall|t: int| 6 <= t < p1 implies w[t] != 0 by {
        assert(w[t] == s[t]);
        assert(s[t] == name[t - 6]);
    }
    assert(w[p1] == s[p1] && s[p1] == 0);
    lemma_nul_at_found(w, 6, p1);
    assert forall|t: int| p1 + 1 <= t < p2 implies w[t] != 0 by {
        assert(w[t] == s[t]);
        assert(s[t] == map[t - (p1 + 1)]);
    }
    assert(w[p2] == s[p2] && s[p2] == 0);
    lemma_nul_at_found(w, p1 + 1, p2);
    assert forall|t: int| p2 + 1 <= t < p3 implies w[t] != 0 by {
        assert(w[t] == s[t]);
        assert(s[t] == folder[t - (p2 + 1)]);
    }
    assert(w[p3] == s[p3] && s[p3] == 0);
    lemma_nul_at_found(w, p2 + 1, p3);
    assert forall|t: int| p3 + 1 <= t < p4 implies w[t] != 0 by {
        assert(w[t] == s[t]);
        assert(s[t] == game[t - (p3 + 1)]);
    }
    assert(w[p4] == s[p4] && s[p4] == 0);
    lemma_nul_at_found(w, p3 + 1, p4);
    assert(w[p4 + 3] == s[p4 + 3] && s[p4 + 3] == players);
    assert(w[p4 + 4] == s[p4 + 4] && s[p4 + 4] == max_players);
    assert(w.subrange(6, p1) =~= name);
    assert(w.subrange(p1 + 1, p2) =~= map);
}

/// Decoding any strict prefix of a well-formed reply packet fails with a
/// typed error: a buffer cut anywhere short never decodes.
pub proof fn lemma_truncated_fails(
    name: Seq<u8>,
    map: Seq<u8>,
    folder: Seq<u8>,
    game: Seq<u8>,
    version: u8,
    app_lo: u8,
    app_hi: u8,
    players: u8,
    max_players: u8,
    n: int,
)
    requires
        text_bytes(name),
        text_bytes(map),
        text_bytes(folder),
        text_bytes(game),
        0 <= n < reply_packet(name, map, folder, game, version, app_lo, app_hi, players,
            max_players).len(),
    ensures
        spec_decode(reply_packet(name, map, folder, game, version, app_lo, app_hi, players,
            max_players).take(n)) is Err,
{
    let s = reply_packet(name, map, folder, game, version, app_lo, app_hi, players, max_players);
    let t = s.take(n);
    let p1 = 6 + name.len() as int;
    let p2 = p1 + 1 + map.len() as int;
    let p3 = p2 + 1 + folder.len() as int;
    let p4 = p3 + 1 + game.len() as int;
    assert(s.len() == p4 + 5);
    assert(t.len() == n);
    if n < 6 {
        // the marker, opcode, or version byte is already missing
    } else {
        assert forall|i: int| 6 <= i < p1 && i < n implies t[i] != 0 by {
            assert(t[i] == s[i]);
            assert(s[i] == name[i - 6]);
        }
        if n <= p1 {
            lemma_nul_at_none(t, 6);
        } else {
            assert(t[p1] == s[p1] && s[p1] == 0);
            lemma_nul_at_found(t, 6, p1);
            assert forall|i: int| p1 + 1 <= i < p2 && i < n implies t[i] != 0 by {
                assert(t[i] == s[i]);
                assert(s[i] == map[i - (p1 + 1)]);
            }
            if n <= p2 {
                lemma_nul_at_none(t, p1 + 1);
            } else {
                assert(t[p2] == s[p2] && s[p2] == 0);
                lemma_nul_at_found(t, p1 + 1, p2);
                assert forall|i: int| p2 + 1 <= i < p3 && i < n implies t[i] != 0 by {
                    assert(t[i] == s[i]);
                    assert(s[i] == folder[i - (p2 + 1)]);
                }
                if n <= p3 {
                    lemma_nul_at_none(t, p2 + 1);
                } else {
                    assert(t[p3] == s[p3] && s[p3] == 0);
                    lemma_nul_at_found(t, p2 + 1, p3);
                    assert forall|i: int| p3 + 1 <= i < p4 && i < n implies t[i] != 0 by {
                        assert(t[i] == s[i]);
                        assert(s[i] == game[i - (p3 + 1)]);
                    }
                    if n <= p4 {
                        lemma_nul_at_none(t, p3 + 1);
                    } else {
                        assert(t[p4] == s[p4] && s[p4] == 0);
                        lemma_nul_at_found(t, p3 + 1, p4);
                        // all four strings are present, so the cut falls in
                        // the four trailing bytes, and the length check fails
                        assert(p4 + 5 > n);
                    }
                }
            }
        }
    }
}

/// Decode a received reply buffer. The result relates to the buffer as
/// `spec_decode` says; no input makes this function panic.
pub fn decode_reply(buf: &Vec<u8>) -> (r: Result<QueryReply, DecodeError>)
    ensures
        decode_matches(buf@, r),
{
    if buf.len() < 4 || buf[0] != 0xff || buf[1] != 0xff || buf[2] != 0xff || buf[3] != 0xff {
        return Err(DecodeError::MalformedHeader);
    }
    if buf.len() < 5 {
        return Err(DecodeError::TruncatedBuffer);
    }
    if buf[4] != 0x49 {
        return Err(DecodeError::UnexpectedOperation);
    }
    if buf.len() < 6 {
        return Err(DecodeError::TruncatedBuffer);
    }
    let (name_bytes, after_name) = match read_cstring(buf, 6) {
        Some(p) => p,
        None => { return Err(DecodeError::TruncatedBuffer); },
    };
    let (map_bytes, after_map) = match read_cstring(buf, after_name) {
        Some(p) => p,
        None => { return Err(DecodeError::TruncatedBuffer); },
    };
    let (_folder_bytes, after_folder) = match read_cstring(buf, after_map) {
        Some(p) => p,
        None => { return Err(DecodeError::TruncatedBuffer); },
    };
    let (_game_bytes, after_game) = match read_cstring(buf, after_folder) {
        Some(p) => p,
        None => { return Err(DecodeError::TruncatedBuffer); },
    };
    if buf.len() - after_game < 4 {
        return Err(DecodeError::TruncatedBuffer);
    }
    let player_count = buf[after_game + 2];
    let max_players = buf[after_game + 3];
    Ok(QueryReply {
        reported_name: lossy_string(&name_bytes),
        map_name: lossy_string(&map_bytes),
        player_count,
        max_players,
    })
}

} // verus!
