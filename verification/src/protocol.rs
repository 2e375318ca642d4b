//! Decoding of server query responses (Source A2S_INFO and challenge, Quake 3
//! `statusResponse`, GameSpy `\status\`) and the query packets sent to servers.
use vstd::prelude::*;
use vstd::utf8::{decode_utf8, valid_utf8};
use crate::text::{
    chars_eq, chars_of, parse_unsigned, parse_unsigned_chars, split, split_chars,
    string_from_chars, sub_chars, views,
};

verus! {

// ---------------------------------------------------------------------------
// Packet constants
// ---------------------------------------------------------------------------

/// The four `0xFF` bytes that start every connectionless packet.
pub open spec fn connectionless() -> Seq<u8> {
    seq![0xFFu8, 0xFF, 0xFF, 0xFF]
}

/// The Source `A2S_INFO` query: `\xFF\xFF\xFF\xFFTSource Engine Query\0`.
pub open spec fn source_query() -> Seq<u8> {
    connectionless() + seq![
        0x54u8, 0x53, 0x6F, 0x75, 0x72, 0x63, 0x65, 0x20, 0x45, 0x6E, 0x67, 0x69, 0x6E, 0x65,
        0x20, 0x51, 0x75, 0x65, 0x72, 0x79, 0x00,
    ]
}

/// The Quake 3 status response header `\xFF\xFF\xFF\xFFstatusResponse`.
pub open spec fn quake_status_header() -> Seq<u8> {
    connectionless() + seq![
        0x73u8, 0x74, 0x61, 0x74, 0x75, 0x73, 0x52, 0x65, 0x73, 0x70, 0x6F, 0x6E, 0x73, 0x65,
    ]
}

/// A connectionless packet whose type byte is `t`.
pub open spec fn typed_header(t: u8) -> Seq<u8> {
    connectionless().push(t)
}

/// The GameSpy response that starts with `\gamename`.
pub open spec fn gamespy_gamename_tag() -> Seq<u8> {
    seq![0x5Cu8, 0x67, 0x61, 0x6D, 0x65, 0x6E, 0x61, 0x6D, 0x65]
}

/// The GameSpy response that starts with `\hostname`.
pub open spec fn gamespy_hostname_tag() -> Seq<u8> {
    seq![0x5Cu8, 0x68, 0x6F, 0x73, 0x74, 0x6E, 0x61, 0x6D, 0x65]
}

/// Source challenge response type byte (`A`).
pub const S2C_CHALLENGE: u8 = 0x41;

/// Source info response type byte (`I`).
pub const S2A_INFO: u8 = 0x49;

/// Obsolete GoldSource info response type byte (`m`).
pub const S2A_INFO_GOLDSRC: u8 = 0x6D;

// ---------------------------------------------------------------------------
// Response kinds
// ---------------------------------------------------------------------------

/// `b` is a Quake 3 status response.
pub open spec fn is_quake_status(b: Seq<u8>) -> bool {
    b.len() >= 18 && b.take(18) == quake_status_header()
}

/// `b` is a Source challenge: header, `A` and a four-byte token.
pub open spec fn is_source_challenge(b: Seq<u8>) -> bool {
    b.len() == 9 && b.take(5) == typed_header(S2C_CHALLENGE)
}

/// `b` is a Source info response.
pub open spec fn is_source_info(b: Seq<u8>) -> bool {
    b.len() > 5 && b.take(5) == typed_header(S2A_INFO)
}

/// `b` is an obsolete GoldSource info response.
pub open spec fn is_goldsource_info(b: Seq<u8>) -> bool {
    b.len() > 5 && b.take(5) == typed_header(S2A_INFO_GOLDSRC)
}

/// `b` is a GameSpy status response.
pub open spec fn is_gamespy_status(b: Seq<u8>) -> bool {
    b.len() > 9 && (b.take(9) == gamespy_gamename_tag() || b.take(9) == gamespy_hostname_tag())
}

// ---------------------------------------------------------------------------
// Key/value lists
// ---------------------------------------------------------------------------

/// The value of `key` among the first `n` key/value pairs of `p`
/// (`p[0] = p[1]`, `p[2] = p[3]`, ...): a later pair overrides an earlier one.
pub open spec fn kv_lookup(p: Seq<Seq<char>>, key: Seq<char>, n: int) -> Option<Seq<char>>
    decreases n,
{
    if n <= 0 {
        None
    } else if p[2 * (n - 1)] == key {
        Some(p[2 * (n - 1) + 1])
    } else {
        kv_lookup(p, key, n - 1)
    }
}

/// The value of `key` in the key/value list `p`.
pub open spec fn kv_get(p: Seq<Seq<char>>, key: Seq<char>) -> Option<Seq<char>> {
    kv_lookup(p, key, (p.len() / 2) as int)
}

/// Separator characters.
pub open spec fn newline() -> Seq<char> {
    seq!['\n']
}

/// The backslash that separates keys and values.
pub open spec fn backslash() -> Seq<char> {
    seq!['\\']
}

/// Key names.
pub open spec fn key_sv_hostname() -> Seq<char> {
    seq!['s', 'v', '_', 'h', 'o', 's', 't', 'n', 'a', 'm', 'e']
}

pub open spec fn key_gamename() -> Seq<char> {
    seq!['g', 'a', 'm', 'e', 'n', 'a', 'm', 'e']
}

pub open spec fn key_mapname() -> Seq<char> {
    seq!['m', 'a', 'p', 'n', 'a', 'm', 'e']
}

pub open spec fn key_sv_maxclients() -> Seq<char> {
    seq!['s', 'v', '_', 'm', 'a', 'x', 'c', 'l', 'i', 'e', 'n', 't', 's']
}

pub open spec fn key_hostname() -> Seq<char> {
    seq!['h', 'o', 's', 't', 'n', 'a', 'm', 'e']
}

pub open spec fn key_numplayers() -> Seq<char> {
    seq!['n', 'u', 'm', 'p', 'l', 'a', 'y', 'e', 'r', 's']
}

pub open spec fn key_maxplayers() -> Seq<char> {
    seq!['m', 'a', 'x', 'p', 'l', 'a', 'y', 'e', 'r', 's']
}

// ---------------------------------------------------------------------------
// Quake 3
// ---------------------------------------------------------------------------

/// Text of a Quake 3 status response, after the header, its newline and the
/// leading backslash.
pub open spec fn quake_text(b: Seq<u8>) -> Seq<char> {
    decode_utf8(b.skip(20))
}

/// Lines of the text; the first holds the server info, then one per player.
pub open spec fn quake_lines(b: Seq<u8>) -> Seq<Seq<char>> {
    split(quake_text(b), newline())
}

/// Keys and values of the server info line.
pub open spec fn quake_pieces(b: Seq<u8>) -> Seq<Seq<char>> {
    split(quake_lines(b)[0], backslash())
}

/// A Quake 3 status response holds everything the browser reads: UTF-8
/// text, an info line and a final line, whole key/value pairs, the host name,
/// game, map and a maximum player count that fits in a byte.
pub open spec fn quake_well_formed(b: Seq<u8>) -> bool {
    &&& b.len() >= 20
    &&& valid_utf8(b.skip(20))
    &&& quake_lines(b).len() >= 2
    &&& quake_pieces(b).len() % 2 == 0
    &&& kv_get(quake_pieces(b), key_sv_hostname()) is Some
    &&& kv_get(quake_pieces(b), key_gamename()) is Some
    &&& kv_get(quake_pieces(b), key_mapname()) is Some
    &&& kv_get(quake_pieces(b), key_sv_maxclients()) matches Some(v) && parse_unsigned(v, 255) is Some
}

// ---------------------------------------------------------------------------
// GameSpy
// ---------------------------------------------------------------------------

/// Text of a GameSpy response after the leading backslash.
pub open spec fn gamespy_text(b: Seq<u8>) -> Seq<char> {
    decode_utf8(b.skip(1))
}

/// Keys and values of a GameSpy response.
pub open spec fn gamespy_pieces(b: Seq<u8>) -> Seq<Seq<char>> {
    split(gamespy_text(b), backslash())
}

/// A GameSpy response holds UTF-8 text, whole key/value pairs, the host
/// name, map, and player counts that fit in a byte.
pub open spec fn gamespy_well_formed(b: Seq<u8>) -> bool {
    &&& valid_utf8(b.skip(1))
    &&& gamespy_pieces(b).len() % 2 == 0
    &&& kv_get(gamespy_pieces(b), key_hostname()) is Some
    &&& kv_get(gamespy_pieces(b), key_mapname()) is Some
    &&& kv_get(gamespy_pieces(b), key_numplayers()) matches Some(v) && parse_unsigned(v, 255) is Some
    &&& kv_get(gamespy_pieces(b), key_maxplayers()) matches Some(v) && parse_unsigned(v, 255) is Some
}

// ---------------------------------------------------------------------------
// Source A2S_INFO
// ---------------------------------------------------------------------------

/// First index `>= i` of a zero byte in `p`.
pub open spec fn zero_from(p: Seq<u8>, i: int) -> Option<int>
    decreases p.len() - i,
{
    if i < 0 || i >= p.len() {
        None
    } else if p[i] == 0 {
        Some(i)
    } else {
        zero_from(p, i + 1)
    }
}

/// Positions of the five string terminators of an info payload (the bytes
/// after the type byte): name, map, folder, game, and version, which follows
/// the nine single-byte fields after the game.
pub open spec fn info_terminators(p: Seq<u8>) -> Option<(int, int, int, int, int)> {
    if p.len() < 1 {
        None
    } else {
        match zero_from(p, 1) {
            None => None,
            Some(z1) => match zero_from(p, z1 + 1) {
                None => None,
                Some(z2) => match zero_from(p, z2 + 1) {
                    None => None,
                    Some(z3) => match zero_from(p, z3 + 1) {
                        None => None,
                        Some(z4) => if z4 + 10 > p.len() {
                            None
                        } else {
                            match zero_from(p, z4 + 10) {
                                None => None,
                                Some(z5) => Some((z1, z2, z3, z4, z5)),
                            }
                        },
                    },
                },
            },
        }
    }
}

/// The payload of an info response, after its five-byte header.
pub open spec fn info_payload(b: Seq<u8>) -> Seq<u8> {
    b.skip(5)
}

/// An info response holds all its fields, each string zero-terminated and
/// valid UTF-8.
pub open spec fn info_well_formed(b: Seq<u8>) -> bool {
    let p = info_payload(b);
    match info_terminators(p) {
        None => false,
        Some((z1, z2, z3, z4, z5)) => {
            &&& valid_utf8(p.subrange(1, z1))
            &&& valid_utf8(p.subrange(z1 + 1, z2))
            &&& valid_utf8(p.subrange(z2 + 1, z3))
            &&& valid_utf8(p.subrange(z3 + 1, z4))
            &&& valid_utf8(p.subrange(z4 + 10, z5))
        },
    }
}

/// A response can be decoded: each kind of response holds what is read of it.
pub open spec fn datagram_well_formed(b: Seq<u8>) -> bool {
    &&& is_quake_status(b) ==> quake_well_formed(b)
    &&& is_source_info(b) ==> info_well_formed(b)
    &&& is_gamespy_status(b) ==> gamespy_well_formed(b)
}

// ---------------------------------------------------------------------------
// Decoded responses
// ---------------------------------------------------------------------------

/// The fields of a Source `A2S_INFO` response.
#[derive(Debug, Clone, PartialEq, Eq)]
pub struct SourceInfo {
    pub protocol: u8,
    pub name: String,
    pub map: String,
    pub folder: String,
    pub game: String,
    /// The two bytes of the Steam application ID, in packet order.
    pub app_id_first: u8,
    pub app_id_second: u8,
    pub players: u8,
    pub players_max: u8,
    pub bots: u8,
    pub server_type: u8,
    pub environment: u8,
    pub visibility: u8,
    pub vac: u8,
    pub version: String,
}

/// A decoded response from a game server.
#[derive(Debug, Clone, PartialEq, Eq)]
pub enum Datagram {
    /// Quake 3 status: host name, game, map, players and maximum players.
    QuakeStatus { hostname: String, game: String, map: String, players: u8, players_max: u8 },
    /// Source challenge token, to be appended to the repeated query.
    SourceChallenge { token: Vec<u8> },
    /// Source info response.
    SourceInfo(SourceInfo),
    /// Obsolete GoldSource info response (not read).
    GoldSource,
    /// GameSpy status: host name, game (empty when absent), map, players and
    /// maximum players.
    GameSpyStatus { hostname: String, game: String, map: String, players: u8, players_max: u8 },
    /// Anything else.
    Ignored,
}

/// What `d` decodes from the bytes `b`.
pub open spec fn decodes_to(b: Seq<u8>, d: Datagram) -> bool {
    if is_quake_status(b) {
        let p = quake_pieces(b);
        d matches Datagram::QuakeStatus { hostname, game, map, players, players_max }
            && hostname@ == kv_get(p, key_sv_hostname()).unwrap()
            && game@ == kv_get(p, key_gamename()).unwrap()
            && map@ == kv_get(p, key_mapname()).unwrap()
            && players as int == (quake_lines(b).len() - 2) % 256
            && players_max as nat == parse_unsigned(kv_get(p, key_sv_maxclients()).unwrap(), 255).unwrap()
    } else if is_source_challenge(b) {
        d matches Datagram::SourceChallenge { token } && token@ == b.skip(5)
    } else if is_source_info(b) {
        let p = info_payload(b);
        let (z1, z2, z3, z4, z5) = info_terminators(p).unwrap();
        d matches Datagram::SourceInfo(info)
            && info.protocol == p[0]
            && info.name@ == decode_utf8(p.subrange(1, z1))
            && info.map@ == decode_utf8(p.subrange(z1 + 1, z2))
            && info.folder@ == decode_utf8(p.subrange(z2 + 1, z3))
            && info.game@ == decode_utf8(p.subrange(z3 + 1, z4))
            && info.app_id_first == p[z4 + 1]
            && info.app_id_second == p[z4 + 2]
            && info.players == p[z4 + 3]
            && info.players_max == p[z4 + 4]
            && info.bots == p[z4 + 5]
            && info.server_type == p[z4 + 6]
            && info.environment == p[z4 + 7]
            && info.visibility == p[z4 + 8]
            && info.vac == p[z4 + 9]
            && info.version@ == decode_utf8(p.subrange(z4 + 10, z5))
    } else if is_goldsource_info(b) {
        d is GoldSource
    } else if is_gamespy_status(b) {
        let p = gamespy_pieces(b);
        d matches Datagram::GameSpyStatus { hostname, game, map, players, players_max }
            && hostname@ == kv_get(p, key_hostname()).unwrap()
            && game@ == (match kv_get(p, key_gamename()) {
                Some(g) => g,
                None => Seq::empty(),
            })
            && map@ == kv_get(p, key_mapname()).unwrap()
            && players as nat == parse_unsigned(kv_get(p, key_numplayers()).unwrap(), 255).unwrap()
            && players_max as nat == parse_unsigned(kv_get(p, key_maxplayers()).unwrap(), 255).unwrap()
    } else {
        d is Ignored
    }
}

// ---------------------------------------------------------------------------
// Executable decoding
// ---------------------------------------------------------------------------

/// The text that `bytes` encode, if they are valid UTF-8.
///
/// Trusted: calls `String::from_utf8`, which std documents as succeeding
/// exactly on valid UTF-8 and then holding the text those bytes encode.
#[verifier::external_body]
pub(crate) fn string_from_utf8(bytes: Vec<u8>) -> (r: Option<String>)
    ensures
        r is Some <==> valid_utf8(bytes@),
        r matches Some(s) ==> s@ == decode_utf8(bytes@),
{
    match String::from_utf8(bytes) {
        Ok(s) => Some(s),
        Err(_) => None,
    }
}

/// The bytes `b[a..c]`.
pub fn sub_bytes(b: &[u8], a: usize, c: usize) -> (r: Vec<u8>)
    requires
        a <= c <= b.len(),
    ensures
        r@ == b@.subrange(a as int, c as int),
{
    let mut r: Vec<u8> = Vec::new();
    let mut i: usize = a;
    while i < c
        invariant
            a <= i <= c <= b.len(),
            r@ == b@.subrange(a as int, i as int),
        decreases c - i,
    {
        r.push(b[i]);
        assert(b@.subrange(a as int, i as int).push(b@[i as int]) =~= b@.subrange(a as int, i + 1));
        i = i + 1;
    }
    r
}

/// Whether `b` starts with `p`.
pub fn bytes_start_with(b: &[u8], p: &[u8]) -> (r: bool)
    ensures
        r == (b.len() >= p.len() && b@.take(p.len() as int) == p@),
{
    if b.len() < p.len() {
        return false;
    }
    for i in 0..p.len()
        invariant
            b.len() >= p.len(),
            forall|k: int| 0 <= k < i ==> b@[k] == p@[k],
    {
        if b[i] != p[i] {
            assert(b@.take(p.len() as int)[i as int] != p@[i as int]);
            return false;
        }
    }
    assert(b@.take(p.len() as int) =~= p@);
    true
}

pub(crate) fn header_with_type(t: u8) -> (r: Vec<u8>)
    ensures
        r@ == typed_header(t),
{
    let r: Vec<u8> = vec![0xFF, 0xFF, 0xFF, 0xFF, t];
    assert(r@ =~= typed_header(t));
    r
}

pub(crate) fn quake_header_bytes() -> (r: Vec<u8>)
    ensures
        r@ == quake_status_header(),
{
    let r: Vec<u8> = vec![
        0xFF, 0xFF, 0xFF, 0xFF, 0x73, 0x74, 0x61, 0x74, 0x75, 0x73, 0x52, 0x65, 0x73, 0x70, 0x6F,
        0x6E, 0x73, 0x65,
    ];
    assert(r@ =~= quake_status_header());
    r
}

fn gamespy_gamename_bytes() -> (r: Vec<u8>)
    ensures
        r@ == gamespy_gamename_tag(),
{
    let r: Vec<u8> = vec![0x5C, 0x67, 0x61, 0x6D, 0x65, 0x6E, 0x61, 0x6D, 0x65];
    assert(r@ =~= gamespy_gamename_tag());
    r
}

pub(crate) fn gamespy_hostname_bytes() -> (r: Vec<u8>)
    ensures
        r@ == gamespy_hostname_tag(),
{
    let r: Vec<u8> = vec![0x5C, 0x68, 0x6F, 0x73, 0x74, 0x6E, 0x61, 0x6D, 0x65];
    assert(r@ =~= gamespy_hostname_tag());
    r
}

/// The Source `A2S_INFO` query packet.
pub fn source_query_bytes() -> (r: Vec<u8>)
    ensures
        r@ == source_query(),
{
    let r: Vec<u8> = vec![
        0xFF, 0xFF, 0xFF, 0xFF, 0x54, 0x53, 0x6F, 0x75, 0x72, 0x63, 0x65, 0x20, 0x45, 0x6E, 0x67,
        0x69, 0x6E, 0x65, 0x20, 0x51, 0x75, 0x65, 0x72, 0x79, 0x00,
    ];
    assert(r@ =~= source_query());
    r
}

/// The value of `key` in the key/value list `p`.
pub fn kv_get_exec(p: &Vec<Vec<char>>, key: &[char]) -> (r: Option<Vec<char>>)
    ensures
        match kv_get(views(p@), key@) {
            Some(v) => r matches Some(x) && x@ == v,
            None => r is None,
        },
{
    let n = p.len() / 2;
    let mut k: usize = n;
    while k > 0
        invariant
            k <= n,
            n == p.len() / 2,
            kv_get(views(p@), key@) == kv_lookup(views(p@), key@, k as int),
        decreases k,
    {
        let idx = 2 * (k - 1);
        assert(views(p@)[idx as int] == p@[idx as int]@);
        assert(views(p@)[idx + 1] == p@[idx + 1]@);
        if chars_eq(&p[idx], key) {
            let v = &p[idx + 1];
            return Some(sub_chars(v, 0, v.len()));
        }
        k = k - 1;
    }
    None
}

fn key_chars(k: &str) -> (r: Vec<char>)
    ensures
        r@ == k@,
{
    chars_of(k)
}

fn decode_quake(b: &[u8]) -> (r: Option<Datagram>)
    requires
        is_quake_status(b@),
    ensures
        r is Some <==> quake_well_formed(b@),
        r matches Some(d) ==> decodes_to(b@, d),
{
    if b.len() < 20 {
        return None;
    }
    let text = match string_from_utf8(sub_bytes(b, 20, b.len())) {
        Some(t) => t,
        None => {
            assert(b@.subrange(20, b@.len() as int) =~= b@.skip(20));
            return None;
        },
    };
    assert(b@.subrange(20, b@.len() as int) =~= b@.skip(20));
    let chars = chars_of(&text);
    let nl: Vec<char> = vec!['\n'];
    assert(nl@ =~= newline());
    let lines = split_chars(&chars, &nl);
    if lines.len() < 2 {
        return None;
    }
    let bs: Vec<char> = vec!['\\'];
    assert(bs@ =~= backslash());
    assert(views(lines@)[0] == lines@[0]@);
    let pieces = split_chars(&lines[0], &bs);
    if pieces.len() % 2 != 0 {
        return None;
    }
    let k_host: Vec<char> = vec!['s', 'v', '_', 'h', 'o', 's', 't', 'n', 'a', 'm', 'e'];
    assert(k_host@ =~= key_sv_hostname());
    let k_game: Vec<char> = vec!['g', 'a', 'm', 'e', 'n', 'a', 'm', 'e'];
    assert(k_game@ =~= key_gamename());
    let k_map: Vec<char> = vec!['m', 'a', 'p', 'n', 'a', 'm', 'e'];
    assert(k_map@ =~= key_mapname());
    let k_max: Vec<char> = vec!['s', 'v', '_', 'm', 'a', 'x', 'c', 'l', 'i', 'e', 'n', 't', 's'];
    assert(k_max@ =~= key_sv_maxclients());
    let host = match kv_get_exec(&pieces, &k_host) {
        Some(v) => v,
        None => return None,
    };
    let game = match kv_get_exec(&pieces, &k_game) {
        Some(v) => v,
        None => return None,
    };
    let map = match kv_get_exec(&pieces, &k_map) {
        Some(v) => v,
        None => return None,
    };
    let maxv = match kv_get_exec(&pieces, &k_max) {
        Some(v) => v,
        None => return None,
    };
    let players_max = match parse_unsigned_chars(&maxv, 255) {
        Some(m) => m as u8,
        None => return None,
    };
    let count = lines.len() - 2;
    let players = (count % 256) as u8;
    Some(
        Datagram::QuakeStatus {
            hostname: string_from_chars(&host),
            game: string_from_chars(&game),
            map: string_from_chars(&map),
            players,
            players_max,
        },
    )
}

fn decode_gamespy(b: &[u8]) -> (r: Option<Datagram>)
    requires
        is_gamespy_status(b@),
    ensures
        r is Some <==> gamespy_well_formed(b@),
        r matches Some(d) ==> decodes_to(b@, d),
{
    let text = match string_from_utf8(sub_bytes(b, 1, b.len())) {
        Some(t) => t,
        None => {
            assert(b@.subrange(1, b@.len() as int) =~= b@.skip(1));
            return None;
        },
    };
    assert(b@.subrange(1, b@.len() as int) =~= b@.skip(1));
    let chars = chars_of(&text);
    let bs: Vec<char> = vec!['\\'];
    assert(bs@ =~= backslash());
    let pieces = split_chars(&chars, &bs);
    if pieces.len() % 2 != 0 {
        return None;
    }
    let k_host: Vec<char> = vec!['h', 'o', 's', 't', 'n', 'a', 'm', 'e'];
    assert(k_host@ =~= key_hostname());
    let k_game: Vec<char> = vec!['g', 'a', 'm', 'e', 'n', 'a', 'm', 'e'];
    assert(k_game@ =~= key_gamename());
    let k_map: Vec<char> = vec!['m', 'a', 'p', 'n', 'a', 'm', 'e'];
    assert(k_map@ =~= key_mapname());
    let k_num: Vec<char> = vec!['n', 'u', 'm', 'p', 'l', 'a', 'y', 'e', 'r', 's'];
    assert(k_num@ =~= key_numplayers());
    let k_max: Vec<char> = vec!['m', 'a', 'x', 'p', 'l', 'a', 'y', 'e', 'r', 's'];
    assert(k_max@ =~= key_maxplayers());
    let host = match kv_get_exec(&pieces, &k_host) {
        Some(v) => v,
        None => return None,
    };
    let map = match kv_get_exec(&pieces, &k_map) {
        Some(v) => v,
        None => return None,
    };
    let numv = match kv_get_exec(&pieces, &k_num) {
        Some(v) => v,
        None => return None,
    };
    let players = match parse_unsigned_chars(&numv, 255) {
        Some(m) => m as u8,
        None => return None,
    };
    let maxv = match kv_get_exec(&pieces, &k_max) {
        Some(v) => v,
        None => return None,
    };
    let players_max = match parse_unsigned_chars(&maxv, 255) {
        Some(m) => m as u8,
        None => return None,
    };
    let game = match kv_get_exec(&pieces, &k_game) {
        Some(v) => v,
        None => Vec::new(),
    };
    Some(
        Datagram::GameSpyStatus {
            hostname: string_from_chars(&host),
            game: string_from_chars(&game),
            map: string_from_chars(&map),
            players,
            players_max,
        },
    )
}

/// First index `>= i` of a zero byte in `p`.
pub fn zero_from_exec(p: &[u8], i: usize) -> (r: Option<usize>)
    ensures
        match zero_from(p@, i as int) {
            Some(z) => r == Some(z as usize),
            None => r is None,
        },
{
    let mut k: usize = i;
    while k < p.len()
        invariant
            i <= k,
            zero_from(p@, i as int) == zero_from(p@, k as int),
        decreases p.len() - k,
    {
        if p[k] == 0 {
            return Some(k);
        }
        k = k + 1;
    }
    None
}

proof fn lemma_zero_from_bounds(p: Seq<u8>, i: int)
    ensures
        zero_from(p, i) matches Some(z) ==> i <= z < p.len() && p[z] == 0,
    decreases p.len() - i,
{
    if i < 0 || i >= p.len() {
    } else if p[i] == 0 {
    } else {
        lemma_zero_from_bounds(p, i + 1);
    }
}

fn decode_string(p: &[u8], a: usize, c: usize) -> (r: Option<String>)
    requires
        a <= c <= p.len(),
    ensures
        r is Some <==> valid_utf8(p@.subrange(a as int, c as int)),
        r matches Some(s) ==> s@ == decode_utf8(p@.subrange(a as int, c as int)),
{
    string_from_utf8(sub_bytes(p, a, c))
}

pub(crate) fn decode_source_info(b: &[u8]) -> (r: Option<Datagram>)
    requires
        is_source_info(b@),
    ensures
        r is Some <==> info_well_formed(b@),
        r matches Some(d) ==> decodes_to(b@, d),
{
    proof {
        lemma_kinds_exclusive(b@);
    }
    let p = sub_bytes(b, 5, b.len());
    assert(p@ =~= info_payload(b@));
    let z1 = match zero_from_exec(&p, 1) {
        Some(z) => z,
        None => return None,
    };
    proof { lemma_zero_from_bounds(p@, 1); }
    let z2 = match zero_from_exec(&p, z1 + 1) {
        Some(z) => z,
        None => return None,
    };
    proof { lemma_zero_from_bounds(p@, z1 + 1); }
    let z3 = match zero_from_exec(&p, z2 + 1) {
        Some(z) => z,
        None => return None,
    };
    proof { lemma_zero_from_bounds(p@, z2 + 1); }
    let z4 = match zero_from_exec(&p, z3 + 1) {
        Some(z) => z,
        None => return None,
    };
    proof { lemma_zero_from_bounds(p@, z3 + 1); }
    if p.len() - z4 < 10 {
        return None;
    }
    let z5 = match zero_from_exec(&p, z4 + 10) {
        Some(z) => z,
        None => return None,
    };
    proof { lemma_zero_from_bounds(p@, z4 + 10); }
    assert(info_terminators(p@) == Some((z1 as int, z2 as int, z3 as int, z4 as int, z5 as int)));
    let name = match decode_string(&p, 1, z1) {
        Some(x) => x,
        None => return None,
    };
    let map = match decode_string(&p, z1 + 1, z2) {
        Some(x) => x,
        None => return None,
    };
    let folder = match decode_string(&p, z2 + 1, z3) {
        Some(x) => x,
        None => return None,
    };
    let game = match decode_string(&p, z3 + 1, z4) {
        Some(x) => x,
        None => return None,
    };
    let version = match decode_string(&p, z4 + 10, z5) {
        Some(x) => x,
        None => return None,
    };
    Some(
        Datagram::SourceInfo(
            SourceInfo {
                protocol: p[0],
                name,
                map,
                folder,
                game,
                app_id_first: p[z4 + 1],
                app_id_second: p[z4 + 2],
                players: p[z4 + 3],
                players_max: p[z4 + 4],
                bots: p[z4 + 5],
                server_type: p[z4 + 6],
                environment: p[z4 + 7],
                visibility: p[z4 + 8],
                vac: p[z4 + 9],
                version,
            },
        ),
    )
}

/// The kinds of response exclude one another: they differ in their first or
/// fifth byte.
pub proof fn lemma_kinds_exclusive(b: Seq<u8>)
    ensures
        is_quake_status(b) ==> !is_source_challenge(b) && !is_source_info(b)
            && !is_goldsource_info(b) && !is_gamespy_status(b),
        is_source_challenge(b) ==> !is_source_info(b) && !is_goldsource_info(b)
            && !is_gamespy_status(b),
        is_source_info(b) ==> !is_goldsource_info(b) && !is_gamespy_status(b),
        is_goldsource_info(b) ==> !is_gamespy_status(b),
{
    if b.len() >= 5 {
        assert(b.take(5)[4] == b[4]);
        assert(b.take(5)[0] == b[0]);
    }
    if b.len() >= 9 {
        assert(b.take(9)[0] == b[0]);
    }
    if b.len() >= 18 {
        assert(b.take(18)[4] == b[4]);
    }
}

/// Decodes `b`, or `None` when `b` is not well formed.
fn try_decode(b: &[u8]) -> (r: Option<Datagram>)
    ensures
        r is Some <==> datagram_well_formed(b@),
        r matches Some(d) ==> decodes_to(b@, d),
{
    proof {
        lemma_kinds_exclusive(b@);
    }
    let qh = quake_header_bytes();
    let is_quake = b.len() >= 18 && bytes_start_with(b, &qh);
    if is_quake {
        return decode_quake(b);
    }
    let ch = header_with_type(S2C_CHALLENGE);
    let ih = header_with_type(S2A_INFO);
    let gh = header_with_type(S2A_INFO_GOLDSRC);
    if b.len() == 9 && bytes_start_with(b, &ch) {
        return Some(Datagram::SourceChallenge { token: sub_bytes(b, 5, 9) });
    }
    if b.len() > 5 && bytes_start_with(b, &ih) {
        return decode_source_info(b);
    }
    if b.len() > 5 && bytes_start_with(b, &gh) {
        return Some(Datagram::GoldSource);
    }
    let t1 = gamespy_gamename_bytes();
    let t2 = gamespy_hostname_bytes();
    if b.len() > 9 && (bytes_start_with(b, &t1) || bytes_start_with(b, &t2)) {
        return decode_gamespy(b);
    }
    Some(Datagram::Ignored)
}

/// Whether `b` can be decoded (see [`decode_datagram`]).
pub fn datagram_is_well_formed(b: &[u8]) -> (r: bool)
    ensures
        r == datagram_well_formed(b@),
{
    try_decode(b).is_some()
}

/// Decodes a response received from a game server.
pub fn decode_datagram(b: &[u8]) -> (d: Datagram)
    requires
        datagram_well_formed(b@),
    ensures
        decodes_to(b@, d),
{
    match try_decode(b) {
        Some(d) => d,
        None => Datagram::Ignored,
    }
}

} // verus!
