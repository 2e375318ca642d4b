//! The plain server list: each response a game server sends is turned into
//! a list entry with every field as text, a reply to send, or nothing.
use vstd::prelude::*;
use vstd::utf8::{decode_utf8, valid_utf8};
use crate::protocol::{
    backslash, bytes_start_with, decode_source_info, gamespy_hostname_bytes, gamespy_hostname_tag,
    gamespy_pieces, header_with_type, info_payload, info_terminators, info_well_formed,
    is_quake_status, is_source_challenge, is_source_info, key_gamename, key_hostname,
    key_mapname, key_maxplayers, key_numplayers, key_sv_hostname, key_sv_maxclients, kv_get,
    kv_get_exec, quake_header_bytes, quake_text, source_query, source_query_bytes,
    string_from_utf8, sub_bytes, Datagram, S2C_CHALLENGE, S2A_INFO,
};
use crate::text::{chars_of, decimal, split, split_chars, string_from_chars, u64_to_string};

verus! {

/// A server as the plain list shows it: every field as text.
#[derive(Debug)]
pub struct Server {
    pub ip_port: String,
    pub hostname: String,
    pub game: String,
    pub map: String,
    pub players: String,
    pub players_max: String,
    pub query_port: u16,
    pub rcon: Option<String>,
}

/// What one response gives the list.
#[derive(Debug)]
pub enum Listing {
    /// An entry for the server that sent it.
    Listed(Server),
    /// A packet to send back to that server.
    Reply(Vec<u8>),
    /// Nothing.
    Nothing,
}

/// `b` is a GameSpy status response that starts with `\hostname`.
pub open spec fn is_hostname_status(b: Seq<u8>) -> bool {
    b.len() > 9 && b.take(9) == gamespy_hostname_tag()
}

/// The keys and values of a Quake 3 status response: the whole text after
/// the header, its newline and the leading backslash, split at backslashes.
pub open spec fn quake_all_pieces(b: Seq<u8>) -> Seq<Seq<char>> {
    split(quake_text(b), backslash())
}

/// A Quake 3 status response the list can read: UTF-8 text, whole
/// key/value pairs, and the host name, game, map and maximum players.
pub open spec fn quake_listable(b: Seq<u8>) -> bool {
    let p = quake_all_pieces(b);
    &&& b.len() >= 20
    &&& valid_utf8(b.skip(20))
    &&& p.len() % 2 == 0
    &&& kv_get(p, key_sv_hostname()) is Some
    &&& kv_get(p, key_gamename()) is Some
    &&& kv_get(p, key_mapname()) is Some
    &&& kv_get(p, key_sv_maxclients()) is Some
}

/// A `\hostname` GameSpy response the list can read: UTF-8 text, whole
/// key/value pairs, and the host name, map and both player counts.
pub open spec fn hostname_listable(b: Seq<u8>) -> bool {
    let p = gamespy_pieces(b);
    &&& valid_utf8(b.skip(1))
    &&& p.len() % 2 == 0
    &&& kv_get(p, key_hostname()) is Some
    &&& kv_get(p, key_mapname()) is Some
    &&& kv_get(p, key_numplayers()) is Some
    &&& kv_get(p, key_maxplayers()) is Some
}

/// A response holds what the list reads of it.
pub open spec fn listable(b: Seq<u8>) -> bool {
    &&& is_quake_status(b) ==> quake_listable(b)
    &&& is_source_info(b) ==> info_well_formed(b)
    &&& is_hostname_status(b) ==> hostname_listable(b)
}

/// `s` is an entry for the server at `ip_text:port`.
pub open spec fn entry_for(s: Server, ip_text: Seq<char>, port: u16) -> bool {
    &&& s.ip_port@ == ip_text + seq![':'] + decimal(port as nat)
    &&& s.query_port == port
    &&& s.rcon is None
}

/// What response `b` from `ip_text:port` gives the list: a Quake 3 status
/// its keys as text (no player count), a Source challenge the info query
/// with the token appended, a Source info response its fields with the
/// counts in decimal, a `\hostname` GameSpy response its keys as text (no
/// game), anything else nothing.
pub open spec fn listing_of(b: Seq<u8>, ip_text: Seq<char>, port: u16, l: Listing) -> bool {
    if is_quake_status(b) {
        let p = quake_all_pieces(b);
        l matches Listing::Listed(s) && entry_for(s, ip_text, port)
            && s.hostname@ == kv_get(p, key_sv_hostname()).unwrap()
            && s.game@ == kv_get(p, key_gamename()).unwrap()
            && s.map@ == kv_get(p, key_mapname()).unwrap()
            && s.players@.len() == 0
            && s.players_max@ == kv_get(p, key_sv_maxclients()).unwrap()
    } else if is_source_challenge(b) {
        l matches Listing::Reply(r) && r@ == source_query() + b.skip(5)
    } else if is_source_info(b) {
        let p = info_payload(b);
        let (z1, z2, z3, z4, z5) = info_terminators(p).unwrap();
        l matches Listing::Listed(s) && entry_for(s, ip_text, port)
            && s.hostname@ == decode_utf8(p.subrange(1, z1))
            && s.map@ == decode_utf8(p.subrange(z1 + 1, z2))
            && s.game@ == decode_utf8(p.subrange(z3 + 1, z4))
            && s.players@ == decimal(p[z4 + 3] as nat)
            && s.players_max@ == decimal(p[z4 + 4] as nat)
    } else if is_hostname_status(b) {
        let p = gamespy_pieces(b);
        l matches Listing::Listed(s) && entry_for(s, ip_text, port)
            && s.hostname@ == kv_get(p, key_hostname()).unwrap()
            && s.game@.len() == 0
            && s.map@ == kv_get(p, key_mapname()).unwrap()
            && s.players@ == kv_get(p, key_numplayers()).unwrap()
            && s.players_max@ == kv_get(p, key_maxplayers()).unwrap()
    } else {
        l is Nothing
    }
}

fn ip_port_text(ip_text: &str, port: u16) -> (r: String)
    ensures
        r@ == ip_text@ + seq![':'] + decimal(port as nat),
{
    let mut r = String::from_str(ip_text);
    proof {
        reveal_strlit(":");
    }
    assert(":"@ =~= seq![':']);
    r.append(":");
    r.append(u64_to_string(port as u64).as_str());
    r
}

fn list_quake(b: &[u8], ip_text: &str, port: u16) -> (r: Option<Listing>)
    requires
        is_quake_status(b@),
    ensures
        r is Some <==> quake_listable(b@),
        r matches Some(l) ==> listing_of(b@, ip_text@, port, l),
{
    if b.len() < 20 {
        return None;
    }
    assert(b@.subrange(20, b@.len() as int) =~= b@.skip(20));
    let text = match string_from_utf8(sub_bytes(b, 20, b.len())) {
        Some(t) => t,
        None => return None,
    };
    let chars = chars_of(&text);
    let bs: Vec<char> = vec!['\\'];
    assert(bs@ =~= backslash());
    let pieces = split_chars(&chars, &bs);
    if pieces.len() % 2 != 0 {
        return None;
    }
    let k_host: Vec<char> = vec!['s', 'v', '_', 'h', 'o', 's', 't', 'n', 'a', 'm', 'e'];
    assert(k_host@ =~= key_sv_hostname());
    let k_game: Vec<char> = vec!['g', 'a', 'm', 'e', 'n', 'a', 'm', 'e'];
    assert(k_game@ =~= key_gamename());
    let k_map: Vec<char> = vec!['m', 'a', 'p', 'n', 'a', 'm', 'e'];
    assert(k_map@ =~= key_mapname());
    let k_max: Vec<char> = vec!['s', 'v', '_', 'm', 'a', 'x', 'c', 'l', 'i', 'e', 'n', 't', 's'];
    assert(k_max@ =~= key_sv_maxclients());
    let host = match kv_get_exec(&pieces, &k_host) {
        Some(v) => v,
        None => return None,
    };
    let game = match kv_get_exec(&pieces, &k_game) {
        Some(v) => v,
        None => return None,
    };
    let map = match kv_get_exec(&pieces, &k_map) {
        Some(v) => v,
        None => return None,
    };
    let maxv = match kv_get_exec(&pieces, &k_max) {
        Some(v) => v,
        None => return None,
    };
    Some(
        Listing::Listed(
            Server {
                ip_port: ip_port_text(ip_text, port),
                hostname: string_from_chars(&host),
                game: string_from_chars(&game),
                map: string_from_chars(&map),
                players: String::new(),
                players_max: string_from_chars(&maxv),
                query_port: port,
                rcon: None,
            },
        ),
    )
}

fn list_hostname_status(b: &[u8], ip_text: &str, port: u16) -> (r: Option<Listing>)
    requires
        is_hostname_status(b@),
        !is_quake_status(b@),
        !is_source_challenge(b@),
        !is_source_info(b@),
    ensures
        r is Some <==> hostname_listable(b@),
        r matches Some(l) ==> listing_of(b@, ip_text@, port, l),
{
    assert(b@.subrange(1, b@.len() as int) =~= b@.skip(1));
    let text = match string_from_utf8(sub_bytes(b, 1, b.len())) {
        Some(t) => t,
        None => return None,
    };
    let chars = chars_of(&text);
    let bs: Vec<char> = vec!['\\'];
    assert(bs@ =~= backslash());
    let pieces = split_chars(&chars, &bs);
    if pieces.len() % 2 != 0 {
        return None;
    }
    let k_host: Vec<char> = vec!['h', 'o', 's', 't', 'n', 'a', 'm', 'e'];
    assert(k_host@ =~= key_hostname());
    let k_map: Vec<char> = vec!['m', 'a', 'p', 'n', 'a', 'm', 'e'];
    assert(k_map@ =~= key_mapname());
    let k_num: Vec<char> = vec!['n', 'u', 'm', 'p', 'l', 'a', 'y', 'e', 'r', 's'];
    assert(k_num@ =~= key_numplayers());
    let k_max: Vec<char> = vec!['m', 'a', 'x', 'p', 'l', 'a', 'y', 'e', 'r', 's'];
    assert(k_max@ =~= key_maxplayers());
    let host = match kv_get_exec(&pieces, &k_host) {
        Some(v) => v,
        None => return None,
    };
    let map = match kv_get_exec(&pieces, &k_map) {
        Some(v) => v,
        None => return None,
    };
    let num = match kv_get_exec(&pieces, &k_num) {
        Some(v) => v,
        None => return None,
    };
    let maxv = match kv_get_exec(&pieces, &k_max) {
        Some(v) => v,
        None => return None,
    };
    Some(
        Listing::Listed(
            Server {
                ip_port: ip_port_text(ip_text, port),
                hostname: string_from_chars(&host),
                game: String::new(),
                map: string_from_chars(&map),
                players: string_from_chars(&num),
                players_max: string_from_chars(&maxv),
                query_port: port,
                rcon: None,
            },
        ),
    )
}

/// Reads `b`, or `None` when the list cannot read it.
fn try_list(b: &[u8], ip_text: &str, port: u16) -> (r: Option<Listing>)
    ensures
        r is Some <==> listable(b@),
        r matches Some(l) ==> listing_of(b@, ip_text@, port, l),
{
    proof {
        crate::protocol::lemma_kinds_exclusive(b@);
        if b@.len() > 9 {
            assert(b@.take(9)[0] == b@[0]);
        }
        if b@.len() >= 5 {
            assert(b@.take(5)[0] == b@[0]);
        }
        if b@.len() >= 18 {
            assert(b@.take(18)[0] == b@[0]);
        }
    }
    let qh = quake_header_bytes();
    if b.len() >= 18 && bytes_start_with(b, &qh) {
        return list_quake(b, ip_text, port);
    }
    let ch = header_with_type(S2C_CHALLENGE);
    if b.len() == 9 && bytes_start_with(b, &ch) {
        let mut reply = source_query_bytes();
        let mut token = sub_bytes(b, 5, 9);
        reply.append(&mut token);
        assert(b@.subrange(5, 9) =~= b@.skip(5));
        return Some(Listing::Reply(reply));
    }
    let ih = header_with_type(S2A_INFO);
    if b.len() > 5 && bytes_start_with(b, &ih) {
        return match decode_source_info(b) {
            Some(Datagram::SourceInfo(info)) => Some(
                Listing::Listed(
                    Server {
                        ip_port: ip_port_text(ip_text, port),
                        hostname: info.name,
                        game: info.game,
                        map: info.map,
                        players: u64_to_string(info.players as u64),
                        players_max: u64_to_string(info.players_max as u64),
                        query_port: port,
                        rcon: None,
                    },
                ),
            ),
            _ => None,
        };
    }
    let th = gamespy_hostname_bytes();
    if b.len() > 9 && bytes_start_with(b, &th) {
        return list_hostname_status(b, ip_text, port);
    }
    Some(Listing::Nothing)
}

/// Whether the list can read response `b` (see [`Server::from_response`]).
pub fn is_listable(b: &[u8]) -> (r: bool)
    ensures
        r == listable(b@),
{
    try_list(b, "", 0).is_some()
}

impl Server {
    /// What response `b` from `ip_text:port` gives the list.
    pub fn from_response(b: &[u8], ip_text: &str, port: u16) -> (r: Listing)
        requires
            listable(b@),
        ensures
            listing_of(b@, ip_text@, port, r),
    {
        match try_list(b, ip_text, port) {
            Some(l) => l,
            None => Listing::Nothing,
        }
    }
}

/// A response as received: its bytes and the sender's address as text and
/// port.
pub struct Received {
    pub bytes: Vec<u8>,
    pub ip_text: String,
    pub port: u16,
}

/// What a run of responses gives the list, in the order they came: one
/// outcome each, entries and replies never reordered.
pub fn list_responses(received: &Vec<Received>) -> (r: Vec<Listing>)
    requires
        forall|i: int| 0 <= i < received@.len() ==> listable(#[trigger] received@[i].bytes@),
    ensures
        r@.len() == received@.len(),
        forall|i: int|
            0 <= i < r@.len() ==> listing_of(
                received@[i].bytes@,
                received@[i].ip_text@,
                received@[i].port,
                #[trigger] r@[i],
            ),
{
    let mut out: Vec<Listing> = Vec::new();
    for i in 0..received.len()
        invariant
            out@.len() == i,
            forall|k: int| 0 <= k < received@.len() ==> listable(#[trigger] received@[k].bytes@),
            forall|k: int|
                0 <= k < i ==> listing_of(
                    received@[k].bytes@,
                    received@[k].ip_text@,
                    received@[k].port,
                    #[trigger] out@[k],
                ),
    {
        let p = &received[i];
        assert(listable(received@[i as int].bytes@));
        let l = Server::from_response(p.bytes.as_slice(), p.ip_text.as_str(), p.port);
        out.push(l);
    }
    out
}

} // verus!
