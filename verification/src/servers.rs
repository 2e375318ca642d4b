//! Scanned game servers and the updates the scanner reports.
use vstd::prelude::*;
use crate::network::Endpoint;
use crate::protocol::{Datagram, SourceInfo};


verus! {

/// What a query found out about a game server.
#[derive(Debug, Clone, PartialEq, Eq)]
pub struct ScannedServer {
    pub socket_addr: Endpoint,
    pub hostname: Option<String>,
    pub game: Option<String>,
    pub map: Option<String>,
    pub players: Option<u8>,
    pub players_max: Option<u8>,
    pub query_port: Option<u16>,
    /// Round-trip time in milliseconds, when known.
    pub ping: Option<u16>,
    pub bots: Option<u8>,
    pub has_password: bool,
    pub password: Option<String>,
}

/// The kind of query that is pending for a server.
#[derive(Debug, Clone, Copy, PartialEq, Eq, Structural)]
pub enum PendingQuery {
    Info,
    Player,
    Rules,
}

/// A player as reported by a player query.
#[derive(Debug, Clone, PartialEq, Eq)]
pub struct PlayerInfo {
    pub name: String,
    pub score: i32,
    pub ping: Option<u16>,
    /// Time on the server, in milliseconds.
    pub duration_ms: Option<u64>,
    pub index: Option<u8>,
    pub team: Option<u8>,
    pub skin: Option<String>,
    pub is_bot: bool,
}

/// What the scanner reports about a server.
#[derive(Debug, Clone, PartialEq, Eq)]
pub enum ServerUpdate {
    FullServer(ScannedServer),
    PlayerList { addr: Endpoint, players: Vec<PlayerInfo> },
    Failed { addr: Endpoint },
}

/// Commands for the scanner.
#[derive(Debug, Clone, PartialEq, Eq)]
pub enum ScanCommand {
    /// Query one server.
    ScanServer { addr: Endpoint, query_type: PendingQuery },
    /// Query several servers.
    BatchScan { addrs: Vec<Endpoint>, query_type: PendingQuery },
    /// Forget every query in flight.
    Cancel,
}

/// Short name of the game with Steam application ID `id`, if it is one the
/// browser names itself.
pub open spec fn known_game_label(id: u16) -> Option<Seq<char>> {
    if id == 10 {
        Some(seq!['C', 'S'])
    } else if id == 20 {
        Some(seq!['T', 'F', 'C'])
    } else if id == 30 {
        Some(seq!['D', 'o', 'D'])
    } else if id == 240 {
        Some(seq!['C', 'S', 'S'])
    } else if id == 300 {
        Some(seq!['D', 'o', 'D', ':', 'S'])
    } else if id == 440 {
        Some(seq!['T', 'F', '2'])
    } else if id == 730 {
        Some(seq!['C', 'S', '2'])
    } else {
        None
    }
}

/// The known application IDs with their short names: Counter-Strike,
/// Team Fortress Classic, Day of Defeat, Counter-Strike: Source, Day of
/// Defeat: Source, Team Fortress 2 and Counter-Strike 2.
pub open spec fn game_table() -> Seq<(u16, Seq<char>)> {
    seq![
        (10u16, "CS"@),
        (20u16, "TFC"@),
        (30u16, "DoD"@),
        (240u16, "CSS"@),
        (300u16, "DoD:S"@),
        (440u16, "TF2"@),
        (730u16, "CS2"@),
    ]
}

/// Each known application ID is labelled with its own short name from the
/// table, no other ID is labelled, and two different known IDs never share
/// a label.
pub proof fn law_game_labels_distinct(a: u16, b: u16)
    ensures
        forall|i: int| 0 <= i < game_table().len() ==> known_game_label(#[trigger] game_table()[i].0) == Some(game_table()[i].1),
        known_game_label(a) is Some ==> exists|i: int| 0 <= i < game_table().len() && game_table()[i].0 == a,
        a != b && known_game_label(a) is Some && known_game_label(b) is Some ==> known_game_label(a) != known_game_label(b),
{
    reveal_strlit("CS");
    reveal_strlit("TFC");
    reveal_strlit("DoD");
    reveal_strlit("CSS");
    reveal_strlit("DoD:S");
    reveal_strlit("TF2");
    reveal_strlit("CS2");
    let t = game_table();
    assert(t[0].0 == 10 && t[1].0 == 20 && t[2].0 == 30 && t[3].0 == 240 && t[4].0 == 300 && t[5].0 == 440 && t[6].0 == 730);
    assert forall|i: int| 0 <= i < t.len() implies known_game_label(#[trigger] t[i].0) == Some(t[i].1) by {
        assert(known_game_label(10) == Some("CS"@));
    }
    if known_game_label(a) is Some {
        if a == 10 { assert(t[0].0 == a); } else if a == 20 { assert(t[1].0 == a); } else if a == 30 { assert(t[2].0 == a); }
        else if a == 240 { assert(t[3].0 == a); } else if a == 300 { assert(t[4].0 == a); } else if a == 440 { assert(t[5].0 == a); }
        else { assert(t[6].0 == a); }
    }
    if a != b && known_game_label(a) is Some && known_game_label(b) is Some {
        let la = known_game_label(a).unwrap();
        let lb = known_game_label(b).unwrap();
        assert(la.len() != lb.len() || la[0] != lb[0] || la[la.len() - 1] != lb[lb.len() - 1]);
    }
}

/// The game name shown for a Source server: the short name of a known
/// application ID, otherwise the game description the server sent.
pub open spec fn game_label(id: u16, description: Seq<char>) -> Seq<char> {
    match known_game_label(id) {
        Some(l) => l,
        None => description,
    }
}

/// The game name shown for a Source server.
pub fn game_name(id: u16, description: &String) -> (r: String)
    ensures
        r@ == game_label(id, description@),
{
    let r = if id == 10 {
        "CS"
    } else if id == 20 {
        "TFC"
    } else if id == 30 {
        "DoD"
    } else if id == 240 {
        "CSS"
    } else if id == 300 {
        "DoD:S"
    } else if id == 440 {
        "TF2"
    } else if id == 730 {
        "CS2"
    } else {
        return description.clone();
    };
    proof {
        reveal_strlit("CS");
        reveal_strlit("TFC");
        reveal_strlit("DoD");
        reveal_strlit("CSS");
        reveal_strlit("DoD:S");
        reveal_strlit("TF2");
        reveal_strlit("CS2");
    }
    let s = String::from_str(r);
    assert(s@ =~= game_label(id, description@));
    s
}

/// The two bytes read as a little-endian and as a big-endian `u16`.
pub open spec fn u16_le(a: u8, b: u8) -> u16 {
    (a as int + 256 * b as int) as u16
}

pub open spec fn u16_be(a: u8, b: u8) -> u16 {
    (256 * a as int + b as int) as u16
}

/// The two bytes read in the machine's byte order.
///
/// Trusted: calls `u16::from_ne_bytes`, which std documents as reading the
/// bytes in native byte order, so the result is the little-endian or the
/// big-endian reading of them.
#[verifier::external_body]
fn u16_from_native_bytes(a: u8, b: u8) -> (r: u16)
    ensures
        r == u16_le(a, b) || r == u16_be(a, b),
{
    u16::from_ne_bytes([a, b])
}

/// The Steam application ID of an info response, read in the machine's byte
/// order.
pub fn app_id_of(info: &SourceInfo) -> (r: u16)
    ensures
        r == u16_le(info.app_id_first, info.app_id_second) || r == u16_be(
            info.app_id_first,
            info.app_id_second,
        ),
{
    u16_from_native_bytes(info.app_id_first, info.app_id_second)
}

/// The server a Source info response describes, given its application ID.
pub fn scanned_from_source(info: &SourceInfo, addr: Endpoint, ping: Option<u16>, app_id: u16) -> (r:
    ScannedServer)
    ensures
        r.socket_addr == addr,
        r.hostname matches Some(h) && h@ == info.name@,
        r.game matches Some(g) && g@ == game_label(app_id, info.game@),
        r.map matches Some(m) && m@ == info.map@,
        r.players == Some(info.players),
        r.players_max == Some(info.players_max),
        r.query_port == Some(addr.port),
        r.ping == ping,
        r.bots == Some(info.bots),
        r.has_password == (info.visibility == 1),
        r.password is None,
{
    ScannedServer {
        socket_addr: addr,
        hostname: Some(info.name.clone()),
        game: Some(game_name(app_id, &info.game)),
        map: Some(info.map.clone()),
        players: Some(info.players),
        players_max: Some(info.players_max),
        query_port: Some(addr.port),
        ping,
        bots: Some(info.bots),
        has_password: info.visibility == 1,
        password: None,
    }
}

/// `s` is what a Source info response says about the server at `addr`,
/// with the application ID read in either byte order.
pub open spec fn describes_source_any_order(
    s: ScannedServer,
    info: SourceInfo,
    addr: Endpoint,
    ping: Option<u16>,
) -> bool {
    &&& s.socket_addr == addr
    &&& s.hostname is Some && s.hostname.unwrap()@ == info.name@
    &&& s.game is Some && (s.game.unwrap()@ == game_label(
        u16_le(info.app_id_first, info.app_id_second),
        info.game@,
    ) || s.game.unwrap()@ == game_label(u16_be(info.app_id_first, info.app_id_second), info.game@))
    &&& s.map is Some && s.map.unwrap()@ == info.map@
    &&& s.players == Some(info.players)
    &&& s.players_max == Some(info.players_max)
    &&& s.query_port == Some(addr.port)
    &&& s.ping == ping
    &&& s.bots == Some(info.bots)
    &&& s.has_password == (info.visibility == 1)
    &&& s.password is None
}

/// `s` is what the decoded response `d` says about the server at `addr`,
/// measured with `ping`.
pub open spec fn scanned_describes(d: Datagram, addr: Endpoint, ping: Option<u16>, s: ScannedServer) -> bool {
    match d {
        Datagram::QuakeStatus { hostname, game, map, players, players_max } => describes_status(
            s,
            hostname@,
            game@,
            map@,
            players,
            players_max,
            addr,
            ping,
        ),
        Datagram::GameSpyStatus { hostname, game, map, players, players_max } => describes_status(
            s,
            hostname@,
            game@,
            map@,
            players,
            players_max,
            addr,
            ping,
        ),
        Datagram::SourceInfo(info) => describes_source_any_order(s, info, addr, ping),
        _ => false,
    }
}

/// `s` is what a Quake 3 or GameSpy status response with these fields says
/// about the server at `addr`.
pub open spec fn describes_status(
    s: ScannedServer,
    hostname: Seq<char>,
    game: Seq<char>,
    map: Seq<char>,
    players: u8,
    players_max: u8,
    addr: Endpoint,
    ping: Option<u16>,
) -> bool {
    &&& s.socket_addr == addr
    &&& s.hostname is Some && s.hostname.unwrap()@ == hostname
    &&& s.game is Some && s.game.unwrap()@ == game
    &&& s.map is Some && s.map.unwrap()@ == map
    &&& s.players == Some(players)
    &&& s.players_max == Some(players_max)
    &&& s.query_port == Some(addr.port)
    &&& s.ping == ping
    &&& s.bots is None
    &&& !s.has_password
    &&& s.password is None
}

/// `d` describes the server that sent it.
pub open spec fn describes_server(d: Datagram) -> bool {
    d is QuakeStatus || d is GameSpyStatus || d is SourceInfo
}

/// What a decoded response says about the server that sent it: Quake 3,
/// Source and GameSpy responses describe it, the others do not.
pub fn scanned_from_datagram(d: &Datagram, addr: Endpoint, ping: Option<u16>) -> (r: Option<
    ScannedServer,
>)
    ensures
        describes_server(*d) ==> (r matches Some(s) && scanned_describes(*d, addr, ping, s)),
        !describes_server(*d) ==> r is None,
{
    match d {
        Datagram::QuakeStatus { hostname, game, map, players, players_max } => Some(
            ScannedServer {
                socket_addr: addr,
                hostname: Some(hostname.clone()),
                game: Some(game.clone()),
                map: Some(map.clone()),
                players: Some(*players),
                players_max: Some(*players_max),
                query_port: Some(addr.port),
                ping,
                bots: None,
                has_password: false,
                password: None,
            },
        ),
        Datagram::GameSpyStatus { hostname, game, map, players, players_max } => Some(
            ScannedServer {
                socket_addr: addr,
                hostname: Some(hostname.clone()),
                game: Some(game.clone()),
                map: Some(map.clone()),
                players: Some(*players),
                players_max: Some(*players_max),
                query_port: Some(addr.port),
                ping,
                bots: None,
                has_password: false,
                password: None,
            },
        ),
        Datagram::SourceInfo(info) => {
            let id = app_id_of(info);
            Some(scanned_from_source(info, addr, ping, id))
        },
        _ => None,
    }
}

} // verus!
