//! The list of known game servers: merged from scanner reports, aged out
//! when silent, and kept as favourites with their login details.
use vstd::prelude::*;
use crate::network::{Endpoint, is_local, is_local_address};
use crate::servers::{PlayerInfo, ScannedServer, ServerUpdate};
use crate::text::chars_of;

verus! {

/// Seconds without a report after which a server counts as gone.
pub const SERVER_TIMEOUT_SECS: i64 = 15;

/// Seconds without a report after which a favourite is queried again.
pub const REQUERY_SECS: i64 = 6;

/// A known game server.
#[derive(Debug, Clone, PartialEq)]
pub struct GameServer {
    pub scanned: ScannedServer,
    /// The players last reported.
    pub players_list: Vec<PlayerInfo>,
    pub rcon_password: Option<String>,
    pub rcon_autologin: bool,
    pub is_favorite: bool,
    /// When the server last reported, in seconds since the epoch.
    pub last_update: Option<i64>,
}

/// A known game server as a mathematical value.
pub struct ServerView {
    pub scanned: ScannedServer,
    pub players_list: Seq<PlayerInfo>,
    pub rcon_password: Option<String>,
    pub rcon_autologin: bool,
    pub is_favorite: bool,
    pub last_update: Option<i64>,
}

impl View for GameServer {
    type V = ServerView;

    open spec fn view(&self) -> ServerView {
        ServerView {
            scanned: self.scanned,
            players_list: self.players_list@,
            rcon_password: self.rcon_password,
            rcon_autologin: self.rcon_autologin,
            is_favorite: self.is_favorite,
            last_update: self.last_update,
        }
    }
}

/// No address occurs twice.
pub open spec fn addrs_distinct(s: Seq<GameServer>) -> bool {
    forall|i: int, j: int|
        0 <= i < j < s.len() ==> #[trigger] s[i].scanned.socket_addr != #[trigger] s[j].scanned.socket_addr
}

/// The servers of a list, by address.
pub open spec fn servers_map(s: Seq<GameServer>) -> Map<Endpoint, ServerView>
    decreases s.len(),
{
    if s.len() == 0 {
        Map::empty()
    } else {
        servers_map(s.drop_last()).insert(s.last().scanned.socket_addr, s.last()@)
    }
}

/// For distinct addresses: each server of the list is in the map under its
/// address, and each key of the map is some server's address.
pub proof fn lemma_servers_map(s: Seq<GameServer>)
    requires
        addrs_distinct(s),
    ensures
        servers_map(s).dom().finite(),
        servers_map(s).dom().len() == s.len(),
        forall|i: int| 0 <= i < s.len() ==> servers_map(s).contains_key(#[trigger] s[i].scanned.socket_addr)
            && servers_map(s)[s[i].scanned.socket_addr] == s[i]@,
        forall|a: Endpoint| #[trigger] servers_map(s).contains_key(a) ==> exists|i: int|
            0 <= i < s.len() && s[i].scanned.socket_addr == a,
    decreases s.len(),
{
    if s.len() > 0 {
        let t = s.drop_last();
        assert(addrs_distinct(t));
        lemma_servers_map(t);
        let a = s.last().scanned.socket_addr;
        if servers_map(t).contains_key(a) {
            let i = choose|i: int| 0 <= i < t.len() && t[i].scanned.socket_addr == a;
            assert(s[i].scanned.socket_addr == s[s.len() - 1].scanned.socket_addr);
        }
        assert forall|k: Endpoint| #[trigger] servers_map(s).contains_key(k) implies exists|i: int|
            0 <= i < s.len() && s[i].scanned.socket_addr == k by {
            if k != a {
                let i = choose|i: int| 0 <= i < t.len() && t[i].scanned.socket_addr == k;
                assert(s[i].scanned.socket_addr == k);
            } else {
                assert(s[s.len() - 1].scanned.socket_addr == k);
            }
        }
        assert forall|i: int| 0 <= i < s.len() implies servers_map(s).contains_key(
            #[trigger] s[i].scanned.socket_addr,
        ) && servers_map(s)[s[i].scanned.socket_addr] == s[i]@ by {
            if i < s.len() - 1 {
                assert(t[i] == s[i]);
            }
        }
    }
}

/// Replacing the server at `i` by one with the same address updates the
/// map at that address.
proof fn lemma_servers_replace(s: Seq<GameServer>, i: int, g: GameServer)
    requires
        addrs_distinct(s),
        0 <= i < s.len(),
        g.scanned.socket_addr == s[i].scanned.socket_addr,
    ensures
        addrs_distinct(s.update(i, g)),
        servers_map(s.update(i, g)) == servers_map(s).insert(g.scanned.socket_addr, g@),
{
    let t = s.update(i, g);
    assert forall|a: int, b: int| 0 <= a < b < t.len() implies #[trigger] t[a].scanned.socket_addr
        != #[trigger] t[b].scanned.socket_addr by {
        assert(t[a].scanned.socket_addr == s[a].scanned.socket_addr);
        assert(t[b].scanned.socket_addr == s[b].scanned.socket_addr);
    }
    lemma_servers_map(s);
    lemma_servers_map(t);
    let m = servers_map(s).insert(g.scanned.socket_addr, g@);
    assert forall|x: Endpoint| #[trigger] servers_map(t).contains_key(x) <==> m.contains_key(x) by {
        if servers_map(t).contains_key(x) {
            let j = choose|j: int| 0 <= j < t.len() && t[j].scanned.socket_addr == x;
            assert(s[j].scanned.socket_addr == x);
        }
        if servers_map(s).contains_key(x) {
            let j = choose|j: int| 0 <= j < s.len() && s[j].scanned.socket_addr == x;
            assert(t[j].scanned.socket_addr == x);
        }
        if x == g.scanned.socket_addr {
            assert(t[i].scanned.socket_addr == x);
        }
    }
    assert forall|x: Endpoint| #[trigger] servers_map(t).contains_key(x) implies servers_map(t)[x]
        == m[x] by {
        let j = choose|j: int| 0 <= j < t.len() && t[j].scanned.socket_addr == x;
        if j != i {
            assert(t[j] == s[j]);
        }
    }
    assert(servers_map(t) =~= m);
}

/// A server first reported by a scan.
pub open spec fn discovered(scanned: ScannedServer, now: i64) -> ServerView {
    ServerView {
        scanned,
        players_list: Seq::empty(),
        rcon_password: None,
        rcon_autologin: false,
        is_favorite: false,
        last_update: Some(now),
    }
}

/// The servers after a scanner report at time `now`: a full report replaces
/// what a known server's scan says (keeping its players and login details)
/// or adds the server; a player list updates a known server's players and
/// player count (modulo 256); a failed query marks a known server offline.
/// Reports about unknown servers other than full ones change nothing.
pub open spec fn after_update(m: Map<Endpoint, ServerView>, u: ServerUpdate, now: i64) -> Map<Endpoint, ServerView> {
    match u {
        ServerUpdate::FullServer(s) => {
            let a = s.socket_addr;
            if m.contains_key(a) {
                m.insert(a, ServerView { scanned: s, last_update: Some(now), ..m[a] })
            } else {
                m.insert(a, discovered(s, now))
            }
        },
        ServerUpdate::PlayerList { addr, players } => if m.contains_key(addr) {
            m.insert(
                addr,
                ServerView {
                    scanned: ScannedServer {
                        players: Some((players@.len() % 256) as u8),
                        ..m[addr].scanned
                    },
                    players_list: players@,
                    last_update: Some(now),
                    ..m[addr]
                },
            )
        } else {
            m
        },
        ServerUpdate::Failed { addr } => if m.contains_key(addr) {
            m.insert(
                addr,
                ServerView { scanned: ScannedServer { ping: None, ..m[addr].scanned }, ..m[addr] },
            )
        } else {
            m
        },
    }
}

/// Seconds since a server last reported (a server that never did counts
/// from the epoch).
pub open spec fn elapsed(s: ServerView, now: i64) -> int {
    now - match s.last_update {
        Some(t) => t,
        None => 0,
    }
}

/// A server stays listed while it reports, and always when a favourite.
pub open spec fn stays(s: ServerView, now: i64) -> bool {
    elapsed(s, now) < SERVER_TIMEOUT_SECS || s.is_favorite
}

/// A staying server after aging: a favourite silent for the timeout is
/// marked offline.
pub open spec fn aged(s: ServerView, now: i64) -> ServerView {
    if s.is_favorite && elapsed(s, now) >= SERVER_TIMEOUT_SECS {
        ServerView { scanned: ScannedServer { ping: None, ..s.scanned }, ..s }
    } else {
        s
    }
}

/// A favourite silent for the requery interval is queried again.
pub open spec fn needs_requery(s: ServerView, now: i64) -> bool {
    s.is_favorite && elapsed(s, now) >= REQUERY_SECS
}

/// The servers after aging at time `now`.
pub open spec fn after_prune(m: Map<Endpoint, ServerView>, now: i64) -> Map<Endpoint, ServerView> {
    Map::new(|a: Endpoint| m.contains_key(a) && stays(m[a], now), |a: Endpoint| aged(m[a], now))
}

/// A server of the LAN list: online (it has a ping) and on the local
/// network.
pub open spec fn on_lan(s: ServerView) -> bool {
    s.scanned.ping is Some && is_local_address(s.scanned.socket_addr.ip)
}

/// The known game servers.
///
/// Held as a list of distinct addresses rather than a `HashMap`, since
/// vstd's hash map specification says nothing of lookups by a key of this
/// library's own type (`Endpoint`).
pub struct ServerRegistry {
    servers: Vec<GameServer>,
}

impl View for ServerRegistry {
    type V = Map<Endpoint, ServerView>;

    closed spec fn view(&self) -> Map<Endpoint, ServerView> {
        servers_map(self.servers@)
    }
}

fn elapsed_exec(s: &GameServer, now: i64) -> (r: i128)
    ensures
        r == elapsed(s@, now),
{
    let last: i64 = match s.last_update {
        Some(t) => t,
        None => 0,
    };
    now as i128 - last as i128
}

fn scanned_copy(s: &ScannedServer) -> (r: ScannedServer)
    ensures
        r == *s,
{
    ScannedServer {
        socket_addr: s.socket_addr,
        hostname: match &s.hostname {
            Some(h) => Some(h.clone()),
            None => None,
        },
        game: match &s.game {
            Some(h) => Some(h.clone()),
            None => None,
        },
        map: match &s.map {
            Some(h) => Some(h.clone()),
            None => None,
        },
        players: s.players,
        players_max: s.players_max,
        query_port: s.query_port,
        ping: s.ping,
        bots: s.bots,
        has_password: s.has_password,
        password: match &s.password {
            Some(h) => Some(h.clone()),
            None => None,
        },
    }
}

fn player_info_copy(p: &PlayerInfo) -> (r: PlayerInfo)
    ensures
        r == *p,
{
    PlayerInfo {
        name: p.name.clone(),
        score: p.score,
        ping: p.ping,
        duration_ms: p.duration_ms,
        index: p.index,
        team: p.team,
        skin: match &p.skin {
            Some(h) => Some(h.clone()),
            None => None,
        },
        is_bot: p.is_bot,
    }
}

impl GameServer {
    /// A copy of this server.
    pub fn duplicate(&self) -> (r: GameServer)
        ensures
            r@ == self@,
    {
        let mut players: Vec<PlayerInfo> = Vec::new();
        for i in 0..self.players_list.len()
            invariant
                players@ == self.players_list@.take(i as int),
        {
            players.push(player_info_copy(&self.players_list[i]));
            assert(self.players_list@.take(i as int).push(self.players_list@[i as int])
                =~= self.players_list@.take(i + 1));
        }
        assert(self.players_list@.take(self.players_list@.len() as int) =~= self.players_list@);
        GameServer {
            scanned: scanned_copy(&self.scanned),
            players_list: players,
            rcon_password: match &self.rcon_password {
                Some(h) => Some(h.clone()),
                None => None,
            },
            rcon_autologin: self.rcon_autologin,
            is_favorite: self.is_favorite,
            last_update: self.last_update,
        }
    }

    /// Whether the server is listed in a table at time `now`: a server that
    /// reported within the timeout, and any server in the favourites table.
    pub fn visible_in_table(&self, now: i64, favourites_table: bool) -> (r: bool)
        ensures
            r == (elapsed(self@, now) < SERVER_TIMEOUT_SECS || favourites_table),
    {
        elapsed_exec(self, now) < SERVER_TIMEOUT_SECS as i128 || favourites_table
    }
}

impl ServerRegistry {
    /// No address occurs twice.
    pub closed spec fn wf(&self) -> bool {
        addrs_distinct(self.servers@)
    }

    /// No servers known.
    pub fn new() -> (r: ServerRegistry)
        ensures
            r.wf(),
            r@ == Map::<Endpoint, ServerView>::empty(),
    {
        ServerRegistry { servers: Vec::new() }
    }

    fn position(&self, addr: Endpoint) -> (r: Option<usize>)
        requires
            self.wf(),
        ensures
            match r {
                Some(i) => i < self.servers@.len() && self.servers@[i as int].scanned.socket_addr
                    == addr,
                None => !self@.contains_key(addr),
            },
    {
        proof {
            lemma_servers_map(self.servers@);
        }
        for i in 0..self.servers.len()
            invariant
                forall|j: int| 0 <= j < i ==> #[trigger] self.servers@[j].scanned.socket_addr != addr,
        {
            if self.servers[i].scanned.socket_addr == addr {
                return Some(i);
            }
        }
        proof {
            if self@.contains_key(addr) {
                let j = choose|j: int| 0 <= j < self.servers@.len() && self.servers@[j].scanned.socket_addr
                    == addr;
            }
        }
        None
    }

    fn replace(&mut self, i: usize, g: GameServer)
        requires
            old(self).wf(),
            i < old(self).servers@.len(),
            g.scanned.socket_addr == old(self).servers@[i as int].scanned.socket_addr,
        ensures
            final(self).wf(),
            final(self)@ == old(self)@.insert(g.scanned.socket_addr, g@),
    {
        let ghost s = self.servers@;
        proof {
            lemma_servers_replace(s, i as int, g);
        }
        self.servers.set(i, g);
        assert(self.servers@ == s.update(i as int, g));
    }

    fn add_new(&mut self, g: GameServer)
        requires
            old(self).wf(),
            !old(self)@.contains_key(g.scanned.socket_addr),
        ensures
            final(self).wf(),
            final(self)@ == old(self)@.insert(g.scanned.socket_addr, g@),
    {
        let ghost s = self.servers@;
        proof {
            lemma_servers_map(s);
        }
        self.servers.push(g);
        proof {
            let t = self.servers@;
            assert(t.drop_last() =~= s);
            assert forall|a: int, b: int| 0 <= a < b < t.len() implies #[trigger] t[a].scanned.socket_addr
                != #[trigger] t[b].scanned.socket_addr by {
                if b == t.len() - 1 {
                    assert(t[a] == s[a]);
                    assert(servers_map(s).contains_key(s[a].scanned.socket_addr));
                } else {
                    assert(t[a] == s[a] && t[b] == s[b]);
                }
            }
        }
    }

    /// Applies a scanner report received at time `now`.
    pub fn apply_update(&mut self, update: ServerUpdate, now: i64)
        requires
            old(self).wf(),
        ensures
            final(self).wf(),
            final(self)@ == after_update(old(self)@, update, now),
    {
        proof {
            lemma_servers_map(self.servers@);
        }
        match update {
            ServerUpdate::FullServer(s) => {
                match self.position(s.socket_addr) {
                    Some(i) => {
                        let old_g = self.servers[i].duplicate();
                        let g = GameServer { scanned: s, last_update: Some(now), ..old_g };
                        self.replace(i, g);
                    },
                    None => {
                        let g = GameServer {
                            scanned: s,
                            players_list: Vec::new(),
                            rcon_password: None,
                            rcon_autologin: false,
                            is_favorite: false,
                            last_update: Some(now),
                        };
                        assert(g@ == discovered(g.scanned, now));
                        self.add_new(g);
                    },
                }
            },
            ServerUpdate::PlayerList { addr, players } => {
                match self.position(addr) {
                    Some(i) => {
                        let old_g = self.servers[i].duplicate();
                        let count: u8 = (players.len() % 256) as u8;
                        let g = GameServer {
                            scanned: ScannedServer { players: Some(count), ..old_g.scanned },
                            players_list: players,
                            last_update: Some(now),
                            ..old_g
                        };
                        self.replace(i, g);
                    },
                    None => {},
                }
            },
            ServerUpdate::Failed { addr } => {
                match self.position(addr) {
                    Some(i) => {
                        let old_g = self.servers[i].duplicate();
                        let g = GameServer {
                            scanned: ScannedServer { ping: None, ..old_g.scanned },
                            ..old_g
                        };
                        self.replace(i, g);
                    },
                    None => {},
                }
            },
        }
    }

    /// Ages the list at time `now`: drops servers silent for the timeout
    /// unless they are favourites, marks silent favourites offline, and
    /// returns the favourites to query again, each once.
    pub fn prune(&mut self, now: i64) -> (r: Vec<Endpoint>)
        requires
            old(self).wf(),
        ensures
            final(self).wf(),
            final(self)@ == after_prune(old(self)@, now),
            r@.no_duplicates(),
            forall|a: Endpoint| #[trigger] r@.contains(a) <==> (old(self)@.contains_key(a) && needs_requery(
                old(self)@[a],
                now,
            )),
    {
        let ghost m0 = self@;
        let ghost s0 = self.servers@;
        proof {
            lemma_servers_map(s0);
        }
        let mut kept: Vec<GameServer> = Vec::new();
        let mut to_ping: Vec<Endpoint> = Vec::new();
        let n = self.servers.len();
        for i in 0..n
            invariant
                n == s0.len(),
                s0 == self.servers@,
                addrs_distinct(s0),
                m0 == servers_map(s0),
                addrs_distinct(kept@),
                forall|a: Endpoint| #[trigger] servers_map(kept@).contains_key(a) <==> (exists|j: int|
                    0 <= j < i && s0[j].scanned.socket_addr == a && stays(s0[j]@, now)),
                forall|j: int| 0 <= j < i && stays(s0[j]@, now) ==> servers_map(kept@)[#[trigger] s0[j].scanned.socket_addr]
                    == aged(s0[j]@, now),
                to_ping@.no_duplicates(),
                forall|a: Endpoint| #[trigger] to_ping@.contains(a) <==> (exists|j: int|
                    0 <= j < i && s0[j].scanned.socket_addr == a && needs_requery(s0[j]@, now)),
        {
            proof {
                lemma_servers_map(kept@);
            }
            let g = &self.servers[i];
            let e = elapsed_exec(g, now);
            let a = g.scanned.socket_addr;
            let ghost prev = kept@;
            let ghost prev_ping = to_ping@;
            proof {
                assert forall|j: int| 0 <= j < i implies #[trigger] s0[j].scanned.socket_addr != a by {
                    assert(s0[j].scanned.socket_addr != s0[i as int].scanned.socket_addr);
                }
            }
            if e < SERVER_TIMEOUT_SECS as i128 || g.is_favorite {
                let mut c = g.duplicate();
                if g.is_favorite && e >= SERVER_TIMEOUT_SECS as i128 {
                    c.scanned.ping = None;
                }
                assert(c@ == aged(s0[i as int]@, now));
                proof {
                    assert(!servers_map(prev).contains_key(a));
                }
                kept.push(c);
                proof {
                    let t = kept@;
                    assert(t.drop_last() =~= prev);
                    assert forall|x: int, y: int| 0 <= x < y < t.len() implies #[trigger] t[x].scanned.socket_addr
                        != #[trigger] t[y].scanned.socket_addr by {
                        if y == t.len() - 1 {
                            assert(t[x] == prev[x]);
                            assert(servers_map(prev).contains_key(prev[x].scanned.socket_addr));
                        } else {
                            assert(t[x] == prev[x] && t[y] == prev[y]);
                        }
                    }
                }
            }
            if g.is_favorite && e >= REQUERY_SECS as i128 {
                proof {
                    assert(!prev_ping.contains(a));
                }
                to_ping.push(a);
            }
            proof {
                assert forall|x: Endpoint| #[trigger] servers_map(kept@).contains_key(x) <==> (exists|j: int|
                    0 <= j < i + 1 && s0[j].scanned.socket_addr == x && stays(s0[j]@, now)) by {
                    if exists|j: int| 0 <= j < i + 1 && s0[j].scanned.socket_addr == x && stays(s0[j]@, now) {
                        let j = choose|j: int| 0 <= j < i + 1 && s0[j].scanned.socket_addr == x && stays(s0[j]@, now);
                        if j < i {
                            assert(servers_map(prev).contains_key(x));
                        }
                    }
                    if servers_map(prev).contains_key(x) {
                        let j = choose|j: int| 0 <= j < i && s0[j].scanned.socket_addr == x && stays(s0[j]@, now);
                        assert(0 <= j < i + 1);
                    }
                }
                assert forall|j: int| 0 <= j < i + 1 && stays(s0[j]@, now) implies servers_map(kept@)[#[trigger] s0[j].scanned.socket_addr]
                    == aged(s0[j]@, now) by {
                    if j < i {
                        assert(s0[j].scanned.socket_addr != a);
                    }
                }
                assert forall|x: Endpoint| #[trigger] to_ping@.contains(x) <==> (exists|j: int|
                    0 <= j < i + 1 && s0[j].scanned.socket_addr == x && needs_requery(s0[j]@, now)) by {
                    if exists|j: int| 0 <= j < i + 1 && s0[j].scanned.socket_addr == x && needs_requery(s0[j]@, now) {
                        let j = choose|j: int| 0 <= j < i + 1 && s0[j].scanned.socket_addr == x && needs_requery(s0[j]@, now);
                        if j < i {
                            assert(prev_ping.contains(x));
                            let k = choose|k: int| 0 <= k < prev_ping.len() && prev_ping[k] == x;
                            assert(to_ping@[k] == x);
                        } else {
                            assert(to_ping@[to_ping@.len() - 1] == x);
                        }
                    }
                    if to_ping@.contains(x) {
                        let k = choose|k: int| 0 <= k < to_ping@.len() && to_ping@[k] == x;
                        if k < prev_ping.len() {
                            assert(prev_ping[k] == x);
                            assert(prev_ping.contains(x));
                        }
                    }
                }
            }
        }
        proof {
            lemma_servers_map(kept@);
            assert forall|a: Endpoint| #[trigger] servers_map(kept@).contains_key(a) <==> after_prune(m0, now).contains_key(a) by {
                if m0.contains_key(a) {
                    let j = choose|j: int| 0 <= j < s0.len() && s0[j].scanned.socket_addr == a;
                    assert(m0[a] == s0[j]@);
                }
                if servers_map(kept@).contains_key(a) {
                    let j = choose|j: int| 0 <= j < n && s0[j].scanned.socket_addr == a && stays(s0[j]@, now);
                    assert(m0[a] == s0[j]@);
                }
            }
            assert forall|a: Endpoint| #[trigger] servers_map(kept@).contains_key(a) implies servers_map(kept@)[a] == after_prune(m0, now)[a] by {
                let j = choose|j: int| 0 <= j < n && s0[j].scanned.socket_addr == a && stays(s0[j]@, now);
                assert(m0[a] == s0[j]@);
            }
            assert(servers_map(kept@) =~= after_prune(m0, now));
            assert forall|a: Endpoint| #[trigger] to_ping@.contains(a) <==> (m0.contains_key(a) && needs_requery(m0[a], now)) by {
                if m0.contains_key(a) {
                    let j = choose|j: int| 0 <= j < s0.len() && s0[j].scanned.socket_addr == a;
                    assert(m0[a] == s0[j]@);
                }
                if to_ping@.contains(a) {
                    let j = choose|j: int| 0 <= j < n && s0[j].scanned.socket_addr == a && needs_requery(s0[j]@, now);
                    assert(m0[a] == s0[j]@);
                }
            }
        }
        self.servers = kept;
        to_ping
    }

    /// Whether `addr` is known.
    pub fn contains(&self, addr: Endpoint) -> (r: bool)
        requires
            self.wf(),
        ensures
            r == self@.contains_key(addr),
    {
        proof {
            lemma_servers_map(self.servers@);
        }
        self.position(addr).is_some()
    }

    /// The server at `addr`, if known.
    pub fn get(&self, addr: Endpoint) -> (r: Option<&GameServer>)
        requires
            self.wf(),
        ensures
            match r {
                Some(g) => self@.contains_key(addr) && self@[addr] == g@ && g.scanned.socket_addr == addr,
                None => !self@.contains_key(addr),
            },
    {
        proof {
            lemma_servers_map(self.servers@);
        }
        match self.position(addr) {
            Some(i) => Some(&self.servers[i]),
            None => None,
        }
    }

    /// Adds a server, or replaces the one at its address (as loading the
    /// saved list does).
    pub fn insert(&mut self, g: GameServer)
        requires
            old(self).wf(),
        ensures
            final(self).wf(),
            final(self)@ == old(self)@.insert(g.scanned.socket_addr, g@),
    {
        match self.position(g.scanned.socket_addr) {
            Some(i) => self.replace(i, g),
            None => self.add_new(g),
        }
    }

    /// Flips whether the server at `addr` is a favourite; an unknown address
    /// changes nothing.
    pub fn toggle_favorite(&mut self, addr: Endpoint)
        requires
            old(self).wf(),
        ensures
            final(self).wf(),
            old(self)@.contains_key(addr) ==> final(self)@ == old(self)@.insert(
                addr,
                ServerView { is_favorite: !old(self)@[addr].is_favorite, ..old(self)@[addr] },
            ),
            !old(self)@.contains_key(addr) ==> final(self)@ == old(self)@,
    {
        proof {
            lemma_servers_map(self.servers@);
        }
        match self.position(addr) {
            Some(i) => {
                let mut g = self.servers[i].duplicate();
                g.is_favorite = !g.is_favorite;
                self.replace(i, g);
            },
            None => {},
        }
    }

    /// Saves the server password typed for `addr`: an empty entry clears
    /// it. An unknown address changes nothing.
    pub fn set_server_password(&mut self, addr: Endpoint, value: String)
        requires
            old(self).wf(),
        ensures
            final(self).wf(),
            old(self)@.contains_key(addr) ==> final(self)@ == old(self)@.insert(
                addr,
                ServerView {
                    scanned: ScannedServer {
                        password: if value@.len() == 0 {
                            None
                        } else {
                            Some(value)
                        },
                        ..old(self)@[addr].scanned
                    },
                    ..old(self)@[addr]
                },
            ),
            !old(self)@.contains_key(addr) ==> final(self)@ == old(self)@,
    {
        proof {
            lemma_servers_map(self.servers@);
        }
        match self.position(addr) {
            Some(i) => {
                let mut g = self.servers[i].duplicate();
                g.scanned.password = if chars_of(value.as_str()).len() == 0 {
                    None
                } else {
                    Some(value)
                };
                self.replace(i, g);
            },
            None => {},
        }
    }

    /// Adds a server typed in by address at time `now`: a favourite named
    /// `Custom Server`, queried at its own port, with nothing else known.
    pub fn add_custom_server(&mut self, addr: Endpoint, now: i64)
        requires
            old(self).wf(),
        ensures
            final(self).wf(),
            final(self)@.dom() == old(self)@.dom().insert(addr),
            forall|a: Endpoint| a != addr && old(self)@.contains_key(a) ==> #[trigger] final(self)@[a] == old(self)@[a],
            ({
                let s = final(self)@[addr];
                &&& s.scanned.socket_addr == addr
                &&& s.scanned.hostname matches Some(h) && h@ == "Custom Server"@
                &&& s.scanned.game is None
                &&& s.scanned.map is None
                &&& s.scanned.players is None
                &&& s.scanned.players_max is None
                &&& s.scanned.query_port == Some(addr.port)
                &&& s.scanned.ping is None
                &&& s.scanned.bots is None
                &&& !s.scanned.has_password
                &&& s.scanned.password is None
                &&& s.players_list.len() == 0
                &&& s.rcon_password is None
                &&& !s.rcon_autologin
                &&& s.is_favorite
                &&& s.last_update == Some(now)
            }),
    {
        let g = GameServer {
            scanned: ScannedServer {
                socket_addr: addr,
                hostname: Some(String::from_str("Custom Server")),
                game: None,
                map: None,
                players: None,
                players_max: None,
                query_port: Some(addr.port),
                ping: None,
                bots: None,
                has_password: false,
                password: None,
            },
            players_list: Vec::new(),
            rcon_password: None,
            rcon_autologin: false,
            is_favorite: true,
            last_update: Some(now),
        };
        self.insert(g);
    }

    /// The servers, each once, in the order they became known.
    pub fn servers(&self) -> (r: &Vec<GameServer>)
        requires
            self.wf(),
        ensures
            addrs_distinct(r@),
            servers_map(r@) == self@,
    {
        &self.servers
    }

    /// The servers that log in automatically, with their RCON passwords,
    /// each once.
    pub fn autologin_targets(&self) -> (r: Vec<(Endpoint, String)>)
        requires
            self.wf(),
        ensures
            forall|i: int, j: int| 0 <= i < j < r@.len() ==> (#[trigger] r@[i]).0 != (#[trigger] r@[j]).0,
            forall|i: int| 0 <= i < r@.len() ==> self@.contains_key((#[trigger] r@[i]).0)
                && self@[r@[i].0].rcon_autologin && self@[r@[i].0].rcon_password == Some(r@[i].1),
            forall|a: Endpoint| #[trigger] self@.contains_key(a) && self@[a].rcon_autologin
                && self@[a].rcon_password is Some ==> exists|i: int| 0 <= i < r@.len() && r@[i].0 == a,
    {
        proof {
            lemma_servers_map(self.servers@);
        }
        let mut r: Vec<(Endpoint, String)> = Vec::new();
        for i in 0..self.servers.len()
            invariant
                addrs_distinct(self.servers@),
                forall|k: int| 0 <= k < self.servers@.len() ==> self@.contains_key(#[trigger] self.servers@[k].scanned.socket_addr)
                    && self@[self.servers@[k].scanned.socket_addr] == self.servers@[k]@,
                forall|x: int| 0 <= x < r@.len() ==> exists|k: int| 0 <= k < i && (#[trigger] r@[x]).0 == self.servers@[k].scanned.socket_addr,
                forall|x: int, y: int| 0 <= x < y < r@.len() ==> (#[trigger] r@[x]).0 != (#[trigger] r@[y]).0,
                forall|x: int| 0 <= x < r@.len() ==> self@.contains_key((#[trigger] r@[x]).0)
                    && self@[r@[x].0].rcon_autologin && self@[r@[x].0].rcon_password == Some(r@[x].1),
                forall|k: int| 0 <= k < i && #[trigger] self.servers@[k].rcon_autologin && self.servers@[k].rcon_password is Some
                    ==> exists|x: int| 0 <= x < r@.len() && r@[x].0 == self.servers@[k].scanned.socket_addr,
        {
            let g = &self.servers[i];
            if g.rcon_autologin {
                match &g.rcon_password {
                    Some(p) => {
                        let ghost prev = r@;
                        proof {
                            assert forall|x: int| 0 <= x < prev.len() implies prev[x].0 != g.scanned.socket_addr by {
                                let k = choose|k: int| 0 <= k < i && (#[trigger] prev[x]).0 == self.servers@[k].scanned.socket_addr;
                                assert(self.servers@[k].scanned.socket_addr != self.servers@[i as int].scanned.socket_addr);
                            }
                        }
                        r.push((g.scanned.socket_addr, p.clone()));
                        proof {
                            assert forall|x: int| 0 <= x < r@.len() implies exists|k: int| 0 <= k < i + 1 && (#[trigger] r@[x]).0 == self.servers@[k].scanned.socket_addr by {
                                if x < prev.len() {
                                    assert(r@[x] == prev[x]);
                                    let k = choose|k: int| 0 <= k < i && (#[trigger] prev[x]).0 == self.servers@[k].scanned.socket_addr;
                                    assert(0 <= k < i + 1);
                                } else {
                                    assert(r@[x].0 == self.servers@[i as int].scanned.socket_addr);
                                }
                            }
                            assert forall|k: int| 0 <= k < i + 1 && #[trigger] self.servers@[k].rcon_autologin && self.servers@[k].rcon_password is Some
                                implies exists|x: int| 0 <= x < r@.len() && r@[x].0 == self.servers@[k].scanned.socket_addr by {
                                if k < i {
                                    let x = choose|x: int| 0 <= x < prev.len() && prev[x].0 == self.servers@[k].scanned.socket_addr;
                                    assert(r@[x] == prev[x]);
                                } else {
                                    assert(r@[r@.len() - 1].0 == self.servers@[k].scanned.socket_addr);
                                }
                            }
                        }
                    },
                    None => {},
                }
            }
        }
        proof {
            assert forall|a: Endpoint| #[trigger] self@.contains_key(a) && self@[a].rcon_autologin
                && self@[a].rcon_password is Some implies exists|i: int| 0 <= i < r@.len() && r@[i].0 == a by {
                let k = choose|k: int| 0 <= k < self.servers@.len() && self.servers@[k].scanned.socket_addr == a;
                assert(self@[a] == self.servers@[k]@);
                assert(self.servers@[k].rcon_autologin);
            }
        }
        r
    }
}

/// Whether a server belongs in the LAN list.
pub fn shown_on_lan(s: &GameServer) -> (r: bool)
    ensures
        r == on_lan(s@),
{
    s.scanned.ping.is_some() && is_local(s.scanned.socket_addr.ip)
}

/// Aging never drops a favourite.
pub proof fn law_prune_keeps_favourites(m: Map<Endpoint, ServerView>, now: i64)
    ensures
        forall|a: Endpoint| #[trigger] m.contains_key(a) && m[a].is_favorite ==> after_prune(m, now).contains_key(a)
            && after_prune(m, now)[a].is_favorite,
{
}

/// Aging twice at the same time is aging once.
pub proof fn law_prune_idempotent(m: Map<Endpoint, ServerView>, now: i64)
    ensures
        after_prune(after_prune(m, now), now) == after_prune(m, now),
{
    let p = after_prune(m, now);
    assert forall|a: Endpoint| #[trigger] p.contains_key(a) implies stays(p[a], now) && aged(p[a], now) == p[a] by {
        assert(elapsed(p[a], now) == elapsed(m[a], now));
    }
    assert(after_prune(p, now) =~= p);
}

/// Scanner reports never change a known server's login details or whether
/// it is a favourite.
pub proof fn law_reports_keep_login(m: Map<Endpoint, ServerView>, u: ServerUpdate, now: i64, a: Endpoint)
    requires
        m.contains_key(a),
    ensures
        after_update(m, u, now).contains_key(a),
        after_update(m, u, now)[a].rcon_password == m[a].rcon_password,
        after_update(m, u, now)[a].rcon_autologin == m[a].rcon_autologin,
        after_update(m, u, now)[a].is_favorite == m[a].is_favorite,
{
}

} // verus!
