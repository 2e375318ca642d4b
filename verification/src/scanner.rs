//! The server scanner's bookkeeping: which queries are in flight, when each
//! was sent, the challenge tokens servers handed out, and the packets to send.
use vstd::prelude::*;
use crate::assoc::EndpointMap;
use crate::network::{Endpoint, IpAddress, is_broadcast_address, is_broadcast_ip};
use crate::protocol::{
    Datagram, datagram_well_formed, decodes_to, decode_datagram, datagram_is_well_formed,
    source_query, source_query_bytes,
};
use crate::servers::{PendingQuery, ScanCommand, ServerUpdate, scanned_from_datagram};

verus! {

/// A packet to send.
#[derive(Debug, Clone, PartialEq, Eq)]
pub struct Outgoing {
    pub payload: Vec<u8>,
    pub addr: Endpoint,
}

/// A challenge token handed out by a Source server.
pub type Token = (u8, u8, u8, u8);

/// The bytes of a token.
pub open spec fn token_bytes(t: Token) -> Seq<u8> {
    seq![t.0, t.1, t.2, t.3]
}

/// The query packet of the given kind, carrying the server's challenge token
/// when there is one. Player and rules queries without a token carry
/// `FF FF FF FF`, which asks the server for one.
pub open spec fn query_payload(query_type: PendingQuery, challenge: Option<Token>) -> Seq<u8> {
    match query_type {
        PendingQuery::Info => match challenge {
            Some(t) => source_query() + token_bytes(t),
            None => source_query(),
        },
        PendingQuery::Player => seq![0xFFu8, 0xFF, 0xFF, 0xFF, 0x55] + match challenge {
            Some(t) => token_bytes(t),
            None => seq![0xFFu8, 0xFF, 0xFF, 0xFF],
        },
        PendingQuery::Rules => seq![0xFFu8, 0xFF, 0xFF, 0xFF, 0x56] + match challenge {
            Some(t) => token_bytes(t),
            None => seq![0xFFu8, 0xFF, 0xFF, 0xFF],
        },
    }
}

/// Builds a query packet.
pub fn build_query(query_type: PendingQuery, challenge: Option<Token>) -> (r: Vec<u8>)
    ensures
        r@ == query_payload(query_type, challenge),
{
    let mut pkt: Vec<u8> = match query_type {
        PendingQuery::Info => source_query_bytes(),
        PendingQuery::Player => vec![0xFF, 0xFF, 0xFF, 0xFF, 0x55],
        PendingQuery::Rules => vec![0xFF, 0xFF, 0xFF, 0xFF, 0x56],
    };
    let ghost head = pkt@;
    match query_type {
        PendingQuery::Info => {
            if let Some(t) = challenge {
                pkt.push(t.0);
                pkt.push(t.1);
                pkt.push(t.2);
                pkt.push(t.3);
            }
        },
        _ => {
            let t = match challenge {
                Some(t) => t,
                None => (0xFF, 0xFF, 0xFF, 0xFF),
            };
            pkt.push(t.0);
            pkt.push(t.1);
            pkt.push(t.2);
            pkt.push(t.3);
        },
    }
    assert(pkt@ =~= query_payload(query_type, challenge));
    pkt
}

/// Round-trip time in milliseconds reported for a query sent at `start` and
/// answered at `now`: at least one, truncated to 16 bits.
pub open spec fn ping_ms(start: u64, now: u64) -> u16 {
    let elapsed: int = if now >= start { now - start } else { 0 };
    let m: int = if elapsed < 1 { 1 } else { elapsed };
    (m % 65536) as u16
}

/// The round-trip time of a query sent at `start` and answered at `now`.
pub fn ping_between(start: u64, now: u64) -> (r: u16)
    ensures
        r == ping_ms(start, now),
{
    let elapsed: u64 = if now >= start { now - start } else { 0 };
    let m: u64 = if elapsed < 1 { 1 } else { elapsed };
    (m % 65536) as u16
}

/// The ping value used when no query is on record.
pub const UNKNOWN_PING: u16 = 999;

/// The scanner's state. Times are milliseconds on a monotonic clock that
/// the caller reads.
pub struct Scanner {
    pending_queries: EndpointMap<(PendingQuery, u64, u8)>,
    ping_tracker: EndpointMap<u64>,
    challenges: EndpointMap<Token>,
    timeout_ms: u64,
    max_retries: u8,
    broadcast: bool,
}

impl Scanner {
    /// Queries in flight: kind, time sent, and retries so far.
    pub closed spec fn pending(&self) -> Map<Endpoint, (PendingQuery, u64, u8)> {
        self.pending_queries.view()
    }

    /// When the last query to each server was sent.
    pub closed spec fn pings(&self) -> Map<Endpoint, u64> {
        self.ping_tracker.view()
    }

    /// Challenge token of each server that handed one out.
    pub closed spec fn tokens(&self) -> Map<Endpoint, Token> {
        self.challenges.view()
    }

    /// How long a query may stay unanswered.
    pub closed spec fn timeout(&self) -> u64 {
        self.timeout_ms
    }

    /// How often an unanswered query is repeated.
    pub closed spec fn retries_allowed(&self) -> u8 {
        self.max_retries
    }

    /// Whether the periodic scan broadcasts to the LAN.
    pub closed spec fn broadcasts(&self) -> bool {
        self.broadcast
    }

    /// The internal maps are well formed.
    pub closed spec fn wf(&self) -> bool {
        self.pending_queries.wf() && self.ping_tracker.wf() && self.challenges.wf()
    }

    /// A scanner with nothing in flight: queries time out after 1.5 s and are
    /// repeated twice; the periodic scan broadcasts.
    pub fn new() -> (s: Self)
        ensures
            s.wf(),
            s.pending() == Map::<Endpoint, (PendingQuery, u64, u8)>::empty(),
            s.pings() == Map::<Endpoint, u64>::empty(),
            s.tokens() == Map::<Endpoint, Token>::empty(),
            s.timeout() == 1500,
            s.retries_allowed() == 2,
            s.broadcasts(),
    {
        Scanner {
            pending_queries: EndpointMap::new(),
            ping_tracker: EndpointMap::new(),
            challenges: EndpointMap::new(),
            timeout_ms: 1500,
            max_retries: 2,
            broadcast: true,
        }
    }

    /// Sends a query: records when it was sent, keeps the retry count of a
    /// query already in flight, and builds the packet with the server's
    /// challenge token.
    pub fn send_query(&mut self, addr: Endpoint, query_type: PendingQuery, now: u64) -> (out:
        Outgoing)
        requires
            old(self).wf(),
        ensures
            final(self).wf(),
            final(self).pings() == old(self).pings().insert(addr, now),
            final(self).pending() == old(self).pending().insert(
                addr,
                (query_type, now, retries_of(old(self).pending(), addr)),
            ),
            final(self).tokens() == old(self).tokens(),
            final(self).timeout() == old(self).timeout(),
            final(self).retries_allowed() == old(self).retries_allowed(),
            final(self).broadcasts() == old(self).broadcasts(),
            out.addr == addr,
            out.payload@ == query_payload(query_type, token_of(old(self).tokens(), addr)),
    {
        self.ping_tracker.insert(addr, now);
        let retries = match self.pending_queries.get(addr) {
            Some(p) => p.2,
            None => 0,
        };
        self.pending_queries.insert(addr, (query_type, now, retries));
        let challenge = self.challenges.get(addr);
        Outgoing { payload: build_query(query_type, challenge), addr }
    }

    /// Carries out a command: queries one server, several servers in order,
    /// or forgets every query in flight.
    pub fn handle_command(&mut self, cmd: ScanCommand, now: u64) -> (out: Vec<Outgoing>)
        requires
            old(self).wf(),
        ensures
            final(self).wf(),
            final(self).timeout() == old(self).timeout(),
            final(self).retries_allowed() == old(self).retries_allowed(),
            final(self).broadcasts() == old(self).broadcasts(),
            match cmd {
                ScanCommand::ScanServer { addr, query_type } => {
                    &&& final(self).pings() == old(self).pings().insert(addr, now)
                    &&& final(self).pending() == old(self).pending().insert(
                        addr,
                        (query_type, now, retries_of(old(self).pending(), addr)),
                    )
                    &&& final(self).tokens() == old(self).tokens()
                    &&& out@.len() == 1
                    &&& out@[0].addr == addr
                    &&& out@[0].payload@ == query_payload(query_type, token_of(old(self).tokens(), addr))
                },
                ScanCommand::BatchScan { addrs, query_type } => {
                    &&& final(self).tokens() == old(self).tokens()
                    &&& final(self).pings() == queried_pings(old(self).pings(), addrs@, now)
                    &&& final(self).pending() == queried_pending(
                        old(self).pending(),
                        addrs@,
                        query_type,
                        now,
                    )
                    &&& out@.len() == addrs@.len()
                    &&& forall|i: int| 0 <= i < addrs@.len() ==> (#[trigger] out@[i]).addr == addrs@[i]
                        && out@[i].payload@ == query_payload(query_type, token_of(old(self).tokens(), addrs@[i]))
                },
                ScanCommand::Cancel => {
                    &&& final(self).pings() == Map::<Endpoint, u64>::empty()
                    &&& final(self).pending() == Map::<Endpoint, (PendingQuery, u64, u8)>::empty()
                    &&& final(self).tokens() == Map::<Endpoint, Token>::empty()
                    &&& out@.len() == 0
                },
            },
    {
        let mut out: Vec<Outgoing> = Vec::new();
        match cmd {
            ScanCommand::ScanServer { addr, query_type } => {
                let o = self.send_query(addr, query_type, now);
                out.push(o);
            },
            ScanCommand::BatchScan { addrs, query_type } => {
                let ghost p0 = self.pending();
                let ghost g0 = self.pings();
                let ghost t0 = self.tokens();
                for i in 0..addrs.len()
                    invariant
                        self.wf(),
                        self.tokens() == t0,
                        self.timeout() == old(self).timeout(),
                        self.retries_allowed() == old(self).retries_allowed(),
                        self.broadcasts() == old(self).broadcasts(),
                        p0 == old(self).pending(),
                        g0 == old(self).pings(),
                        t0 == old(self).tokens(),
                        self.pings() == queried_pings(g0, addrs@.take(i as int), now),
                        self.pending() == queried_pending(p0, addrs@.take(i as int), query_type, now),
                        out@.len() == i,
                        forall|k: int| 0 <= k < i ==> (#[trigger] out@[k]).addr == addrs@[k]
                            && out@[k].payload@ == query_payload(query_type, token_of(t0, addrs@[k])),
                {
                    let a = addrs[i];
                    proof {
                        assert(addrs@.take(i + 1).drop_last() =~= addrs@.take(i as int));
                        lemma_retries_preserved(p0, addrs@.take(i as int), query_type, now, a);
                    }
                    let o = self.send_query(a, query_type, now);
                    out.push(o);
                }
                assert(addrs@.take(addrs@.len() as int) =~= addrs@);
            },
            ScanCommand::Cancel => {
                self.pending_queries.clear();
                self.ping_tracker.clear();
                self.challenges.clear();
            },
        }
        out
    }

    /// The packets of the periodic LAN scan: when broadcasting, a Source
    /// query to each Source port, a `getstatus` to each Quake port and a
    /// GameSpy `\status\` to each GameSpy port, all to the broadcast address.
    pub fn auto_scan_packets(&self) -> (out: Vec<Outgoing>)
        ensures
            !self.broadcasts() ==> out@.len() == 0,
            self.broadcasts() ==> out@.len() == auto_scan_targets().len()
                && forall|i: int| 0 <= i < out@.len() ==> (#[trigger] out@[i]).addr == broadcast_endpoint(auto_scan_targets()[i].1)
                    && out@[i].payload@ == auto_scan_payload(auto_scan_targets()[i].0),
    {
        let mut out: Vec<Outgoing> = Vec::new();
        if !self.broadcast {
            return out;
        }
        let targets = auto_scan_target_list();
        for i in 0..targets.len()
            invariant
                targets@ == auto_scan_targets(),
                out@.len() == i,
                forall|k: int| 0 <= k < i ==> (#[trigger] out@[k]).addr == broadcast_endpoint(auto_scan_targets()[k].1)
                    && out@[k].payload@ == auto_scan_payload(auto_scan_targets()[k].0),
        {
            let (kind, port) = targets[i];
            out.push(Outgoing { payload: auto_scan_payload_bytes(kind), addr: broadcast_endpoint_exec(port) });
        }
        out
    }

    /// The round-trip time of a response from `addr`: from the query sent
    /// to `addr` itself, whose record is then dropped, or else from a
    /// broadcast sent to the same port, whose record is kept.
    pub fn calculate_ping(&mut self, addr: Endpoint, now: u64) -> (r: Option<u16>)
        requires
            old(self).wf(),
        ensures
            final(self).wf(),
            final(self).pending() == old(self).pending(),
            final(self).tokens() == old(self).tokens(),
            final(self).timeout() == old(self).timeout(),
            final(self).retries_allowed() == old(self).retries_allowed(),
            final(self).broadcasts() == old(self).broadcasts(),
            old(self).pings().contains_key(addr) ==> final(self).pings() == old(self).pings().remove(addr)
                && r == Some(ping_ms(old(self).pings()[addr], now)),
            !old(self).pings().contains_key(addr) ==> final(self).pings() == old(self).pings()
                && ping_fallback_ok(old(self).pings(), addr, now, r),
    {
        if let Some(start) = self.ping_tracker.remove(addr) {
            return Some(ping_between(start, now));
        }
        proof {
            self.ping_tracker.lemma_entries();
        }
        let n = self.ping_tracker.len();
        for i in 0..n
            invariant
                self.wf(),
                n == self.ping_tracker.entry_seq().len(),
                !self.pings().contains_key(addr),
                self.pings() == old(self).pings(),
                self.pending() == old(self).pending(),
                self.tokens() == old(self).tokens(),
                self.timeout() == old(self).timeout(),
                self.retries_allowed() == old(self).retries_allowed(),
                self.broadcasts() == old(self).broadcasts(),
                forall|j: int| 0 <= j < self.ping_tracker.entry_seq().len() ==> self.pings().contains_key(
                    #[trigger] self.ping_tracker.entry_seq()[j].0,
                ) && self.pings()[self.ping_tracker.entry_seq()[j].0] == self.ping_tracker.entry_seq()[j].1,
                forall|k: Endpoint| #[trigger]
                    self.pings().contains_key(k) ==> exists|j: int|
                        0 <= j < self.ping_tracker.entry_seq().len() && self.ping_tracker.entry_seq()[j].0 == k,
                forall|j: int| 0 <= j < i ==> !(#[trigger] self.ping_tracker.entry_seq()[j].0.port == addr.port
                    && is_broadcast_address(self.ping_tracker.entry_seq()[j].0.ip)),
        {
            let (k, start) = self.ping_tracker.entry_at(i);
            if k.port == addr.port && is_broadcast_ip(k.ip) {
                return Some(ping_between(start, now));
            }
        }
        proof {
            assert forall|k: Endpoint| #[trigger] self.pings().contains_key(k) && k.port == addr.port
                implies !is_broadcast_address(k.ip) by {
                let j = choose|j: int| 0 <= j < self.ping_tracker.entry_seq().len() && self.ping_tracker.entry_seq()[j].0 == k;
                assert(self.ping_tracker.entry_seq()[j].0.port == addr.port);
            }
        }
        None
    }

    /// Handles a response from `addr`: measures the ping (999 when no query
    /// is on record); a challenge is stored and the info query repeated with
    /// it; a response that describes the server ends its pending query and is
    /// reported with the ping; anything else, malformed responses included,
    /// is ignored.
    pub fn handle_socket_data(&mut self, data: &[u8], addr: Endpoint, now: u64) -> (r: (
        Vec<Outgoing>,
        Option<ServerUpdate>,
    ))
        requires
            old(self).wf(),
        ensures
            final(self).wf(),
            final(self).timeout() == old(self).timeout(),
            final(self).retries_allowed() == old(self).retries_allowed(),
            final(self).broadcasts() == old(self).broadcasts(),
            socket_data_ok(old(self).pending(), old(self).pings(), old(self).tokens(),
                final(self).pending(), final(self).pings(), final(self).tokens(), data@, addr, now, r.0@, r.1),
    {
        let measured = self.calculate_ping(addr, now);
        assert(self.pings() =~= old(self).pings().remove(addr));
        let ping = match measured {
            Some(p) => p,
            None => UNKNOWN_PING,
        };
        let mut out: Vec<Outgoing> = Vec::new();
        if !datagram_is_well_formed(data) {
            return (out, None);
        }
        let d = decode_datagram(data);
        match &d {
            Datagram::SourceChallenge { token } => {
                let t: Token = (token[0], token[1], token[2], token[3]);
                assert(token@ =~= token_bytes(t));
                self.challenges.insert(addr, t);
                let o = self.send_query(addr, PendingQuery::Info, now);
                out.push(o);
                return (out, None);
            },
            _ => {},
        }
        match scanned_from_datagram(&d, addr, Some(ping)) {
            Some(s) => {
                self.pending_queries.remove(addr);
                (out, Some(ServerUpdate::FullServer(s)))
            },
            None => (out, None),
        }
    }

    /// Expires or repeats the queries that went unanswered for longer than
    /// the timeout: a query already repeated as often as allowed is dropped
    /// with its ping record and reported as failed; any other is repeated,
    /// with its retry count raised by one.
    #[verifier::rlimit(60)]
    pub fn handle_timeouts(&mut self, now: u64) -> (r: (Vec<ServerUpdate>, Vec<Outgoing>))
        requires
            old(self).wf(),
        ensures
            final(self).wf(),
            final(self).timeout() == old(self).timeout(),
            final(self).retries_allowed() == old(self).retries_allowed(),
            final(self).broadcasts() == old(self).broadcasts(),
            final(self).tokens() == old(self).tokens(),
            final(self).pending() == pending_after(old(self).pending(), old(self).pending().dom(), now,
                old(self).timeout(), old(self).retries_allowed()),
            final(self).pings() == pings_after(old(self).pings(), old(self).pending(), old(self).pending().dom(),
                now, old(self).timeout(), old(self).retries_allowed()),
            forall|m: int| 0 <= m < r.0@.len() ==> (#[trigger] failed_of(r.0@[m])) is Some
                && expires(old(self).pending(), failed_of(r.0@[m]).unwrap(), now, old(self).timeout(), old(self).retries_allowed()),
            forall|k: Endpoint| #[trigger] expires(old(self).pending(), k, now, old(self).timeout(), old(self).retries_allowed())
                ==> exists|m: int| 0 <= m < r.0@.len() && failed_of(r.0@[m]) == Some(k),
            forall|m1: int, m2: int| 0 <= m1 < m2 < r.0@.len() ==> failed_of(r.0@[m1]) != failed_of(r.0@[m2]),
            forall|m: int| 0 <= m < r.1@.len() ==> retried(old(self).pending(), (#[trigger] r.1@[m]).addr, now,
                old(self).timeout(), old(self).retries_allowed())
                && r.1@[m].payload@ == query_payload(old(self).pending()[r.1@[m].addr].0, token_of(old(self).tokens(), r.1@[m].addr)),
            forall|k: Endpoint| #[trigger] retried(old(self).pending(), k, now, old(self).timeout(), old(self).retries_allowed())
                ==> exists|m: int| 0 <= m < r.1@.len() && r.1@[m].addr == k,
            forall|m1: int, m2: int| 0 <= m1 < m2 < r.1@.len() ==> r.1@[m1].addr != r.1@[m2].addr,
    {
        let ghost p0 = self.pending();
        let ghost g0 = self.pings();
        let ghost t0 = self.tokens();
        let timeout = self.timeout_ms;
        let max = self.max_retries;
        proof {
            self.pending_queries.lemma_entries();
        }
        let n = self.pending_queries.len();
        let mut es: Vec<(Endpoint, (PendingQuery, u64, u8))> = Vec::new();
        for i in 0..n
            invariant
                n == self.pending_queries.entry_seq().len(),
                es@ == self.pending_queries.entry_seq().take(i as int),
        {
            es.push(self.pending_queries.entry_at(i));
            assert(es@ =~= self.pending_queries.entry_seq().take(i + 1));
        }
        assert(es@ =~= self.pending_queries.entry_seq());
        let ghost es0 = es@;
        let mut updates: Vec<ServerUpdate> = Vec::new();
        let mut out: Vec<Outgoing> = Vec::new();
        let ghost mut uidx: Seq<int> = Seq::empty();
        let ghost mut oidx: Seq<int> = Seq::empty();
        for i in 0..n
            invariant
                self.wf(),
                n == es0.len(),
                es@ == es0,
                timeout == self.timeout_ms,
                max == self.max_retries,
                self.timeout() == old(self).timeout(),
                self.retries_allowed() == old(self).retries_allowed(),
                self.broadcasts() == old(self).broadcasts(),
                self.tokens() == t0,
                p0 == old(self).pending(),
                g0 == old(self).pings(),
                t0 == old(self).tokens(),
                forall|j: int| 0 <= j < es0.len() ==> p0.contains_key(#[trigger] es0[j].0) && p0[es0[j].0] == es0[j].1,
                forall|j1: int, j2: int| 0 <= j1 < j2 < es0.len() ==> #[trigger] es0[j1].0 != #[trigger] es0[j2].0,
                forall|k: Endpoint| #[trigger] p0.contains_key(k) ==> exists|j: int| 0 <= j < es0.len() && es0[j].0 == k,
                self.pending() == pending_after(p0, done_set(es0, i as int), now, timeout, max),
                self.pings() == pings_after(g0, p0, done_set(es0, i as int), now, timeout, max),
                uidx.len() == updates@.len(),
                forall|m: int| 0 <= m < uidx.len() ==> 0 <= #[trigger] uidx[m] < i
                    && failed_of(updates@[m]) == Some(es0[uidx[m]].0)
                    && expires(p0, es0[uidx[m]].0, now, timeout, max),
                forall|m1: int, m2: int| 0 <= m1 < m2 < uidx.len() ==> #[trigger] uidx[m1] < #[trigger] uidx[m2],
                forall|j: int| 0 <= j < i && #[trigger] expires(p0, es0[j].0, now, timeout, max)
                    ==> exists|m: int| 0 <= m < uidx.len() && uidx[m] == j,
                oidx.len() == out@.len(),
                forall|m: int| 0 <= m < oidx.len() ==> 0 <= #[trigger] oidx[m] < i
                    && out@[m].addr == es0[oidx[m]].0
                    && retried(p0, es0[oidx[m]].0, now, timeout, max)
                    && out@[m].payload@ == query_payload(p0[es0[oidx[m]].0].0, token_of(t0, es0[oidx[m]].0)),
                forall|m1: int, m2: int| 0 <= m1 < m2 < oidx.len() ==> #[trigger] oidx[m1] < #[trigger] oidx[m2],
                forall|j: int| 0 <= j < i && #[trigger] retried(p0, es0[j].0, now, timeout, max)
                    ==> exists|m: int| 0 <= m < oidx.len() && oidx[m] == j,
        {
            let (addr, entry) = es[i];
            let (query_type, start, count) = entry;
            let ghost done0 = done_set(es0, i as int);
            let ghost mut old_oidx = oidx;
            let ghost mut old_uidx = uidx;
            proof {
                assert(done_set(es0, i + 1) =~= done0.insert(addr));
                assert(!done0.contains(addr)) by {
                    if done0.contains(addr) {
                        let j = choose|j: int| 0 <= j < i && es0[j].0 == addr;
                        assert(es0[j].0 != es0[i as int].0);
                    }
                }
            }
            let elapsed: u64 = if now >= start { now - start } else { 0 };
            if elapsed > timeout {
                if count < max {
                    self.pending_queries.insert(addr, (query_type, now, count + 1));
                    let o = self.send_query(addr, query_type, now);
                    proof {
                        assert(self.pending() =~= pending_after(p0, done_set(es0, i + 1), now, timeout, max));
                        assert(self.pings() =~= pings_after(g0, p0, done_set(es0, i + 1), now, timeout, max));
                        old_oidx = oidx;
                        oidx = oidx.push(i as int);
                    }
                    out.push(o);
                    proof {
                        assert(!expires(p0, es0[i as int].0, now, timeout, max));
                        assert forall|j: int| 0 <= j < i + 1 && #[trigger] retried(p0, es0[j].0, now, timeout, max)
                            implies exists|m: int| 0 <= m < oidx.len() && oidx[m] == j by {
                            if j == i {
                                assert(oidx[oidx.len() - 1] == j);
                            } else {
                                let m = choose|m: int| 0 <= m < old_oidx.len() && old_oidx[m] == j;
                                assert(oidx[m] == old_oidx[m]);
                            }
                        }
                    }
                } else {
                    self.pending_queries.remove(addr);
                    self.ping_tracker.remove(addr);
                    proof {
                        assert(self.pending() =~= pending_after(p0, done_set(es0, i + 1), now, timeout, max));
                        assert(self.pings() =~= pings_after(g0, p0, done_set(es0, i + 1), now, timeout, max));
                        old_uidx = uidx;
                        uidx = uidx.push(i as int);
                    }
                    updates.push(ServerUpdate::Failed { addr });
                    proof {
                        assert(!retried(p0, es0[i as int].0, now, timeout, max));
                        assert forall|j: int| 0 <= j < i + 1 && #[trigger] expires(p0, es0[j].0, now, timeout, max)
                            implies exists|m: int| 0 <= m < uidx.len() && uidx[m] == j by {
                            if j == i {
                                assert(uidx[uidx.len() - 1] == j);
                            } else {
                                let m = choose|m: int| 0 <= m < old_uidx.len() && old_uidx[m] == j;
                                assert(uidx[m] == old_uidx[m]);
                            }
                        }
                    }
                }
            } else {
                proof {
                    assert(self.pending() =~= pending_after(p0, done_set(es0, i + 1), now, timeout, max));
                    assert(self.pings() =~= pings_after(g0, p0, done_set(es0, i + 1), now, timeout, max));
                    assert(!expires(p0, es0[i as int].0, now, timeout, max));
                    assert(!retried(p0, es0[i as int].0, now, timeout, max));
                }
            }
        }
        proof {
            assert(done_set(es0, n as int) =~= p0.dom());
            assert forall|k: Endpoint| #[trigger] expires(p0, k, now, timeout, max)
                implies exists|m: int| 0 <= m < updates@.len() && failed_of(updates@[m]) == Some(k) by {
                let j = choose|j: int| 0 <= j < es0.len() && es0[j].0 == k;
                assert(expires(p0, es0[j].0, now, timeout, max));
                let m = choose|m: int| 0 <= m < uidx.len() && uidx[m] == j;
                assert(failed_of(updates@[m]) == Some(k));
            }
            assert forall|k: Endpoint| #[trigger] retried(p0, k, now, timeout, max)
                implies exists|m: int| 0 <= m < out@.len() && out@[m].addr == k by {
                let j = choose|j: int| 0 <= j < es0.len() && es0[j].0 == k;
                assert(retried(p0, es0[j].0, now, timeout, max));
                let m = choose|m: int| 0 <= m < oidx.len() && oidx[m] == j;
                assert(out@[m].addr == k);
            }
            assert forall|m: int| 0 <= m < updates@.len() implies (#[trigger] failed_of(updates@[m])) is Some
                && expires(p0, failed_of(updates@[m]).unwrap(), now, timeout, max) by {
                assert(failed_of(updates@[m]) == Some(es0[uidx[m]].0));
            }
            assert forall|m: int| 0 <= m < out@.len() implies retried(p0, (#[trigger] out@[m]).addr, now, timeout, max)
                && out@[m].payload@ == query_payload(p0[out@[m].addr].0, token_of(t0, out@[m].addr)) by {
                assert(out@[m].addr == es0[oidx[m]].0);
            }
            assert forall|m1: int, m2: int| 0 <= m1 < m2 < updates@.len()
                implies failed_of(updates@[m1]) != failed_of(updates@[m2]) by {
                assert(uidx[m1] < uidx[m2]);
            }
            assert forall|m1: int, m2: int| 0 <= m1 < m2 < out@.len()
                implies out@[m1].addr != out@[m2].addr by {
                assert(oidx[m1] < oidx[m2]);
            }
        }
        (updates, out)
    }
}

/// Retries so far of the query in flight to `addr`, zero when none is.
pub open spec fn retries_of(p: Map<Endpoint, (PendingQuery, u64, u8)>, addr: Endpoint) -> u8 {
    if p.contains_key(addr) {
        p[addr].2
    } else {
        0
    }
}

/// The challenge token of `addr`, if any.
pub open spec fn token_of(t: Map<Endpoint, Token>, addr: Endpoint) -> Option<Token> {
    if t.contains_key(addr) {
        Some(t[addr])
    } else {
        None
    }
}

/// The pings after querying each of `addrs` in turn at `now`.
pub open spec fn queried_pings(g: Map<Endpoint, u64>, addrs: Seq<Endpoint>, now: u64) -> Map<Endpoint, u64>
    decreases addrs.len(),
{
    if addrs.len() == 0 {
        g
    } else {
        queried_pings(g, addrs.drop_last(), now).insert(addrs.last(), now)
    }
}

/// The pending queries after querying each of `addrs` in turn at `now`:
/// each gets the query kind and time, and keeps the retry count it had.
pub open spec fn queried_pending(
    p: Map<Endpoint, (PendingQuery, u64, u8)>,
    addrs: Seq<Endpoint>,
    query_type: PendingQuery,
    now: u64,
) -> Map<Endpoint, (PendingQuery, u64, u8)>
    decreases addrs.len(),
{
    if addrs.len() == 0 {
        p
    } else {
        queried_pending(p, addrs.drop_last(), query_type, now).insert(
            addrs.last(),
            (query_type, now, retries_of(p, addrs.last())),
        )
    }
}

proof fn lemma_retries_preserved(
    p: Map<Endpoint, (PendingQuery, u64, u8)>,
    addrs: Seq<Endpoint>,
    query_type: PendingQuery,
    now: u64,
    a: Endpoint,
)
    ensures
        retries_of(queried_pending(p, addrs, query_type, now), a) == retries_of(p, a),
    decreases addrs.len(),
{
    if addrs.len() > 0 {
        lemma_retries_preserved(p, addrs.drop_last(), query_type, now, a);
    }
}

/// The broadcast address with `port`.
pub open spec fn broadcast_endpoint(port: u16) -> Endpoint {
    Endpoint { ip: IpAddress::V4(255, 255, 255, 255), port }
}

fn broadcast_endpoint_exec(port: u16) -> (e: Endpoint)
    ensures
        e == broadcast_endpoint(port),
{
    Endpoint { ip: IpAddress::V4(255, 255, 255, 255), port }
}

/// The protocols the periodic scan looks for.
#[derive(Debug, Clone, Copy, PartialEq, Eq, Structural)]
pub enum ScanKind {
    Source,
    Quake,
    GameSpy,
}

/// The payload of the periodic scan for each protocol: the Source query,
/// `\xFF\xFF\xFF\xFFgetstatus\0`, and `\status\`.
pub open spec fn auto_scan_payload(kind: ScanKind) -> Seq<u8> {
    match kind {
        ScanKind::Source => source_query(),
        ScanKind::Quake => seq![0xFFu8, 0xFF, 0xFF, 0xFF, 0x67, 0x65, 0x74, 0x73, 0x74, 0x61, 0x74, 0x75, 0x73, 0x00],
        ScanKind::GameSpy => seq![0x5Cu8, 0x73, 0x74, 0x61, 0x74, 0x75, 0x73, 0x5C],
    }
}

fn auto_scan_payload_bytes(kind: ScanKind) -> (r: Vec<u8>)
    ensures
        r@ == auto_scan_payload(kind),
{
    match kind {
        ScanKind::Source => source_query_bytes(),
        ScanKind::Quake => {
            let r: Vec<u8> = vec![0xFF, 0xFF, 0xFF, 0xFF, 0x67, 0x65, 0x74, 0x73, 0x74, 0x61, 0x74, 0x75, 0x73, 0x00];
            assert(r@ =~= auto_scan_payload(kind));
            r
        },
        ScanKind::GameSpy => {
            let r: Vec<u8> = vec![0x5C, 0x73, 0x74, 0x61, 0x74, 0x75, 0x73, 0x5C];
            assert(r@ =~= auto_scan_payload(kind));
            r
        },
    }
}

/// The ports the periodic scan broadcasts to, with the protocol of each:
/// Source 27015-27020, Quake 27070, 27960-27963, 27992, 28960-28963, and
/// GameSpy 7777, 7778, 7787, 7788, 23000, 12203, 12300.
pub open spec fn auto_scan_targets() -> Seq<(ScanKind, u16)> {
    seq![
        (ScanKind::Source, 27015u16), (ScanKind::Source, 27016u16), (ScanKind::Source, 27017u16),
        (ScanKind::Source, 27018u16), (ScanKind::Source, 27019u16), (ScanKind::Source, 27020u16),
        (ScanKind::Quake, 27070u16), (ScanKind::Quake, 27960u16), (ScanKind::Quake, 27961u16),
        (ScanKind::Quake, 27962u16), (ScanKind::Quake, 27963u16), (ScanKind::Quake, 27992u16),
        (ScanKind::Quake, 28960u16), (ScanKind::Quake, 28961u16), (ScanKind::Quake, 28962u16),
        (ScanKind::Quake, 28963u16), (ScanKind::GameSpy, 7777u16), (ScanKind::GameSpy, 7778u16),
        (ScanKind::GameSpy, 7787u16), (ScanKind::GameSpy, 7788u16), (ScanKind::GameSpy, 23000u16),
        (ScanKind::GameSpy, 12203u16), (ScanKind::GameSpy, 12300u16),
    ]
}

fn auto_scan_target_list() -> (r: Vec<(ScanKind, u16)>)
    ensures
        r@ == auto_scan_targets(),
{
    let r: Vec<(ScanKind, u16)> = vec![
        (ScanKind::Source, 27015), (ScanKind::Source, 27016), (ScanKind::Source, 27017),
        (ScanKind::Source, 27018), (ScanKind::Source, 27019), (ScanKind::Source, 27020),
        (ScanKind::Quake, 27070), (ScanKind::Quake, 27960), (ScanKind::Quake, 27961),
        (ScanKind::Quake, 27962), (ScanKind::Quake, 27963), (ScanKind::Quake, 27992),
        (ScanKind::Quake, 28960), (ScanKind::Quake, 28961), (ScanKind::Quake, 28962),
        (ScanKind::Quake, 28963), (ScanKind::GameSpy, 7777), (ScanKind::GameSpy, 7778),
        (ScanKind::GameSpy, 7787), (ScanKind::GameSpy, 7788), (ScanKind::GameSpy, 23000),
        (ScanKind::GameSpy, 12203), (ScanKind::GameSpy, 12300),
    ];
    assert(r@ =~= auto_scan_targets());
    r
}

/// Without a query on record for `addr`, the ping is taken from a broadcast
/// to the same port when there is one.
pub open spec fn ping_fallback_ok(g: Map<Endpoint, u64>, addr: Endpoint, now: u64, r: Option<u16>) -> bool {
    match r {
        Some(p) => exists|k: Endpoint| #[trigger] g.contains_key(k) && k.port == addr.port
            && is_broadcast_address(k.ip) && p == ping_ms(g[k], now),
        None => forall|k: Endpoint| #[trigger] g.contains_key(k) && k.port == addr.port ==> !is_broadcast_address(k.ip),
    }
}

/// The ping reported for a response from `addr`: measured as
/// [`Scanner::calculate_ping`] does, or 999.
pub open spec fn ping_used_ok(g: Map<Endpoint, u64>, addr: Endpoint, now: u64, p: u16) -> bool {
    if g.contains_key(addr) {
        p == ping_ms(g[addr], now)
    } else {
        ping_fallback_ok(g, addr, now, Some(p)) || (ping_fallback_ok(g, addr, now, None) && p == UNKNOWN_PING)
    }
}

/// The outcome of handling the response `data` from `addr`.
pub open spec fn socket_data_ok(
    p0: Map<Endpoint, (PendingQuery, u64, u8)>,
    g0: Map<Endpoint, u64>,
    t0: Map<Endpoint, Token>,
    p1: Map<Endpoint, (PendingQuery, u64, u8)>,
    g1: Map<Endpoint, u64>,
    t1: Map<Endpoint, Token>,
    data: Seq<u8>,
    addr: Endpoint,
    now: u64,
    out: Seq<Outgoing>,
    update: Option<ServerUpdate>,
) -> bool {
    let g = g0.remove(addr);
    if !datagram_well_formed(data) {
        &&& p1 == p0 && t1 == t0 && g1 == g && out.len() == 0 && update is None
    } else {
        forall|d: Datagram| #[trigger] decodes_to(data, d) ==> match d {
            Datagram::SourceChallenge { token } => {
                &&& token@.len() == 4
                &&& t1 == t0.insert(addr, (token@[0], token@[1], token@[2], token@[3]))
                &&& g1 == g.insert(addr, now)
                &&& p1 == p0.insert(addr, (PendingQuery::Info, now, retries_of(p0, addr)))
                &&& update is None
                &&& out.len() == 1
                &&& out[0].addr == addr
                &&& out[0].payload@ == query_payload(PendingQuery::Info, Some((token@[0], token@[1], token@[2], token@[3])))
            },
            _ => if crate::servers::describes_server(d) {
                &&& p1 == p0.remove(addr) && t1 == t0 && g1 == g && out.len() == 0
                &&& update matches Some(ServerUpdate::FullServer(s))
                &&& s.ping matches Some(pv) && ping_used_ok(g0, addr, now, pv)
                &&& crate::servers::scanned_describes(d, addr, s.ping, s)
            } else {
                p1 == p0 && t1 == t0 && g1 == g && out.len() == 0 && update is None
            },
        }
    }
}

/// A query that has gone unanswered for longer than `timeout`.
pub open spec fn timed_out(e: (PendingQuery, u64, u8), now: u64, timeout: u64) -> bool {
    (if now >= e.1 { now - e.1 } else { 0 }) > timeout
}

/// The query to `k` has timed out and has been repeated as often as allowed.
pub open spec fn expires(p: Map<Endpoint, (PendingQuery, u64, u8)>, k: Endpoint, now: u64, timeout: u64, max: u8) -> bool {
    p.contains_key(k) && timed_out(p[k], now, timeout) && p[k].2 >= max
}

/// The query to `k` has timed out and may be repeated.
pub open spec fn retried(p: Map<Endpoint, (PendingQuery, u64, u8)>, k: Endpoint, now: u64, timeout: u64, max: u8) -> bool {
    p.contains_key(k) && timed_out(p[k], now, timeout) && p[k].2 < max
}

/// The endpoints of the first `i` entries.
pub open spec fn done_set(es: Seq<(Endpoint, (PendingQuery, u64, u8))>, i: int) -> Set<Endpoint> {
    Set::new(|k: Endpoint| exists|j: int| 0 <= j < i && es[j].0 == k)
}

/// The pending queries once those to `done` have been checked for timeouts.
pub open spec fn pending_after(
    p0: Map<Endpoint, (PendingQuery, u64, u8)>,
    done: Set<Endpoint>,
    now: u64,
    timeout: u64,
    max: u8,
) -> Map<Endpoint, (PendingQuery, u64, u8)> {
    Map::new(
        |k: Endpoint| p0.contains_key(k) && !(done.contains(k) && expires(p0, k, now, timeout, max)),
        |k: Endpoint| if done.contains(k) && retried(p0, k, now, timeout, max) {
            (p0[k].0, now, (p0[k].2 + 1) as u8)
        } else {
            p0[k]
        },
    )
}

/// The ping records once the queries to `done` have been checked for
/// timeouts: expired ones are dropped, repeated ones restart now.
pub open spec fn pings_after(
    g0: Map<Endpoint, u64>,
    p0: Map<Endpoint, (PendingQuery, u64, u8)>,
    done: Set<Endpoint>,
    now: u64,
    timeout: u64,
    max: u8,
) -> Map<Endpoint, u64> {
    Map::new(
        |k: Endpoint| (g0.contains_key(k) && !(done.contains(k) && expires(p0, k, now, timeout, max)))
            || (done.contains(k) && retried(p0, k, now, timeout, max)),
        |k: Endpoint| if done.contains(k) && retried(p0, k, now, timeout, max) {
            now
        } else {
            g0[k]
        },
    )
}

/// The server a failure report is about.
pub open spec fn failed_of(u: ServerUpdate) -> Option<Endpoint> {
    match u {
        ServerUpdate::Failed { addr } => Some(addr),
        _ => None,
    }
}

/// Checking for timeouts leaves every query that has not timed out as it
/// was, and keeps no query that timed out after its last allowed repeat.
pub proof fn law_timeouts_keep_fresh_queries(
    p0: Map<Endpoint, (PendingQuery, u64, u8)>,
    now: u64,
    timeout: u64,
    max: u8,
)
    ensures
        forall|k: Endpoint| #[trigger] p0.contains_key(k) && !timed_out(p0[k], now, timeout) ==> pending_after(
            p0,
            p0.dom(),
            now,
            timeout,
            max,
        ).contains_key(k) && pending_after(p0, p0.dom(), now, timeout, max)[k] == p0[k],
        forall|k: Endpoint| #[trigger] pending_after(p0, p0.dom(), now, timeout, max).contains_key(k) ==> !expires(
            p0,
            k,
            now,
            timeout,
            max,
        ),
{
}

/// A query is repeated at most as often as allowed: when no query in flight
/// has been repeated more often, none has after a timeout check.
pub proof fn law_retries_bounded(p0: Map<Endpoint, (PendingQuery, u64, u8)>, now: u64, timeout: u64, max: u8)
    requires
        forall|k: Endpoint| #[trigger] p0.contains_key(k) ==> p0[k].2 <= max,
    ensures
        forall|k: Endpoint| #[trigger] pending_after(p0, p0.dom(), now, timeout, max).contains_key(k) ==> pending_after(
            p0,
            p0.dom(),
            now,
            timeout,
            max,
        )[k].2 <= max,
{
}

} // verus!
