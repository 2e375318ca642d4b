//! Broadcast scan rounds, plain and with pinging: which packets go to
//! which broadcast ports, and when each was sent.
use vstd::prelude::*;
use crate::assoc::EndpointMap;
use crate::network::{Endpoint, IpAddress};
use crate::protocol::{source_query, source_query_bytes};
use crate::scanner::{ping_between, ping_ms};

verus! {

/// A packet and where it goes.
pub struct Packet {
    pub payload: Vec<u8>,
    pub addr: Endpoint,
}

/// The broadcast address at `port`.
pub open spec fn broadcast_to(port: u16) -> Endpoint {
    Endpoint { ip: IpAddress::V4(255, 255, 255, 255), port }
}

/// `\xFF\xFF\xFF\xFFgetstatus\n`, the Quake 3 status query of these rounds.
pub open spec fn getstatus_query() -> Seq<u8> {
    seq![0xFFu8, 0xFF, 0xFF, 0xFF, 0x67, 0x65, 0x74, 0x73, 0x74, 0x61, 0x74, 0x75, 0x73, 0x0A]
}

/// `\status\`, the GameSpy status query.
pub open spec fn gamespy_status_query() -> Seq<u8> {
    seq![0x5Cu8, 0x73, 0x74, 0x61, 0x74, 0x75, 0x73, 0x5C]
}

/// `\info\`, the Unreal Tournament info query.
pub open spec fn ut_info_query() -> Seq<u8> {
    seq![0x5Cu8, 0x69, 0x6E, 0x66, 0x6F, 0x5C]
}

/// The Source ports of these rounds.
pub open spec fn source_ports() -> Seq<u16> {
    seq![27015u16, 27016, 27017, 27018, 27019]
}

/// The Quake 3 ports.
pub open spec fn quake_ports() -> Seq<u16> {
    seq![27070u16, 27960, 27961, 27962, 27963, 27992, 28960, 28961, 28962, 28963]
}

/// The GameSpy ports of the pinging round.
pub open spec fn gamespy_ports() -> Seq<u16> {
    seq![7777u16, 7778, 7787, 7788, 23000, 12203, 12300]
}

/// The Unreal Tournament ports of the plain round.
pub open spec fn ut_ports() -> Seq<u16> {
    seq![7777u16, 7778, 7787, 7788, 23000]
}

/// One packet with `payload` to the broadcast address of each port.
pub open spec fn to_ports(payload: Seq<u8>, ports: Seq<u16>) -> Seq<(Seq<u8>, Endpoint)> {
    Seq::new(ports.len(), |i: int| (payload, broadcast_to(ports[i])))
}

/// The views of a list of packets.
pub open spec fn packet_views(v: Seq<Packet>) -> Seq<(Seq<u8>, Endpoint)> {
    v.map_values(|p: Packet| (p.payload@, p.addr))
}

fn bytes_of(b: &[u8]) -> (r: Vec<u8>)
    ensures
        r@ == b@,
{
    let mut r: Vec<u8> = Vec::new();
    for i in 0..b.len()
        invariant
            r@ == b@.take(i as int),
    {
        r.push(b[i]);
        assert(b@.take(i as int).push(b@[i as int]) =~= b@.take(i + 1));
    }
    assert(b@.take(b.len() as int) =~= b@);
    r
}

fn push_to_ports(out: &mut Vec<Packet>, payload: &[u8], ports: &[u16])
    ensures
        packet_views(final(out)@) == packet_views(old(out)@) + to_ports(payload@, ports@),
{
    let ghost start = packet_views(out@);
    for i in 0..ports.len()
        invariant
            packet_views(out@) == start + to_ports(payload@, ports@.take(i as int)),
    {
        let ghost before = packet_views(out@);
        out.push(Packet { payload: bytes_of(payload), addr: Endpoint { ip: IpAddress::V4(255, 255, 255, 255), port: ports[i] } });
        assert(packet_views(out@) =~= before.push((payload@, broadcast_to(ports@[i as int]))));
        assert(to_ports(payload@, ports@.take(i + 1)) =~= to_ports(payload@, ports@.take(i as int)).push(
            (payload@, broadcast_to(ports@[i as int])),
        ));
    }
    assert(ports@.take(ports@.len() as int) =~= ports@);
}

/// The plain round: the Source query to the Source ports, the
/// status query to the Quake 3 ports and `\info\` to the Unreal Tournament
/// ports, all broadcast.
pub fn plain_broadcast_round() -> (r: Vec<Packet>)
    ensures
        packet_views(r@) == to_ports(source_query(), source_ports()) + to_ports(getstatus_query(), quake_ports())
            + to_ports(ut_info_query(), ut_ports()),
{
    let mut r: Vec<Packet> = Vec::new();
    assert(packet_views(r@) =~= Seq::<(Seq<u8>, Endpoint)>::empty());
    let sq = source_query_bytes();
    let sp: [u16; 5] = [27015, 27016, 27017, 27018, 27019];
    assert(sp@ =~= source_ports());
    push_to_ports(&mut r, sq.as_slice(), &sp);
    let q: [u8; 14] = [0xFF, 0xFF, 0xFF, 0xFF, 0x67, 0x65, 0x74, 0x73, 0x74, 0x61, 0x74, 0x75, 0x73, 0x0A];
    assert(q@ =~= getstatus_query());
    let qp: [u16; 10] = [27070, 27960, 27961, 27962, 27963, 27992, 28960, 28961, 28962, 28963];
    assert(qp@ =~= quake_ports());
    push_to_ports(&mut r, &q, &qp);
    let u: [u8; 6] = [0x5C, 0x69, 0x6E, 0x66, 0x6F, 0x5C];
    assert(u@ =~= ut_info_query());
    let up: [u16; 5] = [7777, 7778, 7787, 7788, 23000];
    assert(up@ =~= ut_ports());
    push_to_ports(&mut r, &u, &up);
    r
}

/// The pinging round: the Source query to the Source ports, the
/// status query to the Quake 3 ports and `\status\` to the GameSpy ports,
/// all broadcast, each recorded as sent at `now`.
pub fn pinging_broadcast_round(pings: &mut EndpointMap<u64>, now: u64) -> (r: Vec<Packet>)
    requires
        old(pings).wf(),
    ensures
        final(pings).wf(),
        packet_views(r@) == to_ports(source_query(), source_ports()) + to_ports(getstatus_query(), quake_ports())
            + to_ports(gamespy_status_query(), gamespy_ports()),
        forall|k: Endpoint| #[trigger] final(pings).view().contains_key(k) <==> (old(pings).view().contains_key(k)
            || exists|i: int| 0 <= i < r@.len() && r@[i].addr == k),
        forall|k: Endpoint| #[trigger] final(pings).view().contains_key(k) ==> final(pings).view()[k] == if exists|i: int|
            0 <= i < r@.len() && r@[i].addr == k {
            now
        } else {
            old(pings).view()[k]
        },
{
    let mut r: Vec<Packet> = Vec::new();
    assert(packet_views(r@) =~= Seq::<(Seq<u8>, Endpoint)>::empty());
    let sq = source_query_bytes();
    let sp: [u16; 5] = [27015, 27016, 27017, 27018, 27019];
    assert(sp@ =~= source_ports());
    push_to_ports(&mut r, sq.as_slice(), &sp);
    let q: [u8; 14] = [0xFF, 0xFF, 0xFF, 0xFF, 0x67, 0x65, 0x74, 0x73, 0x74, 0x61, 0x74, 0x75, 0x73, 0x0A];
    assert(q@ =~= getstatus_query());
    let qp: [u16; 10] = [27070, 27960, 27961, 27962, 27963, 27992, 28960, 28961, 28962, 28963];
    assert(qp@ =~= quake_ports());
    push_to_ports(&mut r, &q, &qp);
    let g: [u8; 8] = [0x5C, 0x73, 0x74, 0x61, 0x74, 0x75, 0x73, 0x5C];
    assert(g@ =~= gamespy_status_query());
    let gp: [u16; 7] = [7777, 7778, 7787, 7788, 23000, 12203, 12300];
    assert(gp@ =~= gamespy_ports());
    push_to_ports(&mut r, &g, &gp);
    let ghost p0 = pings.view();
    for i in 0..r.len()
        invariant
            pings.wf(),
            forall|k: Endpoint| #[trigger] pings.view().contains_key(k) <==> (p0.contains_key(k)
                || exists|j: int| 0 <= j < i && r@[j].addr == k),
            forall|k: Endpoint| #[trigger] pings.view().contains_key(k) ==> pings.view()[k] == if exists|j: int|
                0 <= j < i && r@[j].addr == k {
                now
            } else {
                p0[k]
            },
    {
        pings.insert(r[i].addr, now);
        proof {
            assert forall|k: Endpoint| #[trigger] pings.view().contains_key(k) <==> (p0.contains_key(k)
                || exists|j: int| 0 <= j < i + 1 && r@[j].addr == k) by {
                if exists|j: int| 0 <= j < i + 1 && r@[j].addr == k {
                    let j = choose|j: int| 0 <= j < i + 1 && r@[j].addr == k;
                    if j < i {
                        assert(exists|j2: int| 0 <= j2 < i && r@[j2].addr == k);
                    }
                }
            }
            assert forall|k: Endpoint| #[trigger] pings.view().contains_key(k) implies pings.view()[k] == if exists|j: int|
                0 <= j < i + 1 && r@[j].addr == k {
                now
            } else {
                p0[k]
            } by {
                if exists|j: int| 0 <= j < i && r@[j].addr == k {
                    let j = choose|j: int| 0 <= j < i && r@[j].addr == k;
                    assert(0 <= j < i + 1 && r@[j].addr == k);
                }
                if k == r@[i as int].addr {
                    assert(0 <= i < i + 1 && r@[i as int].addr == k);
                } else if exists|j: int| 0 <= j < i + 1 && r@[j].addr == k {
                    let j = choose|j: int| 0 <= j < i + 1 && r@[j].addr == k;
                    assert(j < i);
                }
            }
        }
    }
    r
}

/// A query to one server with pinging: all three queries to
/// `addr`, recorded as sent at `now`.
pub fn direct_query(pings: &mut EndpointMap<u64>, addr: Endpoint, now: u64) -> (r: Vec<Packet>)
    requires
        old(pings).wf(),
    ensures
        final(pings).wf(),
        final(pings).view() == old(pings).view().insert(addr, now),
        packet_views(r@) == seq![(source_query(), addr), (getstatus_query(), addr), (gamespy_status_query(), addr)],
{
    pings.insert(addr, now);
    let mut r: Vec<Packet> = Vec::new();
    r.push(Packet { payload: source_query_bytes(), addr });
    let q: [u8; 14] = [0xFF, 0xFF, 0xFF, 0xFF, 0x67, 0x65, 0x74, 0x73, 0x74, 0x61, 0x74, 0x75, 0x73, 0x0A];
    assert(q@ =~= getstatus_query());
    r.push(Packet { payload: bytes_of(&q), addr });
    let g: [u8; 8] = [0x5C, 0x73, 0x74, 0x61, 0x74, 0x75, 0x73, 0x5C];
    assert(g@ =~= gamespy_status_query());
    r.push(Packet { payload: bytes_of(&g), addr });
    assert(packet_views(r@) =~= seq![(source_query(), addr), (getstatus_query(), addr), (gamespy_status_query(), addr)]);
    r
}

/// The round-trip time of an answer from `addr` with pinging:
/// from the query sent to `addr` itself, whose record is then dropped, or
/// else from the last round broadcast to the same port, whose record is
/// kept.
pub fn round_trip(pings: &mut EndpointMap<u64>, addr: Endpoint, now: u64) -> (r: Option<u16>)
    requires
        old(pings).wf(),
    ensures
        final(pings).wf(),
        old(pings).view().contains_key(addr) ==> final(pings).view() == old(pings).view().remove(addr)
            && r == Some(ping_ms(old(pings).view()[addr], now)),
        !old(pings).view().contains_key(addr) ==> final(pings).view() == old(pings).view() && r == if old(
            pings,
        ).view().contains_key(broadcast_to(addr.port)) {
            Some(ping_ms(old(pings).view()[broadcast_to(addr.port)], now))
        } else {
            None
        },
{
    match pings.remove(addr) {
        Some(start) => Some(ping_between(start, now)),
        None => match pings.get(Endpoint { ip: IpAddress::V4(255, 255, 255, 255), port: addr.port }) {
            Some(start) => Some(ping_between(start, now)),
            None => None,
        },
    }
}

} // verus!
