use lan_game_scan::network::{Endpoint, IpAddress};
use lan_game_scan::protocol::{datagram_is_well_formed, decode_datagram, source_query_bytes, Datagram};
use lan_game_scan::scanner::{build_query, Scanner, UNKNOWN_PING};
use lan_game_scan::listing::{is_listable, list_responses, Listing, Received, Server};
use lan_game_scan::servers::{
    app_id_of, game_name, scanned_from_datagram, PendingQuery, ScanCommand, ServerUpdate,
};

fn info_packet(name: &[u8], game: &str, app: [u8; 2], players: u8, max: u8, bots: u8, vis: u8) -> Vec<u8> {
    let mut b = vec![0xFF, 0xFF, 0xFF, 0xFF, 0x49, 17];
    b.extend_from_slice(name);
    b.push(0);
    b.extend_from_slice(b"de_dust2");
    b.push(0);
    b.extend_from_slice(b"csgo");
    b.push(0);
    b.extend_from_slice(game.as_bytes());
    b.push(0);
    b.extend_from_slice(&app);
    b.extend_from_slice(&[players, max, bots, b'd', b'l', vis, 1]);
    b.extend_from_slice(b"1.0.0");
    b.push(0);
    b
}

fn quake_packet(info: &str, player_lines: &[&str]) -> Vec<u8> {
    let mut b = vec![0xFF, 0xFF, 0xFF, 0xFF];
    b.extend_from_slice(b"statusResponse\n\\");
    b.extend_from_slice(info.as_bytes());
    b.push(b'\n');
    for l in player_lines {
        b.extend_from_slice(l.as_bytes());
        b.push(b'\n');
    }
    b
}

fn addr(last: u8, port: u16) -> Endpoint {
    Endpoint { ip: IpAddress::V4(192, 168, 1, last), port }
}

#[test]
fn source_info_is_decoded() {
    let p = info_packet(b"My Server", "Counter-Strike 2", [0xDA, 0x02], 5, 10, 2, 1);
    assert!(datagram_is_well_formed(&p));
    match decode_datagram(&p) {
        Datagram::SourceInfo(info) => {
            assert_eq!(info.name, "My Server");
            assert_eq!(info.map, "de_dust2");
            assert_eq!(info.folder, "csgo");
            assert_eq!(info.game, "Counter-Strike 2");
            assert_eq!((info.players, info.players_max, info.bots), (5, 10, 2));
            assert_eq!(info.visibility, 1);
            assert_eq!(info.version, "1.0.0");
            assert_eq!(app_id_of(&info), u16::from_ne_bytes([0xDA, 0x02]));
        }
        other => panic!("unexpected {other:?}"),
    }
}

#[test]
fn source_info_becomes_a_scanned_server() {
    let p = info_packet(b"My Server", "Counter-Strike 2", [0xDA, 0x02], 5, 10, 2, 1);
    let d = decode_datagram(&p);
    let s = scanned_from_datagram(&d, addr(9, 27015), Some(12)).expect("a server");
    assert_eq!(s.hostname.as_deref(), Some("My Server"));
    let expected_game = if u16::from_ne_bytes([0xDA, 0x02]) == 730 { "CS2" } else { "Counter-Strike 2" };
    assert_eq!(s.game.as_deref(), Some(expected_game));
    assert_eq!(s.map.as_deref(), Some("de_dust2"));
    assert_eq!(s.players, Some(5));
    assert_eq!(s.players_max, Some(10));
    assert_eq!(s.bots, Some(2));
    assert!(s.has_password);
    assert_eq!(s.query_port, Some(27015));
    assert_eq!(s.ping, Some(12));
}

#[test]
fn known_application_ids_are_named() {
    assert_eq!(game_name(730, &"x".to_string()), "CS2");
    assert_eq!(game_name(240, &"x".to_string()), "CSS");
    assert_eq!(game_name(10, &"x".to_string()), "CS");
    assert_eq!(game_name(440, &"x".to_string()), "TF2");
    assert_eq!(game_name(12345, &"Some Mod".to_string()), "Some Mod");
}

#[test]
fn invalid_utf8_name_is_malformed() {
    let p = info_packet(&[0xC3, 0x28], "g", [0, 0], 0, 0, 0, 0);
    assert!(!datagram_is_well_formed(&p));
}

#[test]
fn quake_status_is_decoded() {
    let p = quake_packet(
        "sv_hostname\\Arena\\gamename\\baseq3\\mapname\\q3dm17\\sv_maxclients\\16",
        &["0 15 \"Bob\"", "3 20 \"Ann\""],
    );
    assert!(datagram_is_well_formed(&p));
    assert_eq!(
        decode_datagram(&p),
        Datagram::QuakeStatus {
            hostname: "Arena".into(),
            game: "baseq3".into(),
            map: "q3dm17".into(),
            players: 2,
            players_max: 16,
        }
    );
}

#[test]
fn quake_status_without_max_clients_is_malformed() {
    let p = quake_packet("sv_hostname\\Arena\\gamename\\baseq3\\mapname\\q3dm17", &[]);
    assert!(!datagram_is_well_formed(&p));
}

#[test]
fn gamespy_status_is_decoded() {
    let p = b"\\hostname\\LAN Party\\mapname\\dm1\\numplayers\\3\\maxplayers\\8".to_vec();
    assert!(datagram_is_well_formed(&p));
    assert_eq!(
        decode_datagram(&p),
        Datagram::GameSpyStatus {
            hostname: "LAN Party".into(),
            game: String::new(),
            map: "dm1".into(),
            players: 3,
            players_max: 8,
        }
    );
}

#[test]
fn other_packets_are_ignored() {
    assert_eq!(decode_datagram(&[1, 2, 3]), Datagram::Ignored);
    assert_eq!(decode_datagram(&[0xFF, 0xFF, 0xFF, 0xFF, 0x6D, 0]), Datagram::GoldSource);
}

#[test]
fn plain_list_entries() {
    fn entry(l: Listing) -> Server {
        match l {
            Listing::Listed(s) => s,
            other => panic!("expected an entry, got {other:?}"),
        }
    }
    let mut one_line = vec![0xFF, 0xFF, 0xFF, 0xFF];
    one_line.extend_from_slice(b"statusResponse\n\\sv_hostname\\Srv\\gamename\\baseq3\\mapname\\q3dm17\\sv_maxclients\\16");
    assert!(is_listable(&one_line));
    let s = entry(Server::from_response(&one_line, "10.0.0.5", 27960));
    assert_eq!(s.ip_port, "10.0.0.5:27960");
    assert_eq!((s.hostname.as_str(), s.game.as_str(), s.map.as_str()), ("Srv", "baseq3", "q3dm17"));
    assert_eq!(s.players, "");
    assert_eq!(s.players_max, "16");
    assert_eq!(s.query_port, 27960);
    assert!(s.rcon.is_none());
    let with_players = quake_packet(
        "sv_hostname\\Arena\\gamename\\baseq3\\mapname\\q3dm17\\sv_maxclients\\16",
        &["0 15 \"Bob\""],
    );
    let s = entry(Server::from_response(&with_players, "10.0.0.5", 27960));
    assert_eq!(s.players_max, "16\n0 15 \"Bob\"\n");
    let g = b"\\hostname\\LAN Party\\mapname\\dm1\\numplayers\\03\\maxplayers\\016";
    let s = entry(Server::from_response(g, "10.0.0.6", 7777));
    assert_eq!((s.game.as_str(), s.players.as_str(), s.players_max.as_str()), ("", "03", "016"));
    let info = info_packet(b"Dust", "Counter-Strike", [0xDA, 0x02], 5, 16, 0, 0);
    let s = entry(Server::from_response(&info, "10.0.0.7", 27015));
    assert_eq!((s.hostname.as_str(), s.players.as_str(), s.players_max.as_str()), ("Dust", "5", "16"));
    match Server::from_response(&[0xFF, 0xFF, 0xFF, 0xFF, 0x41, 1, 2, 3, 4], "10.0.0.7", 27015) {
        Listing::Reply(r) => {
            let mut q = source_query_bytes();
            q.extend_from_slice(&[1, 2, 3, 4]);
            assert_eq!(r, q);
        }
        other => panic!("expected a reply, got {other:?}"),
    }
    assert!(matches!(Server::from_response(&[0xFF, 0xFF, 0xFF, 0xFF, 0x6D, 0], "10.0.0.7", 1), Listing::Nothing));
    assert!(!is_listable(b"\\hostname\\odd"));
}

#[test]
fn responses_are_listed_in_arrival_order() {
    let mut q = vec![0xFF, 0xFF, 0xFF, 0xFF];
    q.extend_from_slice(b"statusResponse\n\\sv_hostname\\A\\gamename\\g\\mapname\\m\\sv_maxclients\\8");
    let got = list_responses(&vec![
        Received { bytes: b"junk".to_vec(), ip_text: "10.0.0.1".into(), port: 1 },
        Received { bytes: q, ip_text: "10.0.0.2".into(), port: 2 },
        Received { bytes: vec![0xFF, 0xFF, 0xFF, 0xFF, 0x41, 9, 9, 9, 9], ip_text: "10.0.0.3".into(), port: 3 },
        Received { bytes: b"\\hostname\\B\\mapname\\n\\numplayers\\1\\maxplayers\\2".to_vec(), ip_text: "10.0.0.4".into(), port: 4 },
    ]);
    assert_eq!(got.len(), 4);
    assert!(matches!(got[0], Listing::Nothing));
    assert!(matches!(&got[1], Listing::Listed(s) if s.hostname == "A" && s.ip_port == "10.0.0.2:2"));
    assert!(matches!(got[2], Listing::Reply(_)));
    assert!(matches!(&got[3], Listing::Listed(s) if s.hostname == "B" && s.query_port == 4));
}

#[test]
fn query_packets() {
    let mut q = source_query_bytes();
    assert_eq!(q, b"\xFF\xFF\xFF\xFFTSource Engine Query\x00".to_vec());
    assert_eq!(build_query(PendingQuery::Info, None), q);
    q.extend_from_slice(&[1, 2, 3, 4]);
    assert_eq!(build_query(PendingQuery::Info, Some((1, 2, 3, 4))), q);
    assert_eq!(build_query(PendingQuery::Player, None), vec![0xFF, 0xFF, 0xFF, 0xFF, 0x55, 0xFF, 0xFF, 0xFF, 0xFF]);
    assert_eq!(build_query(PendingQuery::Rules, Some((9, 8, 7, 6))), vec![0xFF, 0xFF, 0xFF, 0xFF, 0x56, 9, 8, 7, 6]);
}

#[test]
fn challenge_then_info_reports_the_server_with_its_ping() {
    let a = addr(9, 27015);
    let mut s = Scanner::new();
    let out = s.handle_command(ScanCommand::ScanServer { addr: a, query_type: PendingQuery::Info }, 1000);
    assert_eq!(out.len(), 1);
    assert_eq!(out[0].addr, a);
    assert_eq!(out[0].payload, source_query_bytes());

    let (out, update) = s.handle_socket_data(&[0xFF, 0xFF, 0xFF, 0xFF, 0x41, 1, 2, 3, 4], a, 1010);
    assert!(update.is_none());
    assert_eq!(out.len(), 1);
    let mut expected = source_query_bytes();
    expected.extend_from_slice(&[1, 2, 3, 4]);
    assert_eq!(out[0].payload, expected);

    let p = info_packet(b"My Server", "Game", [0, 0], 1, 8, 0, 0);
    let (out, update) = s.handle_socket_data(&p, a, 1050);
    assert!(out.is_empty());
    match update {
        Some(ServerUpdate::FullServer(srv)) => {
            assert_eq!(srv.ping, Some(40));
            assert_eq!(srv.socket_addr, a);
        }
        other => panic!("unexpected {other:?}"),
    }
    // The answered query is no longer pending: nothing times out.
    let (failed, retried) = s.handle_timeouts(100_000);
    assert!(failed.is_empty());
    assert!(retried.is_empty());
}

#[test]
fn response_without_record_gets_the_unknown_ping() {
    let mut s = Scanner::new();
    let p = info_packet(b"X", "Game", [0, 0], 0, 8, 0, 0);
    let (_, update) = s.handle_socket_data(&p, addr(3, 27015), 5);
    match update {
        Some(ServerUpdate::FullServer(srv)) => assert_eq!(srv.ping, Some(UNKNOWN_PING)),
        other => panic!("unexpected {other:?}"),
    }
    assert_eq!(UNKNOWN_PING, 999);
}

#[test]
fn broadcast_query_measures_answers_on_its_port() {
    let mut s = Scanner::new();
    let bcast = Endpoint { ip: IpAddress::V4(255, 255, 255, 255), port: 27015 };
    s.send_query(bcast, PendingQuery::Info, 100);
    assert_eq!(s.calculate_ping(addr(4, 27015), 130), Some(30));
    assert_eq!(s.calculate_ping(addr(4, 27016), 130), None);
    // The broadcast record stays for further answers.
    assert_eq!(s.calculate_ping(addr(5, 27015), 160), Some(60));
}

#[test]
fn ping_is_at_least_one_millisecond() {
    let mut s = Scanner::new();
    let a = addr(6, 27015);
    s.send_query(a, PendingQuery::Info, 500);
    assert_eq!(s.calculate_ping(a, 500), Some(1));
    // The record of a directly queried server is used once.
    assert_eq!(s.calculate_ping(a, 900), None);
}

#[test]
fn unanswered_query_is_repeated_then_reported_failed() {
    let a = addr(7, 27015);
    let mut s = Scanner::new();
    s.handle_command(ScanCommand::ScanServer { addr: a, query_type: PendingQuery::Info }, 0);
    let (failed, retried) = s.handle_timeouts(1500);
    assert!(failed.is_empty() && retried.is_empty());
    let (failed, retried) = s.handle_timeouts(1600);
    assert!(failed.is_empty());
    assert_eq!(retried.len(), 1);
    assert_eq!(retried[0].addr, a);
    let (failed, retried) = s.handle_timeouts(3101);
    assert!(failed.is_empty());
    assert_eq!(retried.len(), 1);
    let (failed, retried) = s.handle_timeouts(4602);
    assert!(retried.is_empty());
    assert_eq!(failed, vec![ServerUpdate::Failed { addr: a }]);
    let (failed, retried) = s.handle_timeouts(10_000);
    assert!(failed.is_empty() && retried.is_empty());
}

#[test]
fn batch_scan_and_cancel() {
    let mut s = Scanner::new();
    let addrs = vec![addr(1, 27015), addr(2, 27016)];
    let out = s.handle_command(ScanCommand::BatchScan { addrs: addrs.clone(), query_type: PendingQuery::Player }, 10);
    assert_eq!(out.len(), 2);
    assert_eq!(out[0].addr, addrs[0]);
    assert_eq!(out[1].addr, addrs[1]);
    assert_eq!(out[1].payload, vec![0xFF, 0xFF, 0xFF, 0xFF, 0x55, 0xFF, 0xFF, 0xFF, 0xFF]);
    let out = s.handle_command(ScanCommand::Cancel, 20);
    assert!(out.is_empty());
    let (failed, retried) = s.handle_timeouts(100_000);
    assert!(failed.is_empty() && retried.is_empty());
}

#[test]
fn periodic_scan_covers_every_protocol_port() {
    let s = Scanner::new();
    let out = s.auto_scan_packets();
    assert_eq!(out.len(), 23);
    assert!(out.iter().all(|o| o.addr.ip == IpAddress::V4(255, 255, 255, 255)));
    assert_eq!(out[0].addr.port, 27015);
    assert_eq!(out[0].payload, source_query_bytes());
    assert_eq!(out[6].addr.port, 27070);
    assert_eq!(out[6].payload, b"\xFF\xFF\xFF\xFFgetstatus\x00".to_vec());
    assert_eq!(out[22].addr.port, 12300);
    assert_eq!(out[22].payload, b"\\status\\".to_vec());
}
