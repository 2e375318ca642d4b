use lan_game_scan::events::LogTeam;
use lan_game_scan::events::LogPlayer;
use lan_game_scan::matchzy::{
    build_match_config, loadmatch_command, matchzy_config_url, missing_players, publish_plan,
    team_players, team_roster, ConfigHost, TypedPlayer,
};
use lan_game_scan::network::{Endpoint, IpAddress};
use lan_game_scan::players::{RconPlayers, Team};
use lan_game_scan::registry::{shown_on_lan, GameServer, ServerRegistry};
use lan_game_scan::servers::{PlayerInfo, ScannedServer, ServerUpdate};

fn tp(steamid: &str, name: &str) -> TypedPlayer {
    TypedPlayer { steamid: steamid.into(), name: name.into() }
}

fn sorted_players(v: &[lan_game_scan::matchzy::MatchPlayer]) -> Vec<(String, String)> {
    let mut r: Vec<(String, String)> = v.iter().map(|p| (p.steam64.clone(), p.name.clone())).collect();
    r.sort();
    r
}

#[test]
fn team_is_roster_then_typed_entries_up_to_three() {
    let roster = vec![tp("[U:1:1]", "Ann"), tp("bad id", "Nobody")];
    let typed = vec![tp("2", "  "), tp("76561197960265731", "Cid"), tp("4", "Dan")];
    let got = team_players(&roster, &typed);
    assert_eq!(
        sorted_players(&got),
        vec![
            ("76561197960265729".to_string(), "Ann".to_string()),
            ("76561197960265730".to_string(), "UNKNOWN".to_string()),
            ("76561197960265731".to_string(), "Cid".to_string()),
        ]
    );
}

#[test]
fn a_full_roster_takes_no_typed_entries() {
    let roster = vec![tp("1", "A"), tp("2", "B"), tp("3", "C"), tp("4", "D")];
    let got = team_players(&roster, &vec![tp("5", "E")]);
    assert_eq!(got.len(), 4);
}

#[test]
fn same_steam_id_twice_keeps_the_later_name() {
    let got = team_players(&vec![tp("1", "A"), tp("[U:1:1]", "B")], &vec![]);
    assert_eq!(sorted_players(&got), vec![("76561197960265729".to_string(), "B".to_string())]);
}

#[test]
fn match_configuration() {
    let cfg = build_match_config(
        "  Blue  ",
        "Red",
        &vec![tp("1", "A")],
        &vec![],
        &vec![tp("2", "B")],
        &vec![tp("3", "C")],
    );
    assert_eq!(cfg.team1.name, "Blue");
    assert_eq!(cfg.team2.name, "Red");
    assert_eq!(cfg.team1.players.len(), 1);
    assert_eq!(cfg.team2.players.len(), 2);
    assert_eq!(cfg.num_maps, 3);
    assert_eq!(
        cfg.maplist,
        vec!["de_ancient", "de_anubis", "de_dust2", "de_inferno", "de_mirage", "de_nuke", "de_overpass"]
    );
    assert_eq!(cfg.map_ban_order, vec!["team1_ban", "team2_ban", "team1_pick", "team2_pick"]);
    assert!(!cfg.skip_veto);
    assert_eq!(cfg.players_per_team, 3);
    assert!(cfg.series_can_clinch);
    assert_eq!(missing_players(1), 2);
    assert_eq!(missing_players(5), 0);
}

#[test]
fn roster_of_a_team_shows_unknown_names() {
    let mut p = RconPlayers::new();
    p.update_with_team_switch(&LogPlayer { name: String::new(), id: 2, steamid: "[U:1:9]".into(), team: LogTeam::CT });
    p.update_with_team_switch(&LogPlayer { name: "T".into(), id: 3, steamid: "x".into(), team: LogTeam::Terrorist });
    let ct = team_roster(&p, Team::CT);
    assert_eq!(ct.len(), 1);
    assert_eq!((ct[0].steamid.as_str(), ct[0].name.as_str()), ("[U:1:9]", "UNKNOWN"));
}

#[test]
fn hosted_configuration() {
    let mut h = ConfigHost::new();
    let r = h.fetch();
    assert_eq!((r.status, r.body.as_str()), (404, "No MatchZy configuration published."));
    h.publish("{\"a\":1}".into());
    let r = h.fetch();
    assert_eq!((r.status, r.body.as_str()), (200, "{\"a\":1}"));
    h.publish(String::new());
    assert_eq!(h.fetch().status, 404);
}

fn scanned(last: u8, name: &str, ping: Option<u16>) -> ScannedServer {
    ScannedServer {
        socket_addr: Endpoint { ip: IpAddress::V4(192, 168, 1, last), port: 27015 },
        hostname: Some(name.into()),
        game: None,
        map: None,
        players: Some(1),
        players_max: Some(10),
        query_port: Some(27015),
        ping,
        bots: None,
        has_password: false,
        password: None,
    }
}

#[test]
fn reports_merge_into_the_server_list() {
    let mut r = ServerRegistry::new();
    let a = scanned(5, "one", Some(10)).socket_addr;
    r.apply_update(ServerUpdate::FullServer(scanned(5, "one", Some(10))), 100);
    r.toggle_favorite(a);
    r.apply_update(ServerUpdate::FullServer(scanned(5, "renamed", Some(20))), 105);
    let g = r.get(a).expect("known");
    assert_eq!(g.scanned.hostname.as_deref(), Some("renamed"));
    assert!(g.is_favorite);
    assert_eq!(g.last_update, Some(105));
    let players = vec![
        PlayerInfo { name: "p".into(), score: 1, ping: None, duration_ms: None, index: None, team: None, skin: None, is_bot: false };
        3
    ];
    r.apply_update(ServerUpdate::PlayerList { addr: a, players }, 106);
    let g = r.get(a).expect("known");
    assert_eq!(g.scanned.players, Some(3));
    assert_eq!(g.players_list.len(), 3);
    r.apply_update(ServerUpdate::Failed { addr: a }, 107);
    assert_eq!(r.get(a).expect("known").scanned.ping, None);
    let unknown = scanned(9, "x", None).socket_addr;
    r.apply_update(ServerUpdate::Failed { addr: unknown }, 107);
    assert!(!r.contains(unknown));
}

#[test]
fn aging_drops_silent_servers_but_keeps_favourites() {
    let mut r = ServerRegistry::new();
    r.apply_update(ServerUpdate::FullServer(scanned(1, "fresh", Some(5))), 100);
    r.apply_update(ServerUpdate::FullServer(scanned(2, "stale", Some(5))), 80);
    r.apply_update(ServerUpdate::FullServer(scanned(3, "fav", Some(5))), 80);
    r.apply_update(ServerUpdate::FullServer(scanned(4, "fav recent", Some(5))), 92);
    let fav = scanned(3, "", None).socket_addr;
    let fav_recent = scanned(4, "", None).socket_addr;
    r.toggle_favorite(fav);
    r.toggle_favorite(fav_recent);
    let mut to_ping = r.prune(100);
    to_ping.sort_by_key(|e| match e.ip {
        IpAddress::V4(_, _, _, d) => d,
        IpAddress::V6(_) => 0,
    });
    assert_eq!(to_ping, vec![fav, fav_recent]);
    assert!(r.contains(scanned(1, "", None).socket_addr));
    assert!(!r.contains(scanned(2, "", None).socket_addr));
    assert_eq!(r.get(fav).expect("kept").scanned.ping, None);
    assert_eq!(r.get(fav_recent).expect("kept").scanned.ping, Some(5));
    assert_eq!(r.servers().len(), 3);
}

#[test]
fn custom_servers_passwords_and_autologin() {
    let mut r = ServerRegistry::new();
    let a = Endpoint { ip: IpAddress::V4(10, 0, 0, 2), port: 27016 };
    r.add_custom_server(a, 50);
    let g = r.get(a).expect("added");
    assert_eq!(g.scanned.hostname.as_deref(), Some("Custom Server"));
    assert_eq!(g.scanned.query_port, Some(27016));
    assert!(g.is_favorite);
    r.set_server_password(a, "secret".into());
    assert_eq!(r.get(a).expect("added").scanned.password.as_deref(), Some("secret"));
    r.set_server_password(a, String::new());
    assert_eq!(r.get(a).expect("added").scanned.password, None);
    assert!(r.autologin_targets().is_empty());
    let mut g2: GameServer = r.get(a).expect("added").duplicate();
    g2.rcon_autologin = true;
    g2.rcon_password = Some("rcon".into());
    r.insert(g2);
    assert_eq!(r.autologin_targets(), vec![(a, "rcon".to_string())]);
}

#[test]
fn lan_list_and_table_visibility() {
    let mut r = ServerRegistry::new();
    r.apply_update(ServerUpdate::FullServer(scanned(1, "x", Some(3))), 0);
    let g = r.get(scanned(1, "", None).socket_addr).expect("known");
    assert!(shown_on_lan(g));
    assert!(g.visible_in_table(14, false));
    assert!(!g.visible_in_table(15, false));
    assert!(g.visible_in_table(15, true));
    let mut off = g.duplicate();
    off.scanned.ping = None;
    assert!(!shown_on_lan(&off));
    let mut public = g.duplicate();
    public.scanned.socket_addr = Endpoint { ip: IpAddress::V4(8, 8, 8, 8), port: 1 };
    assert!(!shown_on_lan(&public));
}

#[test]
fn publishing_a_configuration() {
    assert_eq!(matchzy_config_url(0xC0A8_B214), "http://192.168.178.20:7131/MatchZyConfig");
    assert_eq!(loadmatch_command("http://a/b"), "matchzy_loadmatch_url \"http://a/b\"");
    let (url, cmd) = publish_plan(Some(0x0A00_0001)).expect("a plan");
    assert_eq!(url, "http://10.0.0.1:7131/MatchZyConfig");
    assert_eq!(cmd, "matchzy_loadmatch_url \"http://10.0.0.1:7131/MatchZyConfig\"");
    assert!(publish_plan(None).is_none());
}
