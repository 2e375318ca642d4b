use lan_game_scan::cvar::CvarDatabase;
use lan_game_scan::events::{LogEvent, LogPlayer, LogTeam, LogType, ParsedLine, RosterEntry, RoundStats};
use lan_game_scan::players::{RconPlayers, Team};
use lan_game_scan::score::TeamScore;
use lan_game_scan::session::{
    admin_response, has_live_log, ipv4_to_string, is_command, live_log_cleanup_command,
    live_log_setup, live_log_url, matchzy_command, matchzy_log_url, parse_maps, rcon_protocol,
    register_command, server_protocol_of, AdminCommand, Game, RconLogEvent, RconProtocol,
    RconState, RconStatus, ServerProtocol, StateUpdate, LOOPBACK_V4,
};

fn player(name: &str, id: u16, team: LogTeam) -> LogPlayer {
    LogPlayer { name: name.into(), id, steamid: format!("[U:1:{id}]"), team }
}

fn chat(name: &str, msg: &str) -> LogEvent {
    LogEvent::Chat { player: player(name, 1, LogTeam::CT), msg: msg.into(), is_team_chat: false }
}

fn line(event: LogEvent) -> StateUpdate {
    StateUpdate::LogEvent(ParsedLine { raw: "raw".into(), log_type: LogType::Unknown, event })
}

#[test]
fn admin_commands_in_chat() {
    assert_eq!(is_command(&chat("Bob", "  !ADMIN help")), Some(AdminCommand::Admin));
    assert_eq!(is_command(&chat("Bob", "!pause")), Some(AdminCommand::Pause));
    assert_eq!(is_command(&chat("Bob", "!UnPause now")), Some(AdminCommand::UnPause));
    assert_eq!(is_command(&chat("Console", "!clear")), Some(AdminCommand::Clear));
    assert_eq!(is_command(&chat("Console", "!solved")), Some(AdminCommand::Clear));
    assert_eq!(is_command(&chat("Bob", "!clear")), None);
    assert_eq!(is_command(&chat("Bob", "say !admin")), None);
    assert_eq!(is_command(&LogEvent::Unknown), None);
    assert_eq!(admin_response(&chat("Bob", "!pause")).as_deref(), Some("mp_pause_match"));
    assert_eq!(admin_response(&chat("Bob", "!unpause")).as_deref(), Some("mp_unpause_match"));
    assert_eq!(admin_response(&chat("Bob", "!admin")), None);
}

#[test]
fn new_session_state() {
    let s = RconState::new();
    assert!(s.logs().is_empty());
    assert_eq!(s.status(), RconStatus::Disconnected);
    assert!(s.players().players().is_empty());
    assert!(!s.match_paused());
    assert_eq!(s.score(), TeamScore { ct: 0, t: 0, round: 0 });
    assert!(s.maps().is_empty());
    assert_eq!(s.team_name_ct(), "TeamA");
    assert_eq!(s.team_name_t(), "");
    assert_eq!(s.max_rounds, 0);
    assert!(!s.need_attention());
    assert!(s.cvar_db().is_none());
    assert!(s.command_history().is_empty());
}

#[test]
fn attention_is_raised_by_players_and_cleared_by_the_console() {
    let mut s = RconState::new();
    s.update(line(chat("Bob", "!admin")));
    assert!(s.need_attention());
    s.update(line(chat("Bob", "!clear")));
    assert!(s.need_attention());
    s.update(line(chat("Console", "!solved")));
    assert!(!s.need_attention());
    assert_eq!(s.logs().len(), 3);
}

#[test]
fn pause_events_follow_the_server() {
    let mut s = RconState::new();
    let tech = |name: &str, action: &str| line(LogEvent::Technical { name: name.into(), action: action.into() });
    s.update(tech("Match", "Pause Enabled"));
    assert!(s.match_paused());
    s.update(tech("Other", "Pause Disabled"));
    assert!(s.match_paused());
    s.update(tech("Match", "Pause Disabled"));
    assert!(!s.match_paused());
}

#[test]
fn roster_score_and_team_names_follow_the_log() {
    let mut s = RconState::new();
    s.update(line(LogEvent::TeamSwitch { player: player("Ann", 3, LogTeam::Terrorist), from: LogTeam::Unassigned }));
    s.update(line(LogEvent::TeamSwitch { player: player("Bob", 4, LogTeam::CT), from: LogTeam::Unassigned }));
    assert_eq!(s.players().players().len(), 2);
    s.update(line(LogEvent::Connection { player: player("Bob", 4, LogTeam::CT), action: "Disconnected".into(), info: None }));
    assert_eq!(s.players().players().len(), 1);
    s.update(line(LogEvent::Connection { player: player("Ann", 3, LogTeam::CT), action: "connected".into(), info: None }));
    assert_eq!(s.players().players().len(), 1);
    s.update(line(LogEvent::ScoreUpdate { t1: 3, t2: 4, map: "de_dust2".into(), rounds: 7 }));
    assert_eq!(s.score().round, 7);
    s.update(line(LogEvent::RoundStats {
        roundstats: RoundStats { score_ct: 300, score_t: 4, players: vec![RosterEntry { id: 3, team: 3 }] },
    }));
    assert_eq!(s.score(), TeamScore { ct: 255, t: 4, round: 7 });
    assert_eq!(s.players().players()[&3].team, Team::CT);
    assert_eq!(s.players().players()[&3].name, "Ann");
    s.update(line(LogEvent::MatchStatus { team: LogTeam::Terrorist, team_name: Some("Reds".into()) }));
    s.update(line(LogEvent::MatchStatus { team: LogTeam::CT, team_name: None }));
    assert_eq!(s.team_name_t(), "Reds");
    assert_eq!(s.team_name_ct(), "TeamA");
}

#[test]
fn server_variables_update_round_limit_and_database() {
    let mut s = RconState::new();
    let cvar = |name: &str, value: &str| line(LogEvent::ServerCvar { name: name.into(), value: value.into() });
    s.update(cvar("mp_maxrounds", "24"));
    assert_eq!(s.max_rounds, 24);
    s.update(cvar("mp_maxrounds", "300"));
    assert_eq!(s.max_rounds, 0);
    s.update(cvar("mp_maxrounds", "+12"));
    assert_eq!(s.max_rounds, 12);
    s.cvar_db = Some(CvarDatabase::new("h\nh\nmp_limit : 1 : sv : d\nf\nf"));
    s.update(cvar("mp_limit", "5"));
    let got = s.cvar_db().as_ref().expect("db").get_suggestions("mp_limit", &[]);
    assert_eq!(got[0].value, "5");
}

#[test]
fn console_lines_and_history_are_appended() {
    let mut s = RconState::new();
    s.update(StateUpdate::Log(RconLogEvent::Info("hello".into())));
    s.update(StateUpdate::CommandHistory("status".into()));
    s.update(StateUpdate::CommandHistory("status".into()));
    s.push_log(RconLogEvent::RconResponse("ok".into()));
    assert_eq!(s.logs().len(), 2);
    assert_eq!(s.command_history(), &vec!["status".to_string(), "status".to_string()]);
}

#[test]
fn protocols() {
    assert_eq!(server_protocol_of(Game::Cs2), ServerProtocol::Source2);
    assert_eq!(server_protocol_of(Game::Cs16), ServerProtocol::GoldSrc);
    assert_eq!(server_protocol_of(Game::DoDS), ServerProtocol::Source);
    assert_eq!(rcon_protocol(ServerProtocol::Quake3), Some(RconProtocol::Quake3));
    assert_eq!(rcon_protocol(ServerProtocol::GameSpy), None);
    assert!(has_live_log(Game::Cs2) && has_live_log(Game::DoDS));
    assert!(!has_live_log(Game::GenericSource));
}

#[test]
fn live_log_commands_per_game() {
    let ip = 0xC0A8_0107u32;
    assert_eq!(ipv4_to_string(ip), "192.168.1.7");
    assert_eq!(live_log_url(ip, 8080), "http://192.168.1.7:8080");
    assert_eq!(register_command(Game::Cs2, ip, 8080), "logaddress_add_http \"http://192.168.1.7:8080\"");
    assert_eq!(register_command(Game::Cs16, ip, 8080), "logaddress_add 192.168.1.7 8080");
    assert_eq!(register_command(Game::Css, ip, 8080), "logaddress_add 192.168.1.7:8080");
    let steps = live_log_setup(Game::DoDS, ip, 9);
    let cmds: Vec<(&str, bool)> = steps.iter().map(|c| (c.command.as_str(), c.required)).collect();
    assert_eq!(
        cmds,
        vec![
            ("sv_logfile 1", true),
            ("log on", true),
            ("logaddress_add 192.168.1.7:9", true),
            ("logaddress_list_http", false),
        ]
    );
    assert_eq!(live_log_cleanup_command("http://x:1"), "logaddress_del_http \"http://x:1\"");
}

#[test]
fn matchzy_log_address() {
    assert_eq!(matchzy_log_url(Some(0x0A00_0001)), "http://10.0.0.1:7131/MatchZyLogs");
    assert_eq!(matchzy_log_url(None), "http://127.0.0.1:7131/MatchZyLogs");
    assert_eq!(LOOPBACK_V4, 0x7F00_0001);
    assert_eq!(matchzy_command("http://a"), "matchzy_remote_log_url \"http://a\"");
    assert_eq!(matchzy_command(""), "matchzy_remote_log_url \"\"");
}

#[test]
fn map_list_is_grouped_sorted_and_distinct() {
    let listing = "PENDING:   (fs) maps\n  de_nuke\nar_baggage\ncs_office\n de_anubis \nde_nuke\nde_dust2_vanity\nlobby_mapveto\ncs_italy\n";
    assert_eq!(
        parse_maps(listing),
        vec!["de_anubis", "de_nuke", "cs_italy", "cs_office", "ar_baggage"]
    );
    assert!(parse_maps("").is_empty());
}

#[test]
fn roster_from_round_summary_and_team_switches() {
    let mut p = RconPlayers::new();
    p.update_with_team_switch(&player("Ann", 3, LogTeam::Spectator));
    p.update_with_team_switch(&player("Bob", 4, LogTeam::Terrorist));
    p.update_with_team_switch(&player("Bob2", 4, LogTeam::CT));
    assert_eq!(p.players().len(), 2);
    assert_eq!(p.players()[&4].name, "Bob2");
    assert_eq!(p.players()[&4].team, Team::CT);
    let stats = RoundStats {
        score_ct: 1,
        score_t: 2,
        players: vec![
            RosterEntry { id: 3, team: 7 },
            RosterEntry { id: 9, team: 2 },
            RosterEntry { id: 10, team: 1 },
        ],
    };
    p.update_with_roundstats(&stats);
    let m = p.players();
    assert_eq!(m.len(), 2);
    assert!(!m.contains_key(&4));
    assert!(!m.contains_key(&10));
    assert_eq!(m[&3].team, Team::Spectator);
    assert_eq!(m[&3].name, "Ann");
    assert_eq!(m[&9].team, Team::Terrorist);
    assert_eq!(m[&9].name, "");
    assert_eq!(m[&9].id, 9);
    assert_eq!(m[&9].steamid, "ABDC");
    p.remove_player(9);
    assert_eq!(p.players().len(), 1);
    let mut slots = p.slots();
    slots.sort();
    assert_eq!(slots, vec![3]);
}

#[test]
fn later_summary_row_for_a_slot_counts() {
    let mut p = RconPlayers::new();
    p.update_with_roundstats(&RoundStats {
        score_ct: 0,
        score_t: 0,
        players: vec![RosterEntry { id: 5, team: 2 }, RosterEntry { id: 5, team: 9 }],
    });
    assert!(p.players().is_empty());
}

#[test]
fn players_by_team() {
    let mut p = RconPlayers::new();
    p.update_with_team_switch(&player("Ann", 3, LogTeam::CT));
    p.update_with_team_switch(&player("Bob", 4, LogTeam::Terrorist));
    p.update_with_team_switch(&player("Cid", 5, LogTeam::CT));
    let mut ct: Vec<String> = p.players_on_team(Team::CT).into_iter().map(|x| x.name).collect();
    ct.sort();
    assert_eq!(ct, vec!["Ann", "Cid"]);
    assert_eq!(p.players_on_team(Team::Unknown).len(), 0);
}

#[test]
fn score_updates() {
    let mut s = TeamScore::default();
    assert_eq!(s, TeamScore { ct: 0, t: 0, round: 1 });
    s.update_with_score_update(12);
    s.update_with_roundstats(&RoundStats { score_ct: 255, score_t: 256, players: vec![] });
    assert_eq!(s, TeamScore { ct: 255, t: 255, round: 12 });
}

#[test]
fn maps_reply_replaces_maps_or_notes_failure() {
    let mut s = RconState::new();
    s.take_maps_reply(Ok("PENDING: (fs) mapname=de_dust2.vpk\nde_nuke\ncs_office\nde_dust2\n".into()));
    let before = s.maps().clone();
    assert_eq!(before, vec!["de_dust2", "de_nuke", "cs_office"]);
    let n = s.logs().len();
    s.take_maps_reply(Err("timed out".into()));
    assert_eq!(s.maps(), &before);
    assert_eq!(s.logs().len(), n + 1);
    match s.logs().last() {
        Some(RconLogEvent::Info(t)) => assert_eq!(t, "[RCON] Failed to get maps: timed out"),
        _ => panic!("expected a note"),
    }
}
