use lan_game_scan::events::{LogEvent, LogPlayer, LogTeam, LogType, ParsedLine, RoundStats};
use lan_game_scan::log_filter::{all_log_types, chat_lines, console_line, ConsoleLine, EventFilter, FilterPreset};
use lan_game_scan::pretty::{pretty_log, roster_team_class, PrettyLine, PrettyView};
use lan_game_scan::session::RconLogEvent;

fn player(name: &str, team: LogTeam) -> LogPlayer {
    LogPlayer { name: name.into(), id: 1, steamid: "[U:1:1]".into(), team }
}

fn runs(v: &PrettyView) -> (String, Vec<(String, String)>) {
    match v {
        PrettyView::Line(PrettyLine { class, runs }) => {
            (class.clone(), runs.iter().map(|r| (r.class.clone(), r.text.clone())).collect())
        }
        PrettyView::RoundTable => panic!("expected a line"),
    }
}

fn text(v: &PrettyView) -> String {
    runs(v).1.into_iter().map(|(_, t)| t).collect()
}

#[test]
fn damage_line() {
    let v = pretty_log(&LogEvent::Attacked {
        attacker: player("Ann", LogTeam::CT),
        victim: player("Bob", LogTeam::Terrorist),
        damage: 27,
        weapon: "ak47".into(),
        hitgroup: "head".into(),
    });
    let (class, r) = runs(&v);
    assert_eq!(class, "text-zinc-300");
    assert_eq!(r[0], ("text-blue-400".to_string(), "Ann".to_string()));
    assert_eq!(r[2], ("text-red-400".to_string(), "Bob".to_string()));
    assert_eq!(r[4], ("text-red-400 font-semibold".to_string(), "27".to_string()));
    assert_eq!(text(&v), "Ann hit Bob for 27 (ak47) in head");
}

#[test]
fn kill_markers_follow_the_flags() {
    let v = pretty_log(&LogEvent::Kill {
        attacker: player("Ann", LogTeam::CT),
        victim: player("Bob", LogTeam::Terrorist),
        weapon: "awp".into(),
        headshot: true,
        penetrated: false,
        through_smoke: true,
        attacker_in_air: false,
    });
    assert_eq!(text(&v), "Ann killed Bob with awp🎯💨");
    assert_eq!(runs(&v).1.len(), 7);
}

#[test]
fn chat_round_win_and_scores() {
    let team = pretty_log(&LogEvent::Chat { player: player("Ann", LogTeam::CT), msg: "gg".into(), is_team_chat: true });
    assert_eq!(runs(&team).1[0], ("text-yellow-400 font-semibold".to_string(), "[TEAM]".to_string()));
    assert_eq!(runs(&team).0, "");
    let all = pretty_log(&LogEvent::Chat { player: player("Ann", LogTeam::CT), msg: "gg".into(), is_team_chat: false });
    assert_eq!(text(&all), "[ALL] Ann: gg");
    let win = pretty_log(&LogEvent::RoundWin {
        winner_side: LogTeam::Terrorist,
        reason: "Target_Bombed".into(),
        ct_score: 3,
        t_score: 5,
    });
    assert_eq!(text(&win), "TERRORIST WON — Target Bombed | CT 3 : T 5");
    let score = pretty_log(&LogEvent::ScoreUpdate { t1: 4, t2: 9, map: "de_nuke".into(), rounds: 13 });
    assert_eq!(text(&score), "[SCORE] T 4 - 9 CT on de_nuke");
    let over = pretty_log(&LogEvent::GameOver {
        mode: "competitive".into(),
        map: "de_inferno".into(),
        t_score: 13,
        ct_score: 11,
        minutes: 42,
    });
    assert_eq!(text(&over), "[GAME OVER] competitive de_inferno 13:11 after 42 min");
}

#[test]
fn decimals_lists_and_optional_parts() {
    let blind = pretty_log(&LogEvent::Blinded {
        attacker: player("Ann", LogTeam::CT),
        victim: player("Bob", LogTeam::Terrorist),
        duration_hundredths: 305,
    });
    assert_eq!(text(&blind), "Ann blinded Bob for 3.05s");
    let buy = pretty_log(&LogEvent::LeftBuyZone {
        player: player("Ann", LogTeam::CT),
        items: vec!["knife".into(), "m4a1".into(), "vest".into()],
    });
    assert_eq!(text(&buy), "Ann left buyzone with [knife, m4a1, vest]");
    let none = pretty_log(&LogEvent::LeftBuyZone { player: player("Ann", LogTeam::CT), items: vec![] });
    assert_eq!(text(&none), "Ann left buyzone with []");
    let conn = pretty_log(&LogEvent::Connection {
        player: player("Ann", LogTeam::CT),
        action: "disconnected".into(),
        info: Some("reason Kicked".into()),
    });
    assert_eq!(text(&conn), "Ann disconnected (reason Kicked)");
    let status = pretty_log(&LogEvent::MatchStatus { team: LogTeam::CT, team_name: None });
    assert_eq!(text(&status), "CT unset");
    let acc = pretty_log(&LogEvent::RoundAccolade {
        category: "mvp".into(),
        player: player("Ann", LogTeam::CT),
        value_hundredths: 1250,
        position: 1,
    });
    assert_eq!(text(&acc), "[ACCOLADE] Ann: mvp (12.50) [#1]");
    let dump = pretty_log(&LogEvent::ServerCvarDump { cvars: vec![("a".into(), "1".into()), ("b".into(), "2".into())] });
    assert_eq!(text(&dump), "[CVARS] received 2 server variables");
    assert_eq!(text(&pretty_log(&LogEvent::LogFile { started: false })), "[LOG] file closed");
    assert_eq!(text(&pretty_log(&LogEvent::Rcon { addr: "1.2.3.4:5".into(), command: "status".into() })), "[RCON] 1.2.3.4:5: status");
    let switch = pretty_log(&LogEvent::TeamSwitch { player: player("Ann", LogTeam::CT), from: LogTeam::Terrorist });
    assert_eq!(text(&switch), "Ann switched from TERRORIST to CT");
    assert_eq!(runs(&switch).1[2].0, "text-red-400");
}

#[test]
fn round_summaries_are_tables() {
    let v = pretty_log(&LogEvent::RoundStats { roundstats: RoundStats { score_ct: 1, score_t: 2, players: vec![] } });
    assert!(matches!(v, PrettyView::RoundTable));
    assert_eq!(roster_team_class(2), "text-red-400");
    assert_eq!(roster_team_class(3), "text-blue-400");
    assert_eq!(roster_team_class(0), "text-zinc-400");
}

#[test]
fn filter_presets_and_toggles() {
    let mut f = EventFilter::all();
    assert_eq!(f.preset(), FilterPreset::All);
    assert_eq!(f.count_text(), "34/34");
    f.toggle(LogType::Kill);
    assert!(!f.contains(LogType::Kill));
    assert_eq!(f.preset(), FilterPreset::Custom);
    f.toggle(LogType::Kill);
    assert_eq!(f.preset(), FilterPreset::All);
    let mut e = EventFilter::essential();
    assert_eq!(e.preset(), FilterPreset::Essential);
    assert_eq!(e.count_text(), "4/34");
    e.toggle(LogType::Kill);
    assert_eq!(e.preset(), FilterPreset::Custom);
    let n = EventFilter::empty();
    assert_eq!(n.preset(), FilterPreset::Empty);
    assert_eq!(n.count_text(), "0/34");
    assert_eq!(all_log_types().len(), 34);
}

fn live(log_type: LogType, event: LogEvent) -> RconLogEvent {
    RconLogEvent::LiveLog(ParsedLine { raw: "L raw line".into(), log_type, event })
}

#[test]
fn console_and_chat_lines() {
    let f = EventFilter::essential();
    match console_line(&RconLogEvent::Info("note".into()), &f) {
        Some(ConsoleLine::Text { class, text }) => {
            assert_eq!(class, "text-zinc-500");
            assert_eq!(text, "note");
        }
        _ => panic!("expected text"),
    }
    match console_line(&RconLogEvent::RconResponse("ok".into()), &f) {
        Some(ConsoleLine::Text { class, .. }) => assert_eq!(class, "text-zinc-300"),
        _ => panic!("expected text"),
    }
    assert!(console_line(&live(LogType::Kill, LogEvent::Unknown), &f).is_none());
    let all = EventFilter::all();
    match console_line(&live(LogType::Unknown, LogEvent::Unknown), &all) {
        Some(ConsoleLine::Text { text, .. }) => assert_eq!(text, "L raw line"),
        _ => panic!("expected raw text"),
    }
    let chat = LogEvent::Chat { player: player("Ann", LogTeam::CT), msg: "hi".into(), is_team_chat: false };
    match console_line(&live(LogType::Chat, chat.clone()), &f) {
        Some(ConsoleLine::Event(v)) => assert_eq!(text(&v), "[ALL] Ann: hi"),
        _ => panic!("expected an event"),
    }
    let logs = vec![
        RconLogEvent::Info("x".into()),
        live(LogType::Chat, chat),
        live(LogType::Unknown, LogEvent::Unknown),
    ];
    let lines = chat_lines(&logs);
    assert_eq!(lines.len(), 1);
    assert_eq!(text(&lines[0]), "[ALL] Ann: hi");
}
