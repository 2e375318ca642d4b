use lan_game_scan::assoc::EndpointMap;
use lan_game_scan::broadcast::{direct_query, plain_broadcast_round, pinging_broadcast_round, round_trip};
use lan_game_scan::cvar::{flag_label, toggle_filter, CvarFlag};
use lan_game_scan::dashboard::{
    bot_label, latency_text, named_players, password_changed, password_placeholder,
    ping_text, player_count_text, selection_after_close, shown_team_names, sort_by_label,
    status_badge, steam_connect_url, tab_label, text_or, ChatBadge, RconManager,
};
use lan_game_scan::events::{LogEvent, LogPlayer, LogTeam, LogType, ParsedLine};
use lan_game_scan::network::{Endpoint, IpAddress};
use lan_game_scan::players::RconPlayers;
use lan_game_scan::session::{RconState, RconStatus, StateUpdate};

fn ep(last: u8) -> Endpoint {
    Endpoint { ip: IpAddress::V4(10, 0, 0, last), port: 27015 }
}

fn calling_admin() -> RconState {
    let mut s = RconState::new();
    s.update(StateUpdate::LogEvent(ParsedLine {
        raw: String::new(),
        log_type: LogType::Chat,
        event: LogEvent::Chat {
            player: LogPlayer { name: "Bob".into(), id: 1, steamid: "x".into(), team: LogTeam::CT },
            msg: "!admin".into(),
            is_team_chat: false,
        },
    }));
    s
}

#[test]
fn sessions_by_address() {
    let mut m = RconManager::new();
    m.insert(ep(1), RconState::new());
    m.insert(ep(2), calling_admin());
    m.insert(ep(3), calling_admin());
    assert_eq!(m.len(), 3);
    assert_eq!(m.attention_count(), 2);
    m.insert(ep(2), RconState::new());
    assert_eq!(m.len(), 3);
    assert_eq!(m.attention_count(), 1);
    assert!(m.state(ep(3)).expect("open").need_attention());
    let removed = m.remove(ep(3)).expect("open");
    assert!(removed.need_attention());
    assert!(m.remove(ep(3)).is_none());
    let mut addrs = m.addresses();
    addrs.sort_by_key(|e| e.port as u32 + match e.ip { IpAddress::V4(_, _, _, d) => d as u32, IpAddress::V6(_) => 0 });
    assert_eq!(addrs, vec![ep(1), ep(2)]);
    let all = m.take_all();
    assert_eq!(all.len(), 2);
    assert_eq!(m.len(), 0);
    assert_eq!(m.attention_count(), 0);
}

#[test]
fn closing_the_selected_session_clears_the_selection() {
    assert_eq!(selection_after_close(Some(ep(1)), ep(1)), None);
    assert_eq!(selection_after_close(Some(ep(2)), ep(1)), Some(ep(2)));
    assert_eq!(selection_after_close(None, ep(1)), None);
}

#[test]
fn tabs_are_ordered_by_address_text() {
    let items = vec![
        ("10.0.0.2:27015".to_string(), ep(2)),
        ("10.0.0.10:27015".to_string(), ep(10)),
        ("10.0.0.1:27015".to_string(), ep(1)),
    ];
    let sorted = sort_by_label(items);
    let labels: Vec<&str> = sorted.iter().map(|(l, _)| l.as_str()).collect();
    assert_eq!(labels, vec!["10.0.0.10:27015", "10.0.0.1:27015", "10.0.0.2:27015"]);
    let same = sort_by_label(vec![("a".to_string(), ep(1)), ("a".to_string(), ep(2))]);
    assert_eq!(same.len(), 2);
    assert_eq!(same[0].1, ep(1));
    assert_eq!(tab_label(&Some("Host".into()), "1.2.3.4:5"), "Host");
    assert_eq!(tab_label(&None, "1.2.3.4:5"), "1.2.3.4:5");
}

#[test]
fn status_badges() {
    assert_eq!(status_badge(RconStatus::Authenticated, true), ("● PAUSED".to_string(), "text-orange-400".to_string()));
    assert_eq!(status_badge(RconStatus::Authenticated, false).0, "● RUNNING");
    assert_eq!(status_badge(RconStatus::Connecting, true).0, "● CONNECTING");
    assert_eq!(status_badge(RconStatus::Disconnected, false).0, "● OFFLINE");
    assert_eq!(status_badge(RconStatus::Error, false).1, "text-red-500");
}

#[test]
fn card_team_names_and_players() {
    assert_eq!(
        shown_team_names(&String::new(), &"Reds".to_string()),
        ("COUNTER-TERRORISTS".to_string(), "Reds".to_string())
    );
    assert_eq!(shown_team_names(&"Blue".into(), &String::new()).1, "TERRORISTS");
    let mut p = RconPlayers::new();
    p.update_with_team_switch(&LogPlayer { name: "Ann".into(), id: 1, steamid: "a".into(), team: LogTeam::CT });
    p.update_with_team_switch(&LogPlayer { name: String::new(), id: 2, steamid: "b".into(), team: LogTeam::CT });
    assert_eq!(named_players(&p), vec!["Ann".to_string()]);
}

#[test]
fn server_row_and_detail_texts() {
    assert_eq!(ping_text(Some(23)), "23ms");
    assert_eq!(ping_text(None), "OFFLINE");
    assert_eq!(bot_label(Some(1)).as_deref(), Some("Bot"));
    assert_eq!(bot_label(Some(4)).as_deref(), Some("Bots"));
    assert_eq!(bot_label(Some(0)), None);
    assert_eq!(bot_label(None), None);
    assert_eq!(latency_text(Some(7)), "7ms Latency");
    assert_eq!(latency_text(None), "Unreachable");
    assert_eq!(player_count_text(Some(3), None), "3/0");
    assert!(password_changed("a", &None));
    assert!(!password_changed("", &None));
    assert!(!password_changed("pw", &Some("pw".into())));
    assert_eq!(password_placeholder(true), "Enter server password");
    assert_eq!(password_placeholder(false), "No password");
    assert_eq!(steam_connect_url("1.2.3.4:27015", "pw"), "steam://connect/1.2.3.4:27015/pw");
    assert_eq!(text_or(&None, "UNKNOWN"), "UNKNOWN");
    assert_eq!(text_or(&Some("de_nuke".into()), "UNKNOWN"), "de_nuke");
}

#[test]
fn filter_flags_toggle() {
    let mut f = vec![CvarFlag::Cheat];
    toggle_filter(&mut f, CvarFlag::Hidden);
    assert_eq!(f, vec![CvarFlag::Cheat, CvarFlag::Hidden]);
    toggle_filter(&mut f, CvarFlag::Cheat);
    assert_eq!(f, vec![CvarFlag::Hidden]);
    assert_eq!(flag_label(CvarFlag::ServerCantQuery), "Server Can't Query");
    assert_eq!(flag_label(CvarFlag::PerUser), "Per User");
}

#[test]
fn broadcast_rounds() {
    let bcast = |port: u16| Endpoint { ip: IpAddress::V4(255, 255, 255, 255), port };
    let first = plain_broadcast_round();
    assert_eq!(first.len(), 20);
    assert_eq!(first[0].addr, bcast(27015));
    assert_eq!(first[4].addr, bcast(27019));
    assert_eq!(first[5].payload, b"\xFF\xFF\xFF\xFFgetstatus\n".to_vec());
    assert_eq!(first[19].payload, b"\\info\\".to_vec());
    assert_eq!(first[19].addr, bcast(23000));

    let mut pings: EndpointMap<u64> = EndpointMap::new();
    let round = pinging_broadcast_round(&mut pings, 77);
    assert_eq!(round.len(), 22);
    assert_eq!(round[21].payload, b"\\status\\".to_vec());
    assert_eq!(round[21].addr, bcast(12300));
    assert_eq!(pings.get(bcast(27960)), Some(77));
    assert_eq!(pings.get(bcast(12300)), Some(77));
    assert_eq!(pings.len(), 22);

    let direct = direct_query(&mut pings, ep(5), 90);
    assert_eq!(direct.len(), 3);
    assert!(direct.iter().all(|p| p.addr == ep(5)));
    assert_eq!(pings.get(ep(5)), Some(90));
}

#[test]
fn round_trip_from_own_query_or_port_broadcast() {
    let mut pings: EndpointMap<u64> = EndpointMap::new();
    pinging_broadcast_round(&mut pings, 100);
    // An answer on a broadcast port is timed from the round; the record stays.
    assert_eq!(round_trip(&mut pings, ep(3), 140), Some(40));
    assert_eq!(round_trip(&mut pings, ep(3), 150), Some(50));
    // A direct query is timed once.
    direct_query(&mut pings, ep(4), 200);
    assert_eq!(round_trip(&mut pings, ep(4), 205), Some(5));
    assert_eq!(round_trip(&mut pings, ep(4), 206), Some(106));
    let other = Endpoint { ip: IpAddress::V4(10, 0, 0, 9), port: 1 };
    assert_eq!(round_trip(&mut pings, other, 300), None);
}

#[test]
fn chat_badge_marks_unread_only_while_closed() {
    let mut b = ChatBadge::new(3);
    assert!(!b.refresh(3));
    assert!(b.refresh(5));
    assert_eq!(b.seen, 3);
    b.open(5);
    assert!(!b.refresh(8));
    assert_eq!(b.seen, 8);
    b.close(8);
    assert!(!b.refresh(8));
    assert!(b.refresh(9));
    assert!(!b.shown);
}
