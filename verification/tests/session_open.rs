use lan_game_scan::connect::{closed_cleanly, ConnectAction, ConnectEvent, Connector, Stage};
use lan_game_scan::session::{Game, RconLogEvent, RconState, RconStatus};

fn sent(a: ConnectAction) -> String {
    match a {
        ConnectAction::Send(c) => c,
        other => panic!("expected a command, got {}", describe(&other)),
    }
}

fn describe(a: &ConnectAction) -> &'static str {
    match a {
        ConnectAction::Authenticate => "authenticate",
        ConnectAction::FindReceiverIp => "find receiver ip",
        ConnectAction::BindListener => "bind listener",
        ConnectAction::Send(_) => "send",
        ConnectAction::TakeReceiver => "take receiver",
        ConnectAction::Finish { .. } => "finish",
        ConnectAction::Nothing => "nothing",
    }
}

fn texts(s: &RconState) -> Vec<String> {
    s.logs
        .iter()
        .map(|e| match e {
            RconLogEvent::Info(t) => format!("i:{t}"),
            RconLogEvent::RconResponse(t) => format!("r:{t}"),
            RconLogEvent::LiveLog(p) => format!("l:{}", p.raw),
        })
        .collect()
}

#[test]
fn cs2_session_opens_step_by_step() {
    let mut s = RconState::new();
    let (mut c, a) = Connector::start(Game::Cs2, "10.0.0.9:27015", &mut s);
    assert!(matches!(a, ConnectAction::Authenticate));
    assert!(matches!(c.step(&mut s, ConnectEvent::Authenticated(Ok(()))), ConnectAction::FindReceiverIp));
    assert!(matches!(c.step(&mut s, ConnectEvent::ReceiverIp(Some(0x0A00_0002))), ConnectAction::BindListener));
    assert_eq!(sent(c.step(&mut s, ConnectEvent::Listener(Ok(4000)))), "sv_logfile 1");
    assert_eq!(sent(c.step(&mut s, ConnectEvent::Reply(Ok("ok".into())))), "log on");
    assert_eq!(sent(c.step(&mut s, ConnectEvent::Reply(Ok("on".into())))), "logaddress_add_http \"http://10.0.0.2:4000\"");
    assert_eq!(sent(c.step(&mut s, ConnectEvent::Reply(Ok("".into())))), "logaddress_list_http");
    assert_eq!(sent(c.step(&mut s, ConnectEvent::Reply(Err("timeout".into())))), "cvarlist");
    assert_eq!(c.live_log_url.as_deref(), Some("http://10.0.0.2:4000"));
    assert!(matches!(c.step(&mut s, ConnectEvent::Reply(Err("down".into()))), ConnectAction::TakeReceiver));
    assert!(s.cvar_db.is_some());
    assert!(matches!(c.step(&mut s, ConnectEvent::ReceiverTaken(true)), ConnectAction::FindReceiverIp));
    assert_eq!(s.status, RconStatus::Authenticated);
    match c.step(&mut s, ConnectEvent::ReceiverIp(None)) {
        ConnectAction::Finish { ok: true, stop_listener: false, matchzy_command: Some(m) } => {
            assert_eq!(m, "matchzy_remote_log_url \"http://127.0.0.1:7131/MatchZyLogs\"");
        }
        other => panic!("expected finish, got {}", describe(&other)),
    }
    assert_eq!(c.stage, Stage::Done);
    assert_eq!(
        texts(&s),
        vec![
            "i:[RCON] Connecting to 10.0.0.9:27015...",
            "i:[RCON] Authenticated.",
            "i:[LIVE_LOG] Listening on port 4000.",
            "i:[LIVE_LOG] Receiver URL: http://10.0.0.2:4000",
            "r:[LIVE_LOG] Enabled server logging: ok",
            "r:[LIVE_LOG] Enabled log output: on",
            "r:[LIVE_LOG] Registered 10.0.0.2:4000: ",
            "i:[LIVE_LOG] Failed to list HTTP log addresses: timeout",
            "i:[RCON] Failed to get cvarlist: down",
            "i:[RCON] Session created.",
        ]
    );
}

#[test]
fn failed_setup_stops_the_listener() {
    let mut s = RconState::new();
    let (mut c, _) = Connector::start(Game::Css, "10.0.0.9:27015", &mut s);
    c.step(&mut s, ConnectEvent::Authenticated(Ok(())));
    c.step(&mut s, ConnectEvent::ReceiverIp(Some(0x0A00_0002)));
    c.step(&mut s, ConnectEvent::Listener(Ok(4000)));
    c.step(&mut s, ConnectEvent::Reply(Ok("".into())));
    assert!(matches!(
        c.step(&mut s, ConnectEvent::Reply(Err("refused".into()))),
        ConnectAction::Finish { ok: false, stop_listener: true, matchzy_command: None }
    ));
    let t = texts(&s);
    assert_eq!(t[t.len() - 2], "i:[LIVE_LOG] Failed to enable log output: refused");
    assert_eq!(t[t.len() - 1], "i:[RCON] Failed to configure live log.");
    assert_eq!(s.status, RconStatus::Disconnected);
    assert!(matches!(c.step(&mut s, ConnectEvent::ReceiverTaken(true)), ConnectAction::Nothing));
}

#[test]
fn games_without_live_log_open_at_once_and_failures_end_early() {
    let mut s = RconState::new();
    let (mut c, _) = Connector::start(Game::GenericSource, "h", &mut s);
    assert!(matches!(
        c.step(&mut s, ConnectEvent::Authenticated(Ok(()))),
        ConnectAction::Finish { ok: true, stop_listener: false, matchzy_command: None }
    ));
    assert_eq!(texts(&s)[2], "i:[LIVE_LOG] Skipped live log setup for unsupported game.");
    assert_eq!(s.status, RconStatus::Authenticated);
    let mut s = RconState::new();
    let (mut c, _) = Connector::start(Game::Cs16, "h", &mut s);
    assert!(matches!(
        c.step(&mut s, ConnectEvent::Authenticated(Err("bad password".into()))),
        ConnectAction::Finish { ok: false, .. }
    ));
    assert_eq!(texts(&s)[1], "i:[RCON] Connection failed: bad password");
    let mut s = RconState::new();
    let (mut c, _) = Connector::start(Game::Cs16, "1.2.3.4:27015", &mut s);
    c.step(&mut s, ConnectEvent::Authenticated(Ok(())));
    c.step(&mut s, ConnectEvent::ReceiverIp(None));
    assert_eq!(texts(&s)[2], "i:[LIVE_LOG] Could not determine a local IP for server 1.2.3.4:27015.");
}

#[test]
fn closing_undoes_what_opening_set_up() {
    let mut s = RconState::new();
    let (mut c, _) = Connector::start(Game::Cs2, "h", &mut s);
    assert!(c.closing_commands().is_empty());
    c.live_log_url = Some("http://10.0.0.2:4000".into());
    c.matchzy_log_url = Some("http://10.0.0.2:7131/MatchZyLogs".into());
    assert_eq!(
        c.closing_commands(),
        vec!["logaddress_del_http \"http://10.0.0.2:4000\"", "matchzy_remote_log_url \"\""]
    );
    assert!(c.live_log_url.is_none() && c.matchzy_log_url.is_none());
    assert!(c.closing_commands().is_empty());
    assert!(closed_cleanly(&vec![Ok("".into()), Ok("x".into())]));
    assert!(!closed_cleanly(&vec![Ok("".into()), Err("gone".into())]));
    assert!(closed_cleanly(&vec![]));
}
