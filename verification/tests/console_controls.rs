use lan_game_scan::commands::{
    ban_command, bot_command, reason_text, round_winner_text, bot_difficulty_command, changelevel_command, exec_command,
    fetches_maps_on_toggle, kick_command, kill_command, maps_in_group, pause_toggle_command,
    preset_command, restart_command, say_command, shown_name, team_label, team_text_class,
    team_title, typed_changelevel, BotAction, BotSide, ConfigPreset,
};
use lan_game_scan::console::{
    add_to_command_history, command_result_update, default_cvar_filters, CommandInput, InputKey,
    MAX_COMMAND_HISTORY,
};
use lan_game_scan::cvar::{CvarDatabase, CvarFlag};
use lan_game_scan::players::{Player, Team};
use lan_game_scan::session::{RconLogEvent, StateUpdate};

fn db() -> Option<CvarDatabase> {
    Some(CvarDatabase::new("h\nh\nmp_pause : 0 : sv : p\nmp_pa : 1 : sv : e\nf\nf"))
}

#[test]
fn history_skips_repeats_and_keeps_the_newest_hundred() {
    let mut h: Vec<String> = Vec::new();
    add_to_command_history(&mut h, "status");
    add_to_command_history(&mut h, "status");
    add_to_command_history(&mut h, "maps *");
    add_to_command_history(&mut h, "status");
    assert_eq!(h, vec!["status", "maps *", "status"]);
    for i in 0..150 {
        add_to_command_history(&mut h, &format!("c{i}"));
    }
    assert_eq!(h.len(), MAX_COMMAND_HISTORY);
    assert_eq!(h[0], "c50");
    assert_eq!(h[99], "c149");
}

#[test]
fn typing_offers_completions_only_for_a_single_word() {
    let mut c = CommandInput::new();
    let d = db();
    c.on_input("MP_PA".into(), &d, &[]);
    let names: Vec<&str> = c.suggestions.iter().map(|x| x.name.as_str()).collect();
    assert_eq!(names, vec!["mp_pause", "mp_pa"]);
    assert_eq!(c.suggestion_index, None);
    c.on_input("mp_pa 1".into(), &d, &[]);
    assert!(c.suggestions.is_empty());
    c.on_input(String::new(), &d, &[]);
    assert!(c.suggestions.is_empty());
    c.on_input("mp".into(), &None, &[]);
    assert!(c.suggestions.is_empty());
    assert_eq!(c.input, "mp");
}

#[test]
fn arrows_cycle_through_completions_and_enter_takes_one() {
    let mut c = CommandInput::new();
    let mut h: Vec<String> = vec!["old".into()];
    c.on_input("mp_pa".into(), &db(), &[]);
    assert_eq!(c.on_key(InputKey::ArrowUp, &mut h), None);
    assert_eq!(c.suggestion_index, Some(1));
    c.on_key(InputKey::ArrowDown, &mut h);
    assert_eq!(c.suggestion_index, Some(0));
    c.on_key(InputKey::ArrowUp, &mut h);
    assert_eq!(c.suggestion_index, Some(1));
    c.on_key(InputKey::ArrowDown, &mut h);
    c.on_key(InputKey::ArrowDown, &mut h);
    assert_eq!(c.suggestion_index, Some(1));
    assert_eq!(c.on_key(InputKey::Enter, &mut h), None);
    assert_eq!(c.input, "mp_pa");
    assert!(c.suggestions.is_empty());
    assert_eq!(h, vec!["old"]);
}

#[test]
fn escape_closes_completions_but_keeps_the_text() {
    let mut c = CommandInput::new();
    let mut h: Vec<String> = Vec::new();
    c.on_input("mp_pa".into(), &db(), &[]);
    c.on_key(InputKey::ArrowDown, &mut h);
    c.on_key(InputKey::Escape, &mut h);
    assert!(c.suggestions.is_empty());
    assert_eq!(c.suggestion_index, None);
    assert_eq!(c.input, "mp_pa");
}

#[test]
fn arrows_browse_the_history() {
    let mut c = CommandInput::new();
    let mut h: Vec<String> = vec!["a".into(), "b".into(), "c".into()];
    c.on_key(InputKey::ArrowUp, &mut h);
    assert_eq!((c.input.as_str(), c.history_index), ("c", Some(2)));
    c.on_key(InputKey::ArrowUp, &mut h);
    c.on_key(InputKey::ArrowUp, &mut h);
    c.on_key(InputKey::ArrowUp, &mut h);
    assert_eq!((c.input.as_str(), c.history_index), ("a", Some(0)));
    c.on_key(InputKey::ArrowDown, &mut h);
    assert_eq!((c.input.as_str(), c.history_index), ("b", Some(1)));
    c.on_key(InputKey::ArrowDown, &mut h);
    c.on_key(InputKey::ArrowDown, &mut h);
    assert_eq!((c.input.as_str(), c.history_index), ("", None));
    c.on_key(InputKey::ArrowDown, &mut h);
    assert_eq!((c.input.as_str(), c.history_index), ("", None));
}

#[test]
fn enter_runs_the_trimmed_command() {
    let mut c = CommandInput::new();
    let mut h: Vec<String> = Vec::new();
    c.on_input("   ".into(), &None, &[]);
    assert_eq!(c.on_key(InputKey::Enter, &mut h), None);
    assert_eq!(c.input, "   ");
    c.on_input("  status  ".into(), &None, &[]);
    assert_eq!(c.on_key(InputKey::Enter, &mut h).as_deref(), Some("status"));
    assert_eq!(c.input, "");
    assert_eq!(h, vec!["status"]);
    c.on_input("status".into(), &None, &[]);
    assert_eq!(c.submit(&mut h).as_deref(), Some("status"));
    assert_eq!(h, vec!["status"]);
    assert_eq!(c.on_key(InputKey::Other, &mut h), None);
}

#[test]
fn clicked_completion_becomes_the_text() {
    let mut c = CommandInput::new();
    c.on_input("mp_pa".into(), &db(), &[]);
    c.accept_suggestion(0);
    assert_eq!(c.input, "mp_pause");
    assert!(c.suggestions.is_empty());
    c.accept_suggestion(5);
    assert_eq!(c.input, "mp_pause");
}

#[test]
fn command_outcomes_and_default_filters() {
    assert_eq!(
        command_result_update(Ok("done".into())),
        StateUpdate::Log(RconLogEvent::RconResponse("done".into()))
    );
    assert_eq!(
        command_result_update(Err("timeout".into())),
        StateUpdate::Log(RconLogEvent::Info("[RCON] Command failed: timeout".into()))
    );
    assert_eq!(
        default_cvar_filters(),
        vec![CvarFlag::MenuBarItem, CvarFlag::VConsoleFuzzy, CvarFlag::VConsoleSetFocus, CvarFlag::DevelopmentOnly]
    );
}

#[test]
fn server_control_commands() {
    assert_eq!(changelevel_command("de_nuke"), "changelevel de_nuke");
    assert_eq!(typed_changelevel("  de_inferno "), Some("changelevel de_inferno".to_string()));
    assert_eq!(typed_changelevel("   "), None);
    assert_eq!(say_command(" gl hf "), Some("say gl hf".to_string()));
    assert_eq!(say_command(""), None);
    assert_eq!(exec_command("my.cfg"), Some("exec my.cfg".to_string()));
    assert_eq!(kick_command(12), "kickid 12");
    assert_eq!(kill_command(0), "kill 0");
    assert_eq!(ban_command(1440, "STEAM_1:0:1"), "banid 1440 STEAM_1:0:1");
    assert_eq!(restart_command(), "mp_restartgame 1");
    assert_eq!(pause_toggle_command(true), "mp_unpause_match");
    assert_eq!(pause_toggle_command(false), "mp_pause_match");
    assert_eq!(preset_command(ConfigPreset::Competitive), "exec gamemode_competitive.cfg");
    assert_eq!(preset_command(ConfigPreset::Tournament), "exec turnier.cfg");
    assert_eq!(bot_command(BotAction::Add, BotSide::Any), "bot_add");
    assert_eq!(bot_command(BotAction::Kick, BotSide::T), "bot_kick T");
    assert_eq!(bot_command(BotAction::Kill, BotSide::CT), "bot_kill CT");
    assert_eq!(bot_difficulty_command(3), "bot_difficulty 3");
}

#[test]
fn map_groups_and_selector() {
    let maps: Vec<String> = vec!["de_a".into(), "cs_b".into(), "de_c".into(), "ar_d".into()];
    assert_eq!(maps_in_group(&maps, "de_"), vec!["de_a", "de_c"]);
    assert_eq!(maps_in_group(&maps, "ar_"), vec!["ar_d"]);
    assert!(fetches_maps_on_toggle(false, 0));
    assert!(!fetches_maps_on_toggle(true, 0));
    assert!(!fetches_maps_on_toggle(false, 3));
}

#[test]
fn team_labels_and_names() {
    assert_eq!(team_title(Team::CT), "COUNTER-TERRORISTS");
    assert_eq!(team_title(Team::Spectator), "UNKNOWN");
    assert_eq!(team_label(Team::Terrorist), "TERRORIST");
    assert_eq!(team_text_class(Team::Unassigned), "text-zinc-500");
    let p = Player { name: String::new(), team: Team::CT, id: 1, steamid: "x".into() };
    assert_eq!(shown_name(&p), "UNKNOWN");
    let q = Player { name: "Ann".into(), ..p };
    assert_eq!(shown_name(&q), "Ann");
}

#[test]
fn round_win_announcements() {
    assert_eq!(round_winner_text(Team::CT), "CT WON");
    assert_eq!(round_winner_text(Team::Terrorist), "TERRORIST WON");
    assert_eq!(round_winner_text(Team::Spectator), "UNKNOWN WON");
    assert_eq!(reason_text("SFUI_Notice_Target_Bombed"), "SFUI Notice Target Bombed");
    assert_eq!(reason_text("plain"), "plain");
}
