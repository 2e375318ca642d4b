use lan_game_scan::app_log::{
    AppLogEntry, AppLogLayer, AppLogLevel, AppLogStore, MessageVisitor, Timestamp, MAX_LOG_ENTRIES,
};
use lan_game_scan::cvar::{listing_is_well_formed, Cvar, CvarDatabase, CvarFlag};
use lan_game_scan::log_view::{
    is_crate_selected, level_class, level_name, location, module_label, revalidate_target,
    selectable_targets, toggle_crate, tooltip, LogFilter,
};

const LISTING: &str = "cvarlist\n\
--------------\n\
mp_pa : 1 : sv : exact\n\
mp_pause_match : 0 : sv, rep : pause\n\
xmp_pa : 2 : \"sv\" : contains\n\
cl_only : 3 : cl : client only\n\
hidden_pa : 4 : sv, hidden : hidden\n\
--------------\n\
5 total convars";

fn names(v: &[Cvar]) -> Vec<String> {
    v.iter().map(|c| c.name.clone()).collect()
}

#[test]
fn listing_is_parsed_and_trimmed() {
    assert!(listing_is_well_formed(LISTING));
    let db = CvarDatabase::new(LISTING);
    let all = db.get_suggestions("p", &[]);
    assert!(names(&all).contains(&"mp_pause_match".to_string()));
    let exact = db.get_suggestions("mp_pa", &[]);
    let last = exact.last().expect("a suggestion");
    assert_eq!(last.name, "mp_pa");
    assert_eq!(last.value, "1");
    assert_eq!(last.flags, vec![CvarFlag::Server]);
    assert_eq!(last.description, "exact");
}

#[test]
fn malformed_listing_is_detected() {
    assert!(!listing_is_well_formed("a\nb\nonly_two : columns\nc\nd"));
    assert!(listing_is_well_formed("a\nb\nc\nd"));
}

#[test]
fn suggestions_rank_exact_prefix_and_contained_matches_best_last() {
    let db = CvarDatabase::new(LISTING);
    let got = db.get_suggestions("MP_PA", &[]);
    assert_eq!(names(&got), vec!["xmp_pa", "mp_pause_match", "mp_pa"]);
}

#[test]
fn fuzzy_subsequence_matches() {
    let db = CvarDatabase::new(LISTING);
    let got = db.get_suggestions("mpm", &[]);
    assert_eq!(names(&got), vec!["mp_pause_match"]);
    assert!(db.get_suggestions("zzz", &[]).is_empty());
    assert!(db.get_suggestions("", &[]).is_empty());
}

#[test]
fn user_filters_and_rcon_validity() {
    let db = CvarDatabase::new(LISTING);
    let got = db.get_suggestions("mp_pa", &[CvarFlag::Replicated]);
    assert_eq!(names(&got), vec!["xmp_pa", "mp_pa"]);
    // Client-only and hidden variables are never offered.
    assert!(db.get_suggestions("cl_only", &[]).is_empty());
    assert!(db.get_suggestions("hidden_pa", &[]).is_empty());
    let client = Cvar { name: "c".into(), value: "0".into(), flags: vec![CvarFlag::Client], description: String::new() };
    assert!(!db.is_rcon_valid(&client));
    let both = Cvar { flags: vec![CvarFlag::Client, CvarFlag::Server], ..client.duplicate() };
    assert!(db.is_rcon_valid(&both));
    let demo = Cvar { flags: vec![CvarFlag::Demo], ..client };
    assert!(!db.is_rcon_valid(&demo));
}

#[test]
fn at_most_twenty_suggestions() {
    let mut text = String::from("h\nh\n");
    for i in 0..30 {
        text.push_str(&format!("var_{i:02} : {i} : sv : d\n"));
    }
    text.push_str("f\nf");
    let db = CvarDatabase::new(&text);
    let got = db.get_suggestions("var", &[]);
    assert_eq!(got.len(), 20);
    // Equal scores keep listing order; the best ends up last.
    assert_eq!(got[19].name, "var_00");
    assert_eq!(got[0].name, "var_19");
}

#[test]
fn update_sets_only_the_value_of_a_known_variable() {
    let mut db = CvarDatabase::new(LISTING);
    db.update("mp_pa", "7");
    db.update("unknown", "9");
    let got = db.get_suggestions("mp_pa", &[]);
    let last = got.last().expect("a suggestion");
    assert_eq!((last.name.as_str(), last.value.as_str()), ("mp_pa", "7"));
    assert_eq!(last.flags, vec![CvarFlag::Server]);
    assert!(db.get_suggestions("unknown", &[]).is_empty());
}

#[test]
fn later_line_replaces_a_repeated_name() {
    let db = CvarDatabase::new("h\nh\nx_a : 1 : sv : first\nx_a : 2 : sv : second\nf\nf");
    let got = db.get_suggestions("x_a", &[]);
    assert_eq!(got.len(), 1);
    assert_eq!(got[0].value, "2");
    assert_eq!(got[0].description, "second");
}

fn entry(secs: u64, nanos: u32, target: &str, message: &str, level: AppLogLevel) -> AppLogEntry {
    AppLogEntry {
        timestamp: Timestamp::SinceEpoch { secs, nanos },
        level,
        target: target.into(),
        message: message.into(),
        module: None,
        file: None,
        line: None,
    }
}

#[test]
fn formatted_time_is_utc_time_of_day() {
    let e = entry(86_400 * 3 + 13 * 3600 + 5 * 60 + 9, 42_000_000, "t", "m", AppLogLevel::Info);
    assert_eq!(e.formatted_time(), "13:05:09.042");
    let before = AppLogEntry { timestamp: Timestamp::BeforeEpoch, ..e };
    assert_eq!(before.formatted_time(), "??:??:??.???");
}

#[test]
fn formatted_time_is_always_twelve_characters() {
    for (secs, nanos) in [(0u64, 0u32), (u64::MAX, 999_999_999), (86_399, 999_000_000), (59, 1)] {
        let e = entry(secs, nanos, "t", "m", AppLogLevel::Info);
        assert_eq!(e.formatted_time().chars().count(), 12);
    }
    let e = entry(86_399, 999_999_999, "t", "m", AppLogLevel::Info);
    assert_eq!(e.formatted_time(), "23:59:59.999");
}

#[test]
fn compact_targets_keep_first_and_last_segment() {
    let e = entry(0, 0, "lan_game_scan::scanner::scanner", "m", AppLogLevel::Info);
    assert_eq!(e.display_target(true), "lan_game_scan::...::scanner");
    assert_eq!(e.display_target(false), "lan_game_scan::scanner::scanner");
    let short = entry(0, 0, "cbz_rcon::client", "m", AppLogLevel::Info);
    assert_eq!(short.display_target(true), "cbz_rcon::client");
}

#[test]
fn store_keeps_the_newest_entries() {
    let mut store = AppLogStore::new();
    for i in 0..(MAX_LOG_ENTRIES as u64 + 3) {
        store.push(entry(i, 0, "t", &i.to_string(), AppLogLevel::Debug));
    }
    let all = store.entries();
    assert_eq!(all.len(), MAX_LOG_ENTRIES);
    assert_eq!(all[0].message, "3");
    assert_eq!(all[MAX_LOG_ENTRIES - 1].message, (MAX_LOG_ENTRIES + 2).to_string());
    store.clear();
    assert!(store.entries().is_empty());
}

#[test]
fn visitor_keeps_only_the_message_field() {
    let mut v = MessageVisitor::new();
    assert!(v.message.is_none());
    v.record("other", "x".into());
    assert!(v.message.is_none());
    v.record("message", "hello".into());
    assert_eq!(v.message.as_deref(), Some("hello"));
}

#[test]
fn layer_falls_back_to_the_target_as_message() {
    let mut layer = AppLogLayer::new(AppLogStore::new());
    layer.on_event(Timestamp::BeforeEpoch, AppLogLevel::Warn, "live_log::http".into(), None, None, None, Some(3));
    layer.on_event(Timestamp::BeforeEpoch, AppLogLevel::Info, "x".into(), Some("msg".into()), None, Some("f.rs".into()), None);
    let all = layer.log_store().entries();
    assert_eq!(all.len(), 2);
    assert_eq!(all[0].message, "live_log::http");
    assert_eq!(all[0].level, AppLogLevel::Warn);
    assert_eq!(all[1].message, "msg");
}

#[test]
fn crates_are_chosen_by_name_or_as_rest() {
    let chosen = vec!["lan_game_scan".to_string(), "Rest".to_string()];
    assert!(is_crate_selected("lan_game_scan::app", &chosen));
    assert!(!is_crate_selected("cbz_rcon::client", &chosen));
    assert!(is_crate_selected("hyper::proto", &chosen));
    let no_rest = vec!["cbz_rcon".to_string()];
    assert!(!is_crate_selected("tokio", &no_rest));
    assert!(is_crate_selected("cbz_rcon", &no_rest));
}

#[test]
fn filter_by_level_target_and_case_insensitive_search() {
    let entries = vec![
        entry(0, 0, "lan_game_scan::a", "Connection ERROR", AppLogLevel::Error),
        entry(0, 0, "lan_game_scan::b", "fine", AppLogLevel::Info),
        entry(0, 0, "tokio::x", "TRACE me", AppLogLevel::Trace),
    ];
    let mut f = LogFilter::new();
    assert_eq!(f.filter_entries(&entries).len(), 3);
    f.search = "error".into();
    let got = f.filter_entries(&entries);
    assert_eq!(got.len(), 1);
    assert_eq!(got[0].message, "Connection ERROR");
    f.search = "TOKIO".into();
    assert_eq!(f.filter_entries(&entries).len(), 1);
    f.search = String::new();
    f.show_trace = false;
    assert_eq!(f.filter_entries(&entries).len(), 2);
    f.selected_target = "lan_game_scan::b".into();
    let got = f.filter_entries(&entries);
    assert_eq!(got.len(), 1);
    assert_eq!(got[0].message, "fine");
}

#[test]
fn toggling_crates() {
    let mut chosen = vec!["a".to_string(), "Rest".to_string(), "a".to_string()];
    toggle_crate(&mut chosen, "a".into());
    assert_eq!(chosen, vec!["Rest".to_string()]);
    toggle_crate(&mut chosen, "cbz_rcon".into());
    assert_eq!(chosen, vec!["Rest".to_string(), "cbz_rcon".to_string()]);
}

#[test]
fn target_list_is_sorted_and_distinct() {
    let entries = vec![
        entry(0, 0, "lan_game_scan::b", "", AppLogLevel::Info),
        entry(0, 0, "lan_game_scan::a", "", AppLogLevel::Info),
        entry(0, 0, "lan_game_scan::b", "", AppLogLevel::Info),
        entry(0, 0, "cbz_rcon::x", "", AppLogLevel::Info),
    ];
    let chosen = vec!["lan_game_scan".to_string()];
    let targets = selectable_targets(&entries, &chosen);
    assert_eq!(targets, vec!["lan_game_scan::a".to_string(), "lan_game_scan::b".to_string()]);
    let mut sel = "cbz_rcon::x".to_string();
    revalidate_target(&mut sel, &targets);
    assert_eq!(sel, "");
    let mut sel = "lan_game_scan::a".to_string();
    revalidate_target(&mut sel, &targets);
    assert_eq!(sel, "lan_game_scan::a");
}

#[test]
fn entry_labels() {
    assert_eq!(level_class(AppLogLevel::Error), "text-red-400");
    assert_eq!(level_class(AppLogLevel::Info), "text-emerald-400");
    let mut e = entry(0, 0, "t", "m", AppLogLevel::Info);
    assert_eq!(location(&e), "unknown");
    assert_eq!(module_label(&e), "unknown");
    e.line = Some(12);
    assert_eq!(location(&e), "line 12");
    e.file = Some("src/a.rs".into());
    assert_eq!(location(&e), "src/a.rs:12");
    e.line = None;
    assert_eq!(location(&e), "src/a.rs");
    e.module = Some("lan_game_scan::a".into());
    assert_eq!(module_label(&e), "lan_game_scan::a");
}

#[test]
fn entry_tooltip_and_level_names() {
    let mut e = entry(3600, 5_000_000, "lan_game_scan::app", "m", AppLogLevel::Warn);
    e.file = Some("src/app.rs".into());
    e.line = Some(9);
    assert_eq!(
        tooltip(&e),
        "Target: lan_game_scan::app\nModule: unknown\nLocation: src/app.rs:9\nTimestamp: 01:00:00.005"
    );
    assert_eq!(level_name(AppLogLevel::Warn), format!("{:?}", AppLogLevel::Warn));
    assert_eq!(level_name(AppLogLevel::Trace), "Trace");
}
