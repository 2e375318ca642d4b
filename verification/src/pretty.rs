//! How a live log event reads in the web view: a line of styled runs of
//! text, each with the style classes it is drawn with.
use vstd::prelude::*;
use crate::commands::{
    reason_text, reason_text_of, round_winner_text, round_winner_text_of, team_label,
    team_label_of, team_text_class, team_text_class_of,
};
use crate::events::{LogEvent, LogPlayer, LogTeam};
use crate::players::{team_from_log, team_of};
use crate::text::{decimal, decimal_chars, decimal_padded, decimal_padded_chars, string_from_chars};

verus! {

/// A run of text and its style classes; an empty class means the line's
/// own style.
pub struct StyledRun {
    pub class: String,
    pub text: String,
}

impl View for StyledRun {
    type V = (Seq<char>, Seq<char>);

    open spec fn view(&self) -> (Seq<char>, Seq<char>) {
        (self.class@, self.text@)
    }
}

/// A line of the log view: its style classes and its runs in order.
pub struct PrettyLine {
    pub class: String,
    pub runs: Vec<StyledRun>,
}

/// The runs of a line as values.
pub open spec fn run_views(runs: Seq<StyledRun>) -> Seq<(Seq<char>, Seq<char>)> {
    runs.map_values(|r: StyledRun| r@)
}

impl View for PrettyLine {
    type V = (Seq<char>, Seq<(Seq<char>, Seq<char>)>);

    open spec fn view(&self) -> (Seq<char>, Seq<(Seq<char>, Seq<char>)>) {
        (self.class@, run_views(self.runs@))
    }
}

/// How an event is drawn: a line of text, or the table of a round summary.
pub enum PrettyView {
    Line(PrettyLine),
    RoundTable,
}

/// A line as a value: its class and its runs.
pub type LineView = (Seq<char>, Seq<(Seq<char>, Seq<char>)>);

/// The colour of a log team's names.
pub open spec fn log_team_class(t: LogTeam) -> Seq<char> {
    team_text_class_of(team_of(t))
}

/// The label of a log team.
pub open spec fn log_team_label(t: LogTeam) -> Seq<char> {
    team_label_of(team_of(t))
}

/// An amount held in hundredths, written with two decimals.
pub open spec fn two_decimals(h: nat) -> Seq<char> {
    decimal(h / 100) + "."@ + decimal_padded(h % 100, 2)
}

/// `items` joined by `sep`.
pub open spec fn joined(items: Seq<Seq<char>>, sep: Seq<char>) -> Seq<char>
    decreases items.len(),
{
    if items.len() == 0 {
        Seq::empty()
    } else if items.len() == 1 {
        items[0]
    } else {
        joined(items.drop_last(), sep) + sep + items.last()
    }
}

/// The texts of a list of strings.
pub open spec fn item_views(items: Seq<String>) -> Seq<Seq<char>> {
    items.map_values(|t: String| t@)
}

/// A player's name in the colour of their team.
pub open spec fn name_run(p: LogPlayer) -> (Seq<char>, Seq<char>) {
    (log_team_class(p.team), p.name@)
}

/// A run in the line's own style.
pub open spec fn plain(t: Seq<char>) -> (Seq<char>, Seq<char>) {
    (Seq::empty(), t)
}

/// The runs an optional marker adds.
pub open spec fn marker(on: bool, icon: Seq<char>) -> Seq<(Seq<char>, Seq<char>)> {
    if on {
        seq![("ml-1"@, icon)]
    } else {
        Seq::empty()
    }
}

/// How each event is drawn; `None` for a round summary, which is drawn as
/// a table.
pub open spec fn pretty_of(e: LogEvent) -> Option<LineView> {
    match e {
        LogEvent::Attacked { attacker, victim, damage, weapon, hitgroup } => Some(
            (
                "text-zinc-300"@,
                seq![
                    name_run(attacker),
                    plain(" hit "@),
                    name_run(victim),
                    plain(" for "@),
                    ("text-red-400 font-semibold"@, decimal(damage as nat)),
                    plain(" ("@ + weapon@ + ") in "@),
                    ("text-zinc-400"@, hitgroup@),
                ],
            ),
        ),
        LogEvent::Kill {
            attacker,
            victim,
            weapon,
            headshot,
            penetrated,
            through_smoke,
            attacker_in_air,
        } => Some(
            (
                "text-zinc-300"@,
                seq![
                    name_run(attacker),
                    plain(" killed "@),
                    name_run(victim),
                    plain(" with "@),
                    ("text-zinc-200"@, weapon@),
                ] + marker(headshot, "🎯"@) + marker(penetrated, "🧱"@) + marker(
                    through_smoke,
                    "💨"@,
                ) + marker(attacker_in_air, "🪽"@),
            ),
        ),
        LogEvent::Chat { player, msg, is_team_chat } => Some(
            (
                Seq::empty(),
                seq![
                    if is_team_chat {
                        ("text-yellow-400 font-semibold"@, "[TEAM]"@)
                    } else {
                        ("text-zinc-500 font-semibold"@, "[ALL]"@)
                    },
                    plain(" "@),
                    name_run(player),
                    plain(": "@),
                    ("text-zinc-200"@, msg@),
                ],
            ),
        ),
        LogEvent::ScoreUpdate { t1, t2, map, .. } => Some(
            (
                "font-semibold"@,
                seq![
                    ("text-yellow-400"@, "[SCORE]"@),
                    plain(" "@),
                    ("text-red-400"@, "T "@ + decimal(t1 as nat)),
                    plain(" - "@),
                    ("text-blue-400"@, decimal(t2 as nat) + " CT"@),
                    plain(" on "@),
                    ("text-zinc-200"@, map@),
                ],
            ),
        ),
        LogEvent::RoundWin { winner_side, reason, ct_score, t_score } => Some(
            (
                "font-semibold"@,
                seq![
                    (log_team_class(winner_side), round_winner_text_of(team_of(winner_side))),
                    plain(" — "@),
                    ("text-zinc-300"@, reason_text_of(reason@)),
                    plain(" | CT "@),
                    ("text-blue-400"@, decimal(ct_score as nat)),
                    plain(" : T "@),
                    ("text-red-400"@, decimal(t_score as nat)),
                ],
            ),
        ),
        LogEvent::TeamSwitch { player, from } => Some(
            (
                "text-zinc-300"@,
                seq![
                    ("text-zinc-100 font-semibold"@, player.name@),
                    plain(" switched from "@),
                    (log_team_class(from), log_team_label(from)),
                    plain(" to "@),
                    (log_team_class(player.team), log_team_label(player.team)),
                ],
            ),
        ),
        LogEvent::BombEvent { player, event, site } => Some(
            (
                "text-zinc-300"@,
                seq![name_run(player), plain(" "@), ("text-zinc-200"@, event@)] + match site {
                    Some(s) => seq![("text-zinc-400"@, " at site "@ + s@)],
                    None => Seq::empty(),
                },
            ),
        ),
        LogEvent::Purchase { player, item } => Some(
            (
                "text-zinc-300"@,
                seq![name_run(player), plain(" purchased "@), ("text-zinc-200"@, item@)],
            ),
        ),
        LogEvent::Connection { player, action, info } => Some(
            (
                "text-zinc-300"@,
                seq![
                    ("text-cyan-400"@, player.name@),
                    plain(" "@),
                    ("text-purple-400 font-semibold"@, action@),
                ] + match info {
                    Some(i) => seq![plain(" "@), ("text-zinc-500"@, "("@ + i@ + ")"@)],
                    None => Seq::empty(),
                },
            ),
        ),
        LogEvent::Suicide { player, weapon } => Some(
            (
                "text-zinc-300"@,
                seq![
                    name_run(player),
                    plain(" committed suicide with "@),
                    ("text-zinc-200"@, weapon@),
                ],
            ),
        ),
        LogEvent::WorldTrigger { event } => Some(
            (
                Seq::empty(),
                seq![("text-purple-400"@, "[WORLD]"@), plain(" "@), ("text-zinc-300"@, event@)],
            ),
        ),
        LogEvent::Technical { name, action } => Some(
            (
                "text-zinc-300"@,
                seq![("text-cyan-400"@, name@), plain(" "@), ("text-purple-400"@, action@)],
            ),
        ),
        LogEvent::LeftBuyZone { player, items } => Some(
            (
                "text-zinc-300"@,
                seq![
                    ("text-zinc-100 font-semibold"@, player.name@),
                    plain(" left buyzone with "@),
                    ("text-yellow-400"@, "["@ + joined(item_views(items@), ", "@) + "]"@),
                ],
            ),
        ),
        LogEvent::RoundStats { .. } => None,
        LogEvent::Assist { assister, victim } => Some(
            (
                "text-zinc-300"@,
                seq![name_run(assister), plain(" assisted killing "@), name_run(victim)],
            ),
        ),
        LogEvent::Grenade { player, grenade } => Some(
            (
                "text-zinc-300"@,
                seq![name_run(player), plain(" threw "@), ("text-zinc-200"@, grenade@)],
            ),
        ),
        LogEvent::SvGrenade { player, grenade } => Some(
            ("text-zinc-500"@, seq![name_run(player), plain(" sv_throw_"@ + grenade@)]),
        ),
        LogEvent::Blinded { attacker, victim, duration_hundredths } => Some(
            (
                "text-zinc-300"@,
                seq![
                    name_run(attacker),
                    plain(" blinded "@),
                    name_run(victim),
                    plain(" for "@),
                    ("text-yellow-400"@, two_decimals(duration_hundredths as nat) + "s"@),
                ],
            ),
        ),
        LogEvent::MatchStatus { team, team_name } => Some(
            (
                "text-zinc-300"@,
                seq![(log_team_class(team), log_team_label(team))] + match team_name {
                    Some(n) => seq![plain(" playing "@), ("text-zinc-200"@, n@)],
                    None => seq![plain(" unset"@)],
                },
            ),
        ),
        LogEvent::FreezePeriod => Some(
            ("text-zinc-500"@, seq![plain("[FREEZE] Starting Freeze period"@)]),
        ),
        LogEvent::MatchStart { map } => Some(
            (
                "font-semibold"@,
                seq![("text-green-400"@, "[MATCH]"@), plain(" started on "@), ("text-zinc-200"@, map@)],
            ),
        ),
        LogEvent::TeamScore { team, score, players } => Some(
            (
                "text-zinc-300"@,
                seq![
                    (log_team_class(team), log_team_label(team)),
                    plain(" scored "@),
                    ("text-zinc-100 font-semibold"@, decimal(score as nat)),
                    plain(" with "@ + decimal(players as nat) + " players"@),
                ],
            ),
        ),
        LogEvent::ServerCvar { name, value } => Some(
            (
                "text-zinc-300"@,
                seq![
                    ("text-zinc-500"@, "server_cvar"@),
                    plain(" "@),
                    ("text-zinc-200"@, name@),
                    plain(" = "@),
                    ("text-zinc-400"@, value@),
                ],
            ),
        ),
        LogEvent::BombDeath { player } => Some(
            ("text-zinc-300"@, seq![name_run(player), plain(" was killed by the bomb"@)]),
        ),
        LogEvent::RoundAccolade { category, player, value_hundredths, position } => Some(
            (
                "text-zinc-300"@,
                seq![
                    ("text-yellow-400 font-semibold"@, "[ACCOLADE]"@),
                    plain(" "@),
                    name_run(player),
                    plain(": "@),
                    ("text-zinc-300"@, category@),
                    plain(
                        " ("@ + two_decimals(value_hundredths as nat) + ") [#"@ + decimal(
                            position as nat,
                        ) + "]"@,
                    ),
                ],
            ),
        ),
        LogEvent::ServerCvarDump { cvars } => Some(
            (
                "text-zinc-300"@,
                seq![
                    ("text-zinc-500"@, "[CVARS]"@),
                    plain(" received "@ + decimal(cvars.len() as nat) + " server variables"@),
                ],
            ),
        ),
        LogEvent::LogFile { started } => Some(
            (
                "text-zinc-500"@,
                seq![
                    plain(
                        if started {
                            "[LOG] file started"@
                        } else {
                            "[LOG] file closed"@
                        },
                    ),
                ],
            ),
        ),
        LogEvent::MapLoading { map } => Some(
            ("text-zinc-300"@, seq![("text-cyan-400"@, "[MAP]"@), plain(" loading "@ + map@)]),
        ),
        LogEvent::ServerStarted => Some(("text-green-400"@, seq![plain("[SERVER] started"@)])),
        LogEvent::GameOver { mode, map, t_score, ct_score, minutes } => Some(
            (
                "font-semibold"@,
                seq![
                    ("text-yellow-400"@, "[GAME OVER]"@),
                    plain(" "@ + mode@ + " "@ + map@ + " "@),
                    ("text-red-400"@, decimal(t_score as nat)),
                    plain(":"@),
                    ("text-blue-400"@, decimal(ct_score as nat)),
                    plain(" after "@ + decimal(minutes as nat) + " min"@),
                ],
            ),
        ),
        LogEvent::MolotovSpawn => Some(
            (
                "text-zinc-300"@,
                seq![("text-yellow-400 font-semibold"@, "Molotov"@), plain(" spawned"@)],
            ),
        ),
        LogEvent::Ignored => Some(("text-zinc-600"@, seq![plain("[IGNORED]"@)])),
        LogEvent::Unknown => Some(("text-zinc-600"@, seq![plain("[UNKNOWN]"@)])),
        LogEvent::Rcon { addr, command } => Some(
            ("text-cyan-400"@, seq![plain("[RCON] "@ + addr@ + ": "@ + command@)]),
        ),
    }
}

fn run(class: &str, text: &str) -> (r: StyledRun)
    ensures
        r@ == (class@, text@),
{
    StyledRun { class: String::from_str(class), text: String::from_str(text) }
}

fn plain_run(text: &str) -> (r: StyledRun)
    ensures
        r@ == plain(text@),
{
    StyledRun { class: String::new(), text: String::from_str(text) }
}

fn name_run_of(p: &LogPlayer) -> (r: StyledRun)
    ensures
        r@ == name_run(*p),
{
    StyledRun { class: team_text_class(team_from_log(p.team)), text: p.name.clone() }
}

fn bare_line(runs: Vec<StyledRun>) -> (l: PrettyLine)
    ensures
        l.class@ == Seq::<char>::empty(),
        l.runs@ == runs@,
{
    PrettyLine { class: String::new(), runs }
}

fn text_run(class: &str, text: String) -> (r: StyledRun)
    ensures
        r@ == (class@, text@),
{
    StyledRun { class: String::from_str(class), text }
}

fn plain_text(text: String) -> (r: StyledRun)
    ensures
        r@ == plain(text@),
{
    StyledRun { class: String::new(), text }
}

fn team_run(t: LogTeam, text: String) -> (r: StyledRun)
    ensures
        r@ == (log_team_class(t), text@),
{
    StyledRun { class: team_text_class(team_from_log(t)), text }
}

fn label_run(t: LogTeam) -> (r: StyledRun)
    ensures
        r@ == (log_team_class(t), log_team_label(t)),
{
    team_run(t, team_label(team_from_log(t)))
}

fn append_number(s: &mut String, n: u64)
    ensures
        final(s)@ == old(s)@ + decimal(n as nat),
{
    let d = number_text(n);
    s.append(d.as_str());
}

fn append_two_decimals(s: &mut String, h: u64)
    ensures
        final(s)@ == old(s)@ + two_decimals(h as nat),
{
    append_number(s, h / 100);
    s.append(".");
    let f = string_from_chars(&decimal_padded_chars(h % 100, 2));
    s.append(f.as_str());
}

fn join_items(items: &Vec<String>, sep: &str) -> (r: String)
    ensures
        r@ == joined(item_views(items@), sep@),
{
    let mut out = String::new();
    for i in 0..items.len()
        invariant
            out@ == joined(item_views(items@.take(i as int)), sep@),
    {
        proof {
            let a = item_views(items@.take(i as int));
            let b = item_views(items@.take(i + 1));
            assert(b.drop_last() =~= a);
            assert(b.last() == items@[i as int]@);
        }
        if i > 0 {
            out.append(sep);
        }
        out.append(items[i].as_str());
    }
    assert(items@.take(items.len() as int) =~= items@);
    out
}

fn number_text(n: u64) -> (r: String)
    ensures
        r@ == decimal(n as nat),
{
    string_from_chars(&decimal_chars(n))
}

fn line(class: &str, runs: Vec<StyledRun>) -> (l: PrettyLine)
    ensures
        l.class@ == class@,
        l.runs@ == runs@,
{
    PrettyLine { class: String::from_str(class), runs }
}

fn draw_attacked(event: &LogEvent) -> (l: PrettyLine)
    requires
        *event is Attacked,
    ensures
        pretty_of(*event) == Some(l@),
{
    match event {
        LogEvent::Attacked { attacker, victim, damage, weapon, hitgroup } => {
            let mut t = String::from_str(" (");
            t.append(weapon.as_str());
            t.append(") in ");
            let runs = vec![
                name_run_of(attacker),
                plain_run(" hit "),
                name_run_of(victim),
                plain_run(" for "),
                StyledRun {
                    class: String::from_str("text-red-400 font-semibold"),
                    text: number_text(*damage as u64),
                },
                StyledRun { class: String::new(), text: t },
                StyledRun { class: String::from_str("text-zinc-400"), text: hitgroup.clone() },
            ];
            let l = line("text-zinc-300", runs);
            assert(run_views(l.runs@) =~= pretty_of(*event).unwrap().1);
            l
        },
        _ => bare_line(Vec::new()),
    }
}

fn draw_kill(event: &LogEvent) -> (l: PrettyLine)
    requires
        *event is Kill,
    ensures
        pretty_of(*event) == Some(l@),
{
    match event {
        LogEvent::Kill {
            attacker,
            victim,
            weapon,
            headshot,
            penetrated,
            through_smoke,
            attacker_in_air,
        } => {
            let mut runs = vec![
                name_run_of(attacker),
                plain_run(" killed "),
                name_run_of(victim),
                plain_run(" with "),
                StyledRun { class: String::from_str("text-zinc-200"), text: weapon.clone() },
            ];
            let ghost base = run_views(runs@);
            if *headshot {
                runs.push(run("ml-1", "🎯"));
            }
            assert(run_views(runs@) =~= base + marker(*headshot, "🎯"@));
            let ghost b1 = run_views(runs@);
            if *penetrated {
                runs.push(run("ml-1", "🧱"));
            }
            assert(run_views(runs@) =~= b1 + marker(*penetrated, "🧱"@));
            let ghost b2 = run_views(runs@);
            if *through_smoke {
                runs.push(run("ml-1", "💨"));
            }
            assert(run_views(runs@) =~= b2 + marker(*through_smoke, "💨"@));
            let ghost b3 = run_views(runs@);
            if *attacker_in_air {
                runs.push(run("ml-1", "🪽"));
            }
            assert(run_views(runs@) =~= b3 + marker(*attacker_in_air, "🪽"@));
            let l = line("text-zinc-300", runs);
            assert(run_views(l.runs@) =~= pretty_of(*event).unwrap().1);
            l
        },
        _ => bare_line(Vec::new()),
    }
}

fn draw_chat(event: &LogEvent) -> (l: PrettyLine)
    requires
        *event is Chat,
    ensures
        pretty_of(*event) == Some(l@),
{
    match event {
        LogEvent::Chat { player, msg, is_team_chat } => {
            let tag = if *is_team_chat {
                run("text-yellow-400 font-semibold", "[TEAM]")
            } else {
                run("text-zinc-500 font-semibold", "[ALL]")
            };
            let runs = vec![
                tag,
                plain_run(" "),
                name_run_of(player),
                plain_run(": "),
                StyledRun { class: String::from_str("text-zinc-200"), text: msg.clone() },
            ];
            let l = bare_line(runs);
            assert(run_views(l.runs@) =~= pretty_of(*event).unwrap().1);
            l
        },
        _ => bare_line(Vec::new()),
    }
}

fn draw_score_update(event: &LogEvent) -> (l: PrettyLine)
    requires
        *event is ScoreUpdate,
    ensures
        pretty_of(*event) == Some(l@),
{
    match event {
        LogEvent::ScoreUpdate { t1, t2, map, .. } => {
            let mut a = String::from_str("T ");
            append_number(&mut a, *t1 as u64);
            let mut b = number_text(*t2 as u64);
            b.append(" CT");
            let runs = vec![
                run("text-yellow-400", "[SCORE]"),
                plain_run(" "),
                text_run("text-red-400", a),
                plain_run(" - "),
                text_run("text-blue-400", b),
                plain_run(" on "),
                text_run("text-zinc-200", map.clone()),
            ];
            let l = line("font-semibold", runs);
            assert(run_views(l.runs@) =~= pretty_of(*event).unwrap().1);
            l
        },
        _ => bare_line(Vec::new()),
    }
}

fn draw_round_win(event: &LogEvent) -> (l: PrettyLine)
    requires
        *event is RoundWin,
    ensures
        pretty_of(*event) == Some(l@),
{
    match event {
        LogEvent::RoundWin { winner_side, reason, ct_score, t_score } => {
            let runs = vec![
                team_run(*winner_side, round_winner_text(team_from_log(*winner_side))),
                plain_run(" — "),
                text_run("text-zinc-300", reason_text(reason.as_str())),
                plain_run(" | CT "),
                text_run("text-blue-400", number_text(*ct_score as u64)),
                plain_run(" : T "),
                text_run("text-red-400", number_text(*t_score as u64)),
            ];
            let l = line("font-semibold", runs);
            assert(run_views(l.runs@) =~= pretty_of(*event).unwrap().1);
            l
        },
        _ => bare_line(Vec::new()),
    }
}

fn draw_team_switch(event: &LogEvent) -> (l: PrettyLine)
    requires
        *event is TeamSwitch,
    ensures
        pretty_of(*event) == Some(l@),
{
    match event {
        LogEvent::TeamSwitch { player, from } => {
            let runs = vec![
                text_run("text-zinc-100 font-semibold", player.name.clone()),
                plain_run(" switched from "),
                label_run(*from),
                plain_run(" to "),
                label_run(player.team),
            ];
            let l = line("text-zinc-300", runs);
            assert(run_views(l.runs@) =~= pretty_of(*event).unwrap().1);
            l
        },
        _ => bare_line(Vec::new()),
    }
}

fn draw_bomb_event(event: &LogEvent) -> (l: PrettyLine)
    requires
        *event is BombEvent,
    ensures
        pretty_of(*event) == Some(l@),
{
    match event {
        LogEvent::BombEvent { player, event: what, site } => {
            let mut runs = vec![
                name_run_of(player),
                plain_run(" "),
                text_run("text-zinc-200", what.clone()),
            ];
            match site {
                Some(st) => {
                    let mut t = String::from_str(" at site ");
                    t.append(st.as_str());
                    runs.push(text_run("text-zinc-400", t));
                },
                None => {},
            }
            let l = line("text-zinc-300", runs);
            assert(run_views(l.runs@) =~= pretty_of(*event).unwrap().1);
            l
        },
        _ => bare_line(Vec::new()),
    }
}

fn draw_purchase(event: &LogEvent) -> (l: PrettyLine)
    requires
        *event is Purchase,
    ensures
        pretty_of(*event) == Some(l@),
{
    match event {
        LogEvent::Purchase { player, item } => {
            let runs = vec![
                name_run_of(player),
                plain_run(" purchased "),
                text_run("text-zinc-200", item.clone()),
            ];
            let l = line("text-zinc-300", runs);
            assert(run_views(l.runs@) =~= pretty_of(*event).unwrap().1);
            l
        },
        _ => bare_line(Vec::new()),
    }
}

fn draw_connection(event: &LogEvent) -> (l: PrettyLine)
    requires
        *event is Connection,
    ensures
        pretty_of(*event) == Some(l@),
{
    match event {
        LogEvent::Connection { player, action, info } => {
            let mut runs = vec![
                text_run("text-cyan-400", player.name.clone()),
                plain_run(" "),
                text_run("text-purple-400 font-semibold", action.clone()),
            ];
            match info {
                Some(i) => {
                    let mut t = String::from_str("(");
                    t.append(i.as_str());
                    t.append(")");
                    runs.push(plain_run(" "));
                    runs.push(text_run("text-zinc-500", t));
                },
                None => {},
            }
            let l = line("text-zinc-300", runs);
            assert(run_views(l.runs@) =~= pretty_of(*event).unwrap().1);
            l
        },
        _ => bare_line(Vec::new()),
    }
}

fn draw_suicide(event: &LogEvent) -> (l: PrettyLine)
    requires
        *event is Suicide,
    ensures
        pretty_of(*event) == Some(l@),
{
    match event {
        LogEvent::Suicide { player, weapon } => {
            let runs = vec![
                name_run_of(player),
                plain_run(" committed suicide with "),
                text_run("text-zinc-200", weapon.clone()),
            ];
            let l = line("text-zinc-300", runs);
            assert(run_views(l.runs@) =~= pretty_of(*event).unwrap().1);
            l
        },
        _ => bare_line(Vec::new()),
    }
}

fn draw_world_trigger(event: &LogEvent) -> (l: PrettyLine)
    requires
        *event is WorldTrigger,
    ensures
        pretty_of(*event) == Some(l@),
{
    match event {
        LogEvent::WorldTrigger { event: what } => {
            let runs = vec![
                run("text-purple-400", "[WORLD]"),
                plain_run(" "),
                text_run("text-zinc-300", what.clone()),
            ];
            let l = bare_line(runs);
            assert(run_views(l.runs@) =~= pretty_of(*event).unwrap().1);
            l
        },
        _ => bare_line(Vec::new()),
    }
}

fn draw_technical(event: &LogEvent) -> (l: PrettyLine)
    requires
        *event is Technical,
    ensures
        pretty_of(*event) == Some(l@),
{
    match event {
        LogEvent::Technical { name, action } => {
            let runs = vec![
                text_run("text-cyan-400", name.clone()),
                plain_run(" "),
                text_run("text-purple-400", action.clone()),
            ];
            let l = line("text-zinc-300", runs);
            assert(run_views(l.runs@) =~= pretty_of(*event).unwrap().1);
            l
        },
        _ => bare_line(Vec::new()),
    }
}

fn draw_left_buy_zone(event: &LogEvent) -> (l: PrettyLine)
    requires
        *event is LeftBuyZone,
    ensures
        pretty_of(*event) == Some(l@),
{
    match event {
        LogEvent::LeftBuyZone { player, items } => {
            let mut t = String::from_str("[");
            let j = join_items(items, ", ");
            t.append(j.as_str());
            t.append("]");
            let runs = vec![
                text_run("text-zinc-100 font-semibold", player.name.clone()),
                plain_run(" left buyzone with "),
                text_run("text-yellow-400", t),
            ];
            let l = line("text-zinc-300", runs);
            assert(run_views(l.runs@) =~= pretty_of(*event).unwrap().1);
            l
        },
        _ => bare_line(Vec::new()),
    }
}

fn draw_assist(event: &LogEvent) -> (l: PrettyLine)
    requires
        *event is Assist,
    ensures
        pretty_of(*event) == Some(l@),
{
    match event {
        LogEvent::Assist { assister, victim } => {
            let runs = vec![
                name_run_of(assister),
                plain_run(" assisted killing "),
                name_run_of(victim),
            ];
            let l = line("text-zinc-300", runs);
            assert(run_views(l.runs@) =~= pretty_of(*event).unwrap().1);
            l
        },
        _ => bare_line(Vec::new()),
    }
}

fn draw_grenade(event: &LogEvent) -> (l: PrettyLine)
    requires
        *event is Grenade,
    ensures
        pretty_of(*event) == Some(l@),
{
    match event {
        LogEvent::Grenade { player, grenade } => {
            let runs = vec![
                name_run_of(player),
                plain_run(" threw "),
                text_run("text-zinc-200", grenade.clone()),
            ];
            let l = line("text-zinc-300", runs);
            assert(run_views(l.runs@) =~= pretty_of(*event).unwrap().1);
            l
        },
        _ => bare_line(Vec::new()),
    }
}

fn draw_sv_grenade(event: &LogEvent) -> (l: PrettyLine)
    requires
        *event is SvGrenade,
    ensures
        pretty_of(*event) == Some(l@),
{
    match event {
        LogEvent::SvGrenade { player, grenade } => {
            let mut t = String::from_str(" sv_throw_");
            t.append(grenade.as_str());
            let runs = vec![name_run_of(player), plain_text(t)];
            let l = line("text-zinc-500", runs);
            assert(run_views(l.runs@) =~= pretty_of(*event).unwrap().1);
            l
        },
        _ => bare_line(Vec::new()),
    }
}

fn draw_blinded(event: &LogEvent) -> (l: PrettyLine)
    requires
        *event is Blinded,
    ensures
        pretty_of(*event) == Some(l@),
{
    match event {
        LogEvent::Blinded { attacker, victim, duration_hundredths } => {
            let mut t = String::new();
            append_two_decimals(&mut t, *duration_hundredths as u64);
            t.append("s");
            let runs = vec![
                name_run_of(attacker),
                plain_run(" blinded "),
                name_run_of(victim),
                plain_run(" for "),
                text_run("text-yellow-400", t),
            ];
            let l = line("text-zinc-300", runs);
            assert(run_views(l.runs@) =~= pretty_of(*event).unwrap().1);
            l
        },
        _ => bare_line(Vec::new()),
    }
}

fn draw_match_status(event: &LogEvent) -> (l: PrettyLine)
    requires
        *event is MatchStatus,
    ensures
        pretty_of(*event) == Some(l@),
{
    match event {
        LogEvent::MatchStatus { team, team_name } => {
            let mut runs = vec![label_run(*team)];
            match team_name {
                Some(n) => {
                    runs.push(plain_run(" playing "));
                    runs.push(text_run("text-zinc-200", n.clone()));
                },
                None => {
                    runs.push(plain_run(" unset"));
                },
            }
            let l = line("text-zinc-300", runs);
            assert(run_views(l.runs@) =~= pretty_of(*event).unwrap().1);
            l
        },
        _ => bare_line(Vec::new()),
    }
}

fn draw_freeze_period(event: &LogEvent) -> (l: PrettyLine)
    requires
        *event is FreezePeriod,
    ensures
        pretty_of(*event) == Some(l@),
{
    match event {
        LogEvent::FreezePeriod => {
            let l = line("text-zinc-500", vec![plain_run("[FREEZE] Starting Freeze period")]);
            assert(run_views(l.runs@) =~= pretty_of(*event).unwrap().1);
            l
        },
        _ => bare_line(Vec::new()),
    }
}

fn draw_match_start(event: &LogEvent) -> (l: PrettyLine)
    requires
        *event is MatchStart,
    ensures
        pretty_of(*event) == Some(l@),
{
    match event {
        LogEvent::MatchStart { map } => {
            let runs = vec![
                run("text-green-400", "[MATCH]"),
                plain_run(" started on "),
                text_run("text-zinc-200", map.clone()),
            ];
            let l = line("font-semibold", runs);
            assert(run_views(l.runs@) =~= pretty_of(*event).unwrap().1);
            l
        },
        _ => bare_line(Vec::new()),
    }
}

fn draw_team_score(event: &LogEvent) -> (l: PrettyLine)
    requires
        *event is TeamScore,
    ensures
        pretty_of(*event) == Some(l@),
{
    match event {
        LogEvent::TeamScore { team, score, players } => {
            let mut t = String::from_str(" with ");
            append_number(&mut t, *players as u64);
            t.append(" players");
            let runs = vec![
                label_run(*team),
                plain_run(" scored "),
                text_run("text-zinc-100 font-semibold", number_text(*score as u64)),
                plain_text(t),
            ];
            let l = line("text-zinc-300", runs);
            assert(run_views(l.runs@) =~= pretty_of(*event).unwrap().1);
            l
        },
        _ => bare_line(Vec::new()),
    }
}

fn draw_server_cvar(event: &LogEvent) -> (l: PrettyLine)
    requires
        *event is ServerCvar,
    ensures
        pretty_of(*event) == Some(l@),
{
    match event {
        LogEvent::ServerCvar { name, value } => {
            let runs = vec![
                run("text-zinc-500", "server_cvar"),
                plain_run(" "),
                text_run("text-zinc-200", name.clone()),
                plain_run(" = "),
                text_run("text-zinc-400", value.clone()),
            ];
            let l = line("text-zinc-300", runs);
            assert(run_views(l.runs@) =~= pretty_of(*event).unwrap().1);
            l
        },
        _ => bare_line(Vec::new()),
    }
}

fn draw_bomb_death(event: &LogEvent) -> (l: PrettyLine)
    requires
        *event is BombDeath,
    ensures
        pretty_of(*event) == Some(l@),
{
    match event {
        LogEvent::BombDeath { player } => {
            let runs = vec![name_run_of(player), plain_run(" was killed by the bomb")];
            let l = line("text-zinc-300", runs);
            assert(run_views(l.runs@) =~= pretty_of(*event).unwrap().1);
            l
        },
        _ => bare_line(Vec::new()),
    }
}

fn draw_round_accolade(event: &LogEvent) -> (l: PrettyLine)
    requires
        *event is RoundAccolade,
    ensures
        pretty_of(*event) == Some(l@),
{
    match event {
        LogEvent::RoundAccolade { category, player, value_hundredths, position } => {
            let mut t = String::from_str(" (");
            append_two_decimals(&mut t, *value_hundredths);
            t.append(") [#");
            append_number(&mut t, *position as u64);
            t.append("]");
            let runs = vec![
                run("text-yellow-400 font-semibold", "[ACCOLADE]"),
                plain_run(" "),
                name_run_of(player),
                plain_run(": "),
                text_run("text-zinc-300", category.clone()),
                plain_text(t),
            ];
            let l = line("text-zinc-300", runs);
            assert(run_views(l.runs@) =~= pretty_of(*event).unwrap().1);
            l
        },
        _ => bare_line(Vec::new()),
    }
}

fn draw_server_cvar_dump(event: &LogEvent) -> (l: PrettyLine)
    requires
        *event is ServerCvarDump,
    ensures
        pretty_of(*event) == Some(l@),
{
    match event {
        LogEvent::ServerCvarDump { cvars } => {
            let mut t = String::from_str(" received ");
            append_number(&mut t, cvars.len() as u64);
            t.append(" server variables");
            let runs = vec![run("text-zinc-500", "[CVARS]"), plain_text(t)];
            let l = line("text-zinc-300", runs);
            assert(run_views(l.runs@) =~= pretty_of(*event).unwrap().1);
            l
        },
        _ => bare_line(Vec::new()),
    }
}

fn draw_log_file(event: &LogEvent) -> (l: PrettyLine)
    requires
        *event is LogFile,
    ensures
        pretty_of(*event) == Some(l@),
{
    match event {
        LogEvent::LogFile { started } => {
            let t = if *started {
                plain_run("[LOG] file started")
            } else {
                plain_run("[LOG] file closed")
            };
            let l = line("text-zinc-500", vec![t]);
            assert(run_views(l.runs@) =~= pretty_of(*event).unwrap().1);
            l
        },
        _ => bare_line(Vec::new()),
    }
}

fn draw_map_loading(event: &LogEvent) -> (l: PrettyLine)
    requires
        *event is MapLoading,
    ensures
        pretty_of(*event) == Some(l@),
{
    match event {
        LogEvent::MapLoading { map } => {
            let mut t = String::from_str(" loading ");
            t.append(map.as_str());
            let runs = vec![run("text-cyan-400", "[MAP]"), plain_text(t)];
            let l = line("text-zinc-300", runs);
            assert(run_views(l.runs@) =~= pretty_of(*event).unwrap().1);
            l
        },
        _ => bare_line(Vec::new()),
    }
}

fn draw_server_started(event: &LogEvent) -> (l: PrettyLine)
    requires
        *event is ServerStarted,
    ensures
        pretty_of(*event) == Some(l@),
{
    match event {
        LogEvent::ServerStarted => {
            let l = line("text-green-400", vec![plain_run("[SERVER] started")]);
            assert(run_views(l.runs@) =~= pretty_of(*event).unwrap().1);
            l
        },
        _ => bare_line(Vec::new()),
    }
}

fn draw_game_over(event: &LogEvent) -> (l: PrettyLine)
    requires
        *event is GameOver,
    ensures
        pretty_of(*event) == Some(l@),
{
    match event {
        LogEvent::GameOver { mode, map, t_score, ct_score, minutes } => {
            let mut a = String::from_str(" ");
            a.append(mode.as_str());
            a.append(" ");
            a.append(map.as_str());
            a.append(" ");
            let mut b = String::from_str(" after ");
            append_number(&mut b, *minutes as u64);
            b.append(" min");
            let runs = vec![
                run("text-yellow-400", "[GAME OVER]"),
                plain_text(a),
                text_run("text-red-400", number_text(*t_score as u64)),
                plain_run(":"),
                text_run("text-blue-400", number_text(*ct_score as u64)),
                plain_text(b),
            ];
            let l = line("font-semibold", runs);
            assert(run_views(l.runs@) =~= pretty_of(*event).unwrap().1);
            l
        },
        _ => bare_line(Vec::new()),
    }
}

fn draw_molotov_spawn(event: &LogEvent) -> (l: PrettyLine)
    requires
        *event is MolotovSpawn,
    ensures
        pretty_of(*event) == Some(l@),
{
    match event {
        LogEvent::MolotovSpawn => {
            let runs = vec![run("text-yellow-400 font-semibold", "Molotov"), plain_run(" spawned")];
            let l = line("text-zinc-300", runs);
            assert(run_views(l.runs@) =~= pretty_of(*event).unwrap().1);
            l
        },
        _ => bare_line(Vec::new()),
    }
}

fn draw_ignored(event: &LogEvent) -> (l: PrettyLine)
    requires
        *event is Ignored,
    ensures
        pretty_of(*event) == Some(l@),
{
    match event {
        LogEvent::Ignored => {
            let l = line("text-zinc-600", vec![plain_run("[IGNORED]")]);
            assert(run_views(l.runs@) =~= pretty_of(*event).unwrap().1);
            l
        },
        _ => bare_line(Vec::new()),
    }
}

fn draw_unknown(event: &LogEvent) -> (l: PrettyLine)
    requires
        *event is Unknown,
    ensures
        pretty_of(*event) == Some(l@),
{
    match event {
        LogEvent::Unknown => {
            let l = line("text-zinc-600", vec![plain_run("[UNKNOWN]")]);
            assert(run_views(l.runs@) =~= pretty_of(*event).unwrap().1);
            l
        },
        _ => bare_line(Vec::new()),
    }
}

fn draw_rcon(event: &LogEvent) -> (l: PrettyLine)
    requires
        *event is Rcon,
    ensures
        pretty_of(*event) == Some(l@),
{
    match event {
        LogEvent::Rcon { addr, command } => {
            let mut t = String::from_str("[RCON] ");
            t.append(addr.as_str());
            t.append(": ");
            t.append(command.as_str());
            let l = line("text-cyan-400", vec![plain_text(t)]);
            assert(run_views(l.runs@) =~= pretty_of(*event).unwrap().1);
            l
        },
        _ => bare_line(Vec::new()),
    }
}

/// In a line about two players, each player stands in their own place and
/// colour: the attacker (or assister) first, the victim after the verb, each
/// name in the colour of that player's team.
pub proof fn law_players_in_their_places(e: LogEvent)
    ensures
        e matches LogEvent::Assist { assister, victim } ==> pretty_of(e) matches Some(v)
            && v.1[0] == (team_text_class_of(team_of(assister.team)), assister.name@)
            && v.1[1].1 == " assisted killing "@
            && v.1[2] == (team_text_class_of(team_of(victim.team)), victim.name@),
        e matches LogEvent::Attacked { attacker, victim, .. } ==> pretty_of(e) matches Some(v)
            && v.1[0] == (team_text_class_of(team_of(attacker.team)), attacker.name@)
            && v.1[1].1 == " hit "@
            && v.1[2] == (team_text_class_of(team_of(victim.team)), victim.name@),
        e matches LogEvent::Kill { attacker, victim, .. } ==> pretty_of(e) matches Some(v)
            && v.1[0] == (team_text_class_of(team_of(attacker.team)), attacker.name@)
            && v.1[1].1 == " killed "@
            && v.1[2] == (team_text_class_of(team_of(victim.team)), victim.name@),
        e matches LogEvent::Blinded { attacker, victim, .. } ==> pretty_of(e) matches Some(v)
            && v.1[0] == (team_text_class_of(team_of(attacker.team)), attacker.name@)
            && v.1[1].1 == " blinded "@
            && v.1[2] == (team_text_class_of(team_of(victim.team)), victim.name@),
{
}

/// The colour of a row of a round summary, by the row's team number:
/// terrorists (`2`) red, counter-terrorists (`3`) blue, others grey.
pub open spec fn roster_team_class_of(team: i32) -> Seq<char> {
    if team == 2 {
        "text-red-400"@
    } else if team == 3 {
        "text-blue-400"@
    } else {
        "text-zinc-400"@
    }
}

/// The colour of a row of a round summary.
pub fn roster_team_class(team: i32) -> (r: String)
    ensures
        r@ == roster_team_class_of(team),
{
    if team == 2 {
        String::from_str("text-red-400")
    } else if team == 3 {
        String::from_str("text-blue-400")
    } else {
        String::from_str("text-zinc-400")
    }
}

/// How a live log event is drawn in the web view.
pub fn pretty_log(event: &LogEvent) -> (r: PrettyView)
    ensures
        match pretty_of(*event) {
            Some(v) => r matches PrettyView::Line(l) && l@ == v,
            None => r is RoundTable,
        },
{
    match event {
        LogEvent::Attacked { .. } => PrettyView::Line(draw_attacked(event)),
        LogEvent::Kill { .. } => PrettyView::Line(draw_kill(event)),
        LogEvent::Chat { .. } => PrettyView::Line(draw_chat(event)),
        LogEvent::ScoreUpdate { .. } => PrettyView::Line(draw_score_update(event)),
        LogEvent::RoundWin { .. } => PrettyView::Line(draw_round_win(event)),
        LogEvent::TeamSwitch { .. } => PrettyView::Line(draw_team_switch(event)),
        LogEvent::BombEvent { .. } => PrettyView::Line(draw_bomb_event(event)),
        LogEvent::Purchase { .. } => PrettyView::Line(draw_purchase(event)),
        LogEvent::Connection { .. } => PrettyView::Line(draw_connection(event)),
        LogEvent::Suicide { .. } => PrettyView::Line(draw_suicide(event)),
        LogEvent::WorldTrigger { .. } => PrettyView::Line(draw_world_trigger(event)),
        LogEvent::Technical { .. } => PrettyView::Line(draw_technical(event)),
        LogEvent::LeftBuyZone { .. } => PrettyView::Line(draw_left_buy_zone(event)),
        LogEvent::RoundStats { .. } => PrettyView::RoundTable,
        LogEvent::Assist { .. } => PrettyView::Line(draw_assist(event)),
        LogEvent::Grenade { .. } => PrettyView::Line(draw_grenade(event)),
        LogEvent::SvGrenade { .. } => PrettyView::Line(draw_sv_grenade(event)),
        LogEvent::Blinded { .. } => PrettyView::Line(draw_blinded(event)),
        LogEvent::MatchStatus { .. } => PrettyView::Line(draw_match_status(event)),
        LogEvent::FreezePeriod => PrettyView::Line(draw_freeze_period(event)),
        LogEvent::MatchStart { .. } => PrettyView::Line(draw_match_start(event)),
        LogEvent::TeamScore { .. } => PrettyView::Line(draw_team_score(event)),
        LogEvent::ServerCvar { .. } => PrettyView::Line(draw_server_cvar(event)),
        LogEvent::BombDeath { .. } => PrettyView::Line(draw_bomb_death(event)),
        LogEvent::RoundAccolade { .. } => PrettyView::Line(draw_round_accolade(event)),
        LogEvent::ServerCvarDump { .. } => PrettyView::Line(draw_server_cvar_dump(event)),
        LogEvent::LogFile { .. } => PrettyView::Line(draw_log_file(event)),
        LogEvent::MapLoading { .. } => PrettyView::Line(draw_map_loading(event)),
        LogEvent::ServerStarted => PrettyView::Line(draw_server_started(event)),
        LogEvent::GameOver { .. } => PrettyView::Line(draw_game_over(event)),
        LogEvent::MolotovSpawn => PrettyView::Line(draw_molotov_spawn(event)),
        LogEvent::Ignored => PrettyView::Line(draw_ignored(event)),
        LogEvent::Unknown => PrettyView::Line(draw_unknown(event)),
        LogEvent::Rcon { .. } => PrettyView::Line(draw_rcon(event)),
    }
}

} // verus!
