//! The server commands the RCON overview sends: map changes, chat, match
//! and bot control, configuration presets and player moderation.
use vstd::prelude::*;
use crate::players::{Player, Team};
use crate::session::string_views;
use crate::text::{
    chars_of, decimal, decimal_chars, starts_with, starts_with_chars, string_from_chars, trim,
    trim_chars,
};

verus! {

fn push_decimal(s: &mut String, n: u64)
    ensures
        final(s)@ == old(s)@ + decimal(n as nat),
{
    let d = string_from_chars(&decimal_chars(n));
    s.append(d.as_str());
}

/// `prefix` followed by `arg`.
fn prefixed(prefix: &str, arg: &str) -> (r: String)
    ensures
        r@ == prefix@ + arg@,
{
    let mut s = String::from_str(prefix);
    s.append(arg);
    s
}

/// The command that changes the map.
pub fn changelevel_command(map: &str) -> (r: String)
    ensures
        r@ == "changelevel "@ + map@,
{
    prefixed("changelevel ", map)
}

/// The command for a typed entry: `prefix` and the entry without
/// surrounding whitespace; nothing for a blank entry.
pub open spec fn typed_command(prefix: Seq<char>, entry: Seq<char>) -> Option<Seq<char>> {
    if trim(entry).len() == 0 {
        None
    } else {
        Some(prefix + trim(entry))
    }
}

fn typed(prefix: &str, entry: &str) -> (r: Option<String>)
    ensures
        match r {
            Some(c) => typed_command(prefix@, entry@) == Some(c@),
            None => typed_command(prefix@, entry@) is None,
        },
{
    let t = trim_chars(&chars_of(entry));
    if t.len() == 0 {
        None
    } else {
        let arg = string_from_chars(&t);
        Some(prefixed(prefix, arg.as_str()))
    }
}

/// The map change for a typed map name.
pub fn typed_changelevel(entry: &str) -> (r: Option<String>)
    ensures
        match r {
            Some(c) => typed_command("changelevel "@, entry@) == Some(c@),
            None => typed_command("changelevel "@, entry@) is None,
        },
{
    typed("changelevel ", entry)
}

/// The chat message for a typed line.
pub fn say_command(entry: &str) -> (r: Option<String>)
    ensures
        match r {
            Some(c) => typed_command("say "@, entry@) == Some(c@),
            None => typed_command("say "@, entry@) is None,
        },
{
    typed("say ", entry)
}

/// The command that runs a typed configuration file.
pub fn exec_command(entry: &str) -> (r: Option<String>)
    ensures
        match r {
            Some(c) => typed_command("exec "@, entry@) == Some(c@),
            None => typed_command("exec "@, entry@) is None,
        },
{
    typed("exec ", entry)
}

/// The command that kicks the player in slot `id`.
pub fn kick_command(id: u16) -> (r: String)
    ensures
        r@ == "kickid "@ + decimal(id as nat),
{
    let mut s = String::from_str("kickid ");
    push_decimal(&mut s, id as u64);
    s
}

/// The command that kills the player in slot `id`.
pub fn kill_command(id: u16) -> (r: String)
    ensures
        r@ == "kill "@ + decimal(id as nat),
{
    let mut s = String::from_str("kill ");
    push_decimal(&mut s, id as u64);
    s
}

/// The command that bans a Steam ID for `minutes` (`0`: for good).
pub fn ban_command(minutes: u32, steamid: &str) -> (r: String)
    ensures
        r@ == "banid "@ + decimal(minutes as nat) + " "@ + steamid@,
{
    let mut s = String::from_str("banid ");
    push_decimal(&mut s, minutes as u64);
    s.append(" ");
    s.append(steamid);
    s
}

/// The command that restarts the game.
pub fn restart_command() -> (r: String)
    ensures
        r@ == "mp_restartgame 1"@,
{
    String::from_str("mp_restartgame 1")
}

/// The command of the pause button: unpause a paused match, pause a
/// running one.
pub fn pause_toggle_command(paused: bool) -> (r: String)
    ensures
        r@ == if paused {
            "mp_unpause_match"@
        } else {
            "mp_pause_match"@
        },
{
    if paused {
        String::from_str("mp_unpause_match")
    } else {
        String::from_str("mp_pause_match")
    }
}

/// A configuration the overview can run.
#[derive(Debug, Clone, Copy, PartialEq, Eq, Structural)]
pub enum ConfigPreset {
    ArmsRace,
    Competitive,
    Casual,
    Deathmatch,
    Tournament,
}

/// The command that runs a preset.
pub open spec fn preset_command_of(p: ConfigPreset) -> Seq<char> {
    match p {
        ConfigPreset::ArmsRace => "exec gamemode_armsrace.cfg"@,
        ConfigPreset::Competitive => "exec gamemode_competitive.cfg"@,
        ConfigPreset::Casual => "exec gamemode_casual.cfg"@,
        ConfigPreset::Deathmatch => "exec gamemode_deathmatch.cfg"@,
        ConfigPreset::Tournament => "exec turnier.cfg"@,
    }
}

/// The command that runs a preset.
pub fn preset_command(p: ConfigPreset) -> (r: String)
    ensures
        r@ == preset_command_of(p),
{
    match p {
        ConfigPreset::ArmsRace => String::from_str("exec gamemode_armsrace.cfg"),
        ConfigPreset::Competitive => String::from_str("exec gamemode_competitive.cfg"),
        ConfigPreset::Casual => String::from_str("exec gamemode_casual.cfg"),
        ConfigPreset::Deathmatch => String::from_str("exec gamemode_deathmatch.cfg"),
        ConfigPreset::Tournament => String::from_str("exec turnier.cfg"),
    }
}

/// The configuration file a preset runs.
pub open spec fn preset_file(p: ConfigPreset) -> Seq<char> {
    match p {
        ConfigPreset::ArmsRace => "gamemode_armsrace.cfg"@,
        ConfigPreset::Competitive => "gamemode_competitive.cfg"@,
        ConfigPreset::Casual => "gamemode_casual.cfg"@,
        ConfigPreset::Deathmatch => "gamemode_deathmatch.cfg"@,
        ConfigPreset::Tournament => "turnier.cfg"@,
    }
}

/// Each preset executes its own configuration file: the command is `exec `
/// and the preset's file, and two different presets never send the same
/// command.
pub proof fn law_presets_run_their_own_file(p: ConfigPreset, q: ConfigPreset)
    ensures
        preset_command_of(p) == "exec "@ + preset_file(p),
        p != q ==> preset_command_of(p) != preset_command_of(q),
{
    reveal_strlit("exec gamemode_armsrace.cfg");
    reveal_strlit("exec gamemode_competitive.cfg");
    reveal_strlit("exec gamemode_casual.cfg");
    reveal_strlit("exec gamemode_deathmatch.cfg");
    reveal_strlit("exec turnier.cfg");
    reveal_strlit("gamemode_armsrace.cfg");
    reveal_strlit("gamemode_competitive.cfg");
    reveal_strlit("gamemode_casual.cfg");
    reveal_strlit("gamemode_deathmatch.cfg");
    reveal_strlit("turnier.cfg");
    reveal_strlit("exec ");
    assert(preset_command_of(p) =~= "exec "@ + preset_file(p));
    if p != q {
        let a = preset_command_of(p);
        let b = preset_command_of(q);
        // The commands differ in length or at the character after
        // `exec gamemode_`.
        if a.len() == b.len() {
            assert(a[14] != b[14] || a[5] != b[5]);
        }
    }
}

/// What to do with bots.
#[derive(Debug, Clone, Copy, PartialEq, Eq, Structural)]
pub enum BotAction {
    Add,
    Kick,
    Kill,
}

/// Which bots: all, or one side's.
#[derive(Debug, Clone, Copy, PartialEq, Eq, Structural)]
pub enum BotSide {
    Any,
    T,
    CT,
}

/// The bot command: `bot_add`, `bot_kick` or `bot_kill`, with ` T` or ` CT`
/// for one side.
pub open spec fn bot_command_of(a: BotAction, side: BotSide) -> Seq<char> {
    let base = match a {
        BotAction::Add => "bot_add"@,
        BotAction::Kick => "bot_kick"@,
        BotAction::Kill => "bot_kill"@,
    };
    match side {
        BotSide::Any => base,
        BotSide::T => base + " T"@,
        BotSide::CT => base + " CT"@,
    }
}

/// The bot command.
pub fn bot_command(a: BotAction, side: BotSide) -> (r: String)
    ensures
        r@ == bot_command_of(a, side),
{
    let mut s = match a {
        BotAction::Add => String::from_str("bot_add"),
        BotAction::Kick => String::from_str("bot_kick"),
        BotAction::Kill => String::from_str("bot_kill"),
    };
    match side {
        BotSide::Any => {},
        BotSide::T => {
            s.append(" T");
        },
        BotSide::CT => {
            s.append(" CT");
        },
    }
    s
}

/// The command that sets the bots' difficulty.
pub fn bot_difficulty_command(level: u8) -> (r: String)
    ensures
        r@ == "bot_difficulty "@ + decimal(level as nat),
{
    let mut s = String::from_str("bot_difficulty ");
    push_decimal(&mut s, level as u64);
    s
}

/// The maps of `maps` whose names start with `prefix`, in order.
pub open spec fn maps_with_prefix(maps: Seq<Seq<char>>, prefix: Seq<char>) -> Seq<Seq<char>>
    decreases maps.len(),
{
    if maps.len() == 0 {
        Seq::empty()
    } else {
        let rest = maps_with_prefix(maps.drop_last(), prefix);
        if starts_with(maps.last(), prefix) {
            rest.push(maps.last())
        } else {
            rest
        }
    }
}

/// The maps of one group of the map selector (`de_`, `cs_` or `ar_`).
pub fn maps_in_group(maps: &Vec<String>, prefix: &str) -> (r: Vec<String>)
    ensures
        string_views(r@) == maps_with_prefix(string_views(maps@), prefix@),
{
    let p = chars_of(prefix);
    let mut r: Vec<String> = Vec::new();
    for i in 0..maps.len()
        invariant
            p@ == prefix@,
            string_views(r@) == maps_with_prefix(string_views(maps@).take(i as int), prefix@),
    {
        let ghost prev = r@;
        let ghost upto = string_views(maps@).take(i + 1);
        assert(upto.drop_last() =~= string_views(maps@).take(i as int));
        assert(upto.last() == maps@[i as int]@);
        if starts_with_chars(&chars_of(maps[i].as_str()), &p) {
            r.push(maps[i].clone());
            assert(string_views(r@) =~= string_views(prev).push(maps@[i as int]@));
        }
    }
    assert(string_views(maps@).take(maps@.len() as int) =~= string_views(maps@));
    r
}

/// Whether opening the map selector fetches the map list: only when the
/// selector opens and no maps are known yet.
pub fn fetches_maps_on_toggle(was_open: bool, maps_known: usize) -> (r: bool)
    ensures
        r == (!was_open && maps_known == 0),
{
    !was_open && maps_known == 0
}

/// The heading of a team's column.
pub open spec fn team_title_of(t: Team) -> Seq<char> {
    match t {
        Team::CT => "COUNTER-TERRORISTS"@,
        Team::Terrorist => "TERRORISTS"@,
        _ => "UNKNOWN"@,
    }
}

/// The heading of a team's column.
pub fn team_title(t: Team) -> (r: String)
    ensures
        r@ == team_title_of(t),
{
    match t {
        Team::CT => String::from_str("COUNTER-TERRORISTS"),
        Team::Terrorist => String::from_str("TERRORISTS"),
        _ => String::from_str("UNKNOWN"),
    }
}

/// The short label of a team in the live log view.
pub open spec fn team_label_of(t: Team) -> Seq<char> {
    match t {
        Team::CT => "CT"@,
        Team::Terrorist => "TERRORIST"@,
        Team::Spectator => "SPECTATOR"@,
        Team::Unassigned => "UNASSIGNED"@,
        Team::Unknown => "UNKNOWN"@,
    }
}

/// The short label of a team in the live log view.
pub fn team_label(t: Team) -> (r: String)
    ensures
        r@ == team_label_of(t),
{
    match t {
        Team::CT => String::from_str("CT"),
        Team::Terrorist => String::from_str("TERRORIST"),
        Team::Spectator => String::from_str("SPECTATOR"),
        Team::Unassigned => String::from_str("UNASSIGNED"),
        Team::Unknown => String::from_str("UNKNOWN"),
    }
}

/// The colour of a team's names in the live log view.
pub open spec fn team_text_class_of(t: Team) -> Seq<char> {
    match t {
        Team::CT => "text-blue-400"@,
        Team::Terrorist => "text-red-400"@,
        Team::Spectator => "text-zinc-400"@,
        Team::Unassigned => "text-zinc-500"@,
        Team::Unknown => "text-zinc-500"@,
    }
}

/// The colour of a team's names in the live log view.
pub fn team_text_class(t: Team) -> (r: String)
    ensures
        r@ == team_text_class_of(t),
{
    match t {
        Team::CT => String::from_str("text-blue-400"),
        Team::Terrorist => String::from_str("text-red-400"),
        Team::Spectator => String::from_str("text-zinc-400"),
        Team::Unassigned => String::from_str("text-zinc-500"),
        Team::Unknown => String::from_str("text-zinc-500"),
    }
}

/// The name shown for a player: `UNKNOWN` for a player without one.
pub open spec fn shown_name_of(name: Seq<char>) -> Seq<char> {
    if name.len() == 0 {
        "UNKNOWN"@
    } else {
        name
    }
}

/// The name shown for a player.
pub fn shown_name(p: &Player) -> (r: String)
    ensures
        r@ == shown_name_of(p.name@),
{
    if chars_of(p.name.as_str()).len() == 0 {
        String::from_str("UNKNOWN")
    } else {
        p.name.clone()
    }
}

/// How a round win is announced: `CT WON`, `TERRORIST WON`, or
/// `UNKNOWN WON` for another side.
pub open spec fn round_winner_text_of(t: Team) -> Seq<char> {
    match t {
        Team::CT => "CT WON"@,
        Team::Terrorist => "TERRORIST WON"@,
        _ => "UNKNOWN WON"@,
    }
}

/// How a round win is announced.
pub fn round_winner_text(t: Team) -> (r: String)
    ensures
        r@ == round_winner_text_of(t),
{
    match t {
        Team::CT => String::from_str("CT WON"),
        Team::Terrorist => String::from_str("TERRORIST WON"),
        _ => String::from_str("UNKNOWN WON"),
    }
}

/// A reason code as shown: every `_` becomes a space.
pub open spec fn reason_text_of(reason: Seq<char>) -> Seq<char> {
    reason.map_values(|c: char| if c == '_' { ' ' } else { c })
}

/// A reason code as shown (`str::replace('_', " ")`).
pub fn reason_text(reason: &str) -> (r: String)
    ensures
        r@ == reason_text_of(reason@),
{
    let v = chars_of(reason);
    let mut out: Vec<char> = Vec::new();
    for i in 0..v.len()
        invariant
            v@ == reason@,
            out@ == reason_text_of(v@.take(i as int)),
    {
        let c = if v[i] == '_' { ' ' } else { v[i] };
        out.push(c);
        assert(reason_text_of(v@.take(i + 1)) =~= reason_text_of(v@.take(i as int)).push(c));
    }
    assert(v@.take(v@.len() as int) =~= v@);
    string_from_chars(&out)
}

} // verus!
