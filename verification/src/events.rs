//! Events read from a game server's live log, as far as the RCON session
//! acts on them.
use vstd::prelude::*;

verus! {

/// A team as the live log names it.
#[derive(Debug, Clone, Copy, PartialEq, Eq, Structural)]
pub enum LogTeam {
    CT,
    Terrorist,
    Spectator,
    Unassigned,
    Unknown,
}

/// A player as a log line names them.
#[derive(Debug, Clone, PartialEq)]
pub struct LogPlayer {
    pub name: String,
    pub id: u16,
    pub steamid: String,
    pub team: LogTeam,
}

/// One player row of a round summary: the player's slot and team number
/// (`2` terrorists, `3` counter-terrorists).
#[derive(Debug, Clone, Copy, PartialEq, Eq, Structural)]
pub struct RosterEntry {
    pub id: u16,
    pub team: i32,
}

/// The summary the server logs at the end of a round.
#[derive(Debug, Clone, PartialEq)]
pub struct RoundStats {
    pub score_ct: u16,
    pub score_t: u16,
    /// The roster; where a slot occurs twice, the later row counts.
    pub players: Vec<RosterEntry>,
}

/// A live log event.
///
/// Amounts the log writes with decimals (a blinding's length, an accolade's
/// value) are held in hundredths.
#[derive(Debug, Clone, PartialEq)]
pub enum LogEvent {
    Attacked { attacker: LogPlayer, victim: LogPlayer, damage: u32, weapon: String, hitgroup: String },
    Kill {
        attacker: LogPlayer,
        victim: LogPlayer,
        weapon: String,
        headshot: bool,
        penetrated: bool,
        through_smoke: bool,
        attacker_in_air: bool,
    },
    Chat { player: LogPlayer, msg: String, is_team_chat: bool },
    ScoreUpdate { t1: u32, t2: u32, map: String, rounds: i32 },
    RoundWin { winner_side: LogTeam, reason: String, ct_score: u32, t_score: u32 },
    TeamSwitch { player: LogPlayer, from: LogTeam },
    BombEvent { player: LogPlayer, event: String, site: Option<String> },
    Purchase { player: LogPlayer, item: String },
    Connection { player: LogPlayer, action: String, info: Option<String> },
    Suicide { player: LogPlayer, weapon: String },
    WorldTrigger { event: String },
    Technical { name: String, action: String },
    LeftBuyZone { player: LogPlayer, items: Vec<String> },
    RoundStats { roundstats: RoundStats },
    Assist { assister: LogPlayer, victim: LogPlayer },
    Grenade { player: LogPlayer, grenade: String },
    SvGrenade { player: LogPlayer, grenade: String },
    Blinded { attacker: LogPlayer, victim: LogPlayer, duration_hundredths: u32 },
    MatchStatus { team: LogTeam, team_name: Option<String> },
    FreezePeriod,
    MatchStart { map: String },
    TeamScore { team: LogTeam, score: u32, players: u32 },
    ServerCvar { name: String, value: String },
    BombDeath { player: LogPlayer },
    RoundAccolade { category: String, player: LogPlayer, value_hundredths: u64, position: u32 },
    ServerCvarDump { cvars: Vec<(String, String)> },
    LogFile { started: bool },
    MapLoading { map: String },
    ServerStarted,
    GameOver { mode: String, map: String, t_score: u32, ct_score: u32, minutes: u32 },
    MolotovSpawn,
    Ignored,
    Unknown,
    Rcon { addr: String, command: String },
}

/// The kind of a log line, by which the console filters what it shows.
#[derive(Debug, Clone, Copy, PartialEq, Eq, Structural)]
pub enum LogType {
    Attacked,
    Kill,
    Chat,
    ScoreUpdate,
    RoundWin,
    TeamSwitch,
    BombEvent,
    Purchase,
    Connection,
    Suicide,
    WorldTrigger,
    Technical,
    LeftBuyZone,
    RoundStats,
    Assist,
    Grenade,
    SvGrenade,
    Blinded,
    MatchStatus,
    FreezePeriod,
    MatchStart,
    TeamScore,
    ServerCvar,
    BombDeath,
    RoundAccolade,
    ServerCvarDump,
    LogFile,
    MapLoading,
    ServerStarted,
    GameOver,
    MolotovSpawn,
    Ignored,
    Unknown,
    Rcon,
}

/// A log line with its kind and the event read from it.
#[derive(Debug, Clone, PartialEq)]
pub struct ParsedLine {
    pub raw: String,
    pub log_type: LogType,
    pub event: LogEvent,
}

/// The team number of each slot of a roster, later rows overriding earlier
/// ones.
pub open spec fn roster_map(s: Seq<RosterEntry>) -> Map<u16, i32>
    decreases s.len(),
{
    if s.len() == 0 {
        Map::empty()
    } else {
        roster_map(s.drop_last()).insert(s.last().id, s.last().team)
    }
}

} // verus!
