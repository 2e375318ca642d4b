//! The state of an RCON session and the decisions taken on live log events.
use vstd::prelude::*;
use crate::cvar::{CvarDatabase, CvarModel, index_of_name};
use crate::events::{LogEvent, LogTeam, ParsedLine};
use crate::players::RconPlayers;
use crate::score::TeamScore;
use crate::text::{
    ascii_lower_chars, ascii_lower_seq, chars_eq, chars_of, contains, contains_chars, decimal,
    decimal_chars, first_word, first_word_chars, lemma_lex_irreflexive, lemma_lex_total,
    lemma_lex_transitive, lex_less, lex_less_chars, lines, lines_chars, parse_unsigned,
    parse_unsigned_chars, starts_with, starts_with_chars, string_from_chars, trim, trim_chars,
};

verus! {

/// Connection state of an RCON client.
#[derive(Debug, Clone, Copy, PartialEq, Eq, Structural)]
pub enum RconStatus {
    Disconnected,
    Connecting,
    Authenticated,
    Error,
}

/// A line of the session's console.
#[derive(Debug, Clone, PartialEq)]
pub enum RconLogEvent {
    LiveLog(ParsedLine),
    RconResponse(String),
    Info(String),
}

/// A change to the session state.
#[derive(Debug, Clone, PartialEq)]
pub enum StateUpdate {
    Log(RconLogEvent),
    CommandHistory(String),
    LogEvent(ParsedLine),
}

/// A chat command addressed to the server admins.
#[derive(Debug, Clone, Copy, PartialEq, Eq, Structural)]
pub enum AdminCommand {
    Admin,
    Clear,
    Pause,
    UnPause,
}

/// The admin command a chat message from `player_name` gives: its first
/// word, in ASCII lower case, is `!admin`, `!pause` or `!unpause`; `!clear`
/// and `!solved` count only from the server console.
pub open spec fn admin_command_of(player_name: Seq<char>, msg: Seq<char>) -> Option<AdminCommand> {
    let w = ascii_lower_seq(first_word(msg));
    if w == "!admin"@ {
        Some(AdminCommand::Admin)
    } else if w == "!pause"@ {
        Some(AdminCommand::Pause)
    } else if w == "!unpause"@ {
        Some(AdminCommand::UnPause)
    } else if (w == "!clear"@ || w == "!solved"@) && player_name == "Console"@ {
        Some(AdminCommand::Clear)
    } else {
        None
    }
}

/// The admin command an event carries: only chat messages carry one.
pub open spec fn command_of_event(e: LogEvent) -> Option<AdminCommand> {
    match e {
        LogEvent::Chat { player, msg, .. } => admin_command_of(player.name@, msg@),
        _ => None,
    }
}

/// Whether `s` is exactly `lit`.
pub fn text_is(s: &str, lit: &str) -> (r: bool)
    ensures
        r == (s@ == lit@),
{
    chars_eq(&chars_of(s), &chars_of(lit))
}

/// The admin command an event carries, if any.
pub fn is_command(event: &LogEvent) -> (r: Option<AdminCommand>)
    ensures
        r == command_of_event(*event),
{
    match event {
        LogEvent::Chat { player, msg, .. } => {
            let w = ascii_lower_chars(&first_word_chars(&chars_of(msg.as_str())));
            if chars_eq(&w, &chars_of("!admin")) {
                Some(AdminCommand::Admin)
            } else if chars_eq(&w, &chars_of("!pause")) {
                Some(AdminCommand::Pause)
            } else if chars_eq(&w, &chars_of("!unpause")) {
                Some(AdminCommand::UnPause)
            } else if (chars_eq(&w, &chars_of("!clear")) || chars_eq(&w, &chars_of("!solved")))
                && text_is(player.name.as_str(), "Console") {
                Some(AdminCommand::Clear)
            } else {
                None
            }
        },
        _ => None,
    }
}

/// The command the session sends in answer to an admin command of the live
/// log: pausing and unpausing the match.
pub open spec fn admin_response_of(c: Option<AdminCommand>) -> Option<Seq<char>> {
    match c {
        Some(AdminCommand::Pause) => Some("mp_pause_match"@),
        Some(AdminCommand::UnPause) => Some("mp_unpause_match"@),
        _ => None,
    }
}

/// The command to send in answer to a live log event, if any.
pub fn admin_response(event: &LogEvent) -> (r: Option<String>)
    ensures
        match r {
            Some(s) => admin_response_of(command_of_event(*event)) == Some(s@),
            None => admin_response_of(command_of_event(*event)) is None,
        },
{
    match is_command(event) {
        Some(AdminCommand::Pause) => Some(String::from_str("mp_pause_match")),
        Some(AdminCommand::UnPause) => Some(String::from_str("mp_unpause_match")),
        _ => None,
    }
}

/// The state of one RCON session.
pub struct RconState {
    pub logs: Vec<RconLogEvent>,
    pub status: RconStatus,
    pub players: RconPlayers,
    pub match_paused: bool,
    pub score: TeamScore,
    pub maps: Vec<String>,
    pub team_name_ct: String,
    pub team_name_t: String,
    pub max_rounds: u8,
    pub need_attention: bool,
    pub cvar_db: Option<CvarDatabase>,
    pub command_history: Vec<String>,
}

/// The variables after setting `key` to `val`, where a variable of that name
/// exists.
pub open spec fn db_after_set(db: Seq<CvarModel>, key: Seq<char>, val: Seq<char>) -> Seq<CvarModel> {
    match index_of_name(db, key) {
        Some(i) => db.update(i, CvarModel { value: val, ..db[i] }),
        None => db,
    }
}

/// The round limit a server variable sets: `mp_maxrounds` read as a `u8`,
/// `0` where it does not parse.
pub open spec fn max_rounds_of(value: Seq<char>) -> u8 {
    match parse_unsigned(value, 255) {
        Some(v) => v as u8,
        None => 0,
    }
}

/// `t` is `s` after the live log event `e` (its console line aside).
pub open spec fn event_applied(s: RconState, t: RconState, e: LogEvent) -> bool {
    match e {
        LogEvent::Connection { player, action, .. } => if ascii_lower_seq(action@) == "disconnected"@ {
            &&& t == (RconState { logs: t.logs, players: t.players, ..s })
            &&& t.players@ == s.players@.remove(player.id)
        } else {
            t == (RconState { logs: t.logs, ..s })
        },
        LogEvent::TeamSwitch { player, .. } => {
            &&& t == (RconState { logs: t.logs, players: t.players, ..s })
            &&& t.players@ == s.players@.insert(player.id, crate::players::switched_player(player))
        },
        LogEvent::RoundStats { roundstats } => {
            &&& t == (RconState { logs: t.logs, players: t.players, score: t.score, ..s })
            &&& t.players@ == crate::players::players_after_stats(
                s.players@,
                crate::events::roster_map(roundstats.players@),
            )
            &&& t.score == (TeamScore {
                ct: crate::score::capped_score(roundstats.score_ct),
                t: crate::score::capped_score(roundstats.score_t),
                round: s.score.round,
            })
        },
        LogEvent::ScoreUpdate { rounds, .. } => {
            &&& t == (RconState { logs: t.logs, score: t.score, ..s })
            &&& t.score == (TeamScore { round: rounds, ..s.score })
        },
        LogEvent::MatchStatus { team, team_name } => match team_name {
            Some(n) => match team {
                LogTeam::CT => t == (RconState { logs: t.logs, team_name_ct: n, ..s }),
                LogTeam::Terrorist => t == (RconState { logs: t.logs, team_name_t: n, ..s }),
                _ => t == (RconState { logs: t.logs, ..s }),
            },
            None => t == (RconState { logs: t.logs, ..s }),
        },
        LogEvent::Technical { name, action } => if name@ == "Match"@ && action@ == "Pause Enabled"@ {
            t == (RconState { logs: t.logs, match_paused: true, ..s })
        } else if name@ == "Match"@ && action@ == "Pause Disabled"@ {
            t == (RconState { logs: t.logs, match_paused: false, ..s })
        } else {
            t == (RconState { logs: t.logs, ..s })
        },
        LogEvent::ServerCvar { name, value } => {
            &&& t == (RconState { logs: t.logs, max_rounds: t.max_rounds, cvar_db: t.cvar_db, ..s })
            &&& t.max_rounds == if name@ == "mp_maxrounds"@ {
                max_rounds_of(value@)
            } else {
                s.max_rounds
            }
            &&& match s.cvar_db {
                Some(db) => t.cvar_db matches Some(d) && d.view() == db_after_set(
                    db.view(),
                    name@,
                    value@,
                ),
                None => t.cvar_db is None,
            }
        },
        LogEvent::Chat { player, msg, .. } => match admin_command_of(player.name@, msg@) {
            Some(AdminCommand::Admin) => t == (RconState { logs: t.logs, need_attention: true, ..s }),
            Some(AdminCommand::Clear) => t == (RconState { logs: t.logs, need_attention: false, ..s }),
            _ => t == (RconState { logs: t.logs, ..s }),
        },
        _ => t == (RconState { logs: t.logs, ..s }),
    }
}

impl RconState {
    /// A fresh session: disconnected, nothing logged, no score, the CT team
    /// named `TeamA`.
    pub fn new() -> (r: RconState)
        ensures
            r.logs@.len() == 0,
            r.status == RconStatus::Disconnected,
            r.players@ == Map::<u16, crate::players::PlayerView>::empty(),
            !r.match_paused,
            r.score == (TeamScore { ct: 0, t: 0, round: 0 }),
            r.maps@.len() == 0,
            r.team_name_ct@ == "TeamA"@,
            r.team_name_t@.len() == 0,
            r.max_rounds == 0,
            !r.need_attention,
            r.cvar_db is None,
            r.command_history@.len() == 0,
    {
        RconState {
            logs: Vec::new(),
            status: RconStatus::Disconnected,
            players: RconPlayers::new(),
            match_paused: false,
            score: TeamScore { ct: 0, t: 0, round: 0 },
            maps: Vec::new(),
            team_name_ct: String::from_str("TeamA"),
            team_name_t: String::new(),
            max_rounds: 0,
            need_attention: false,
            cvar_db: None,
            command_history: Vec::new(),
        }
    }

    /// Applies one state update: a console line is appended, a command is
    /// added to the history, and a live log event is appended to the console
    /// and acted on as `event_applied` says.
    pub fn update(&mut self, update: StateUpdate)
        ensures
            match update {
                StateUpdate::Log(e) => {
                    &&& final(self).logs@ == old(self).logs@.push(e)
                    &&& *final(self) == (RconState { logs: final(self).logs, ..*old(self) })
                },
                StateUpdate::CommandHistory(c) => {
                    &&& final(self).command_history@ == old(self).command_history@.push(c)
                    &&& *final(self) == (RconState {
                        command_history: final(self).command_history,
                        ..*old(self)
                    })
                },
                StateUpdate::LogEvent(p) => {
                    &&& final(self).logs@ == old(self).logs@.push(RconLogEvent::LiveLog(p))
                    &&& event_applied(*old(self), *final(self), p.event)
                },
            },
    {
        match update {
            StateUpdate::Log(e) => {
                self.logs.push(e);
            },
            StateUpdate::CommandHistory(c) => {
                self.command_history.push(c);
            },
            StateUpdate::LogEvent(parsed) => {
                self.apply_event(&parsed.event);
                self.logs.push(RconLogEvent::LiveLog(parsed));
            },
        }
    }

    fn apply_event(&mut self, event: &LogEvent)
        ensures
            final(self).logs == old(self).logs,
            event_applied(*old(self), *final(self), *event),
    {
        match event {
            LogEvent::Connection { player, action, .. } => {
                let a = ascii_lower_chars(&chars_of(action.as_str()));
                if chars_eq(&a, &chars_of("disconnected")) {
                    self.players.remove_player(player.id);
                }
            },
            LogEvent::TeamSwitch { player, .. } => {
                self.players.update_with_team_switch(player);
            },
            LogEvent::RoundStats { roundstats } => {
                self.players.update_with_roundstats(roundstats);
                self.score.update_with_roundstats(roundstats);
            },
            LogEvent::ScoreUpdate { rounds, .. } => {
                self.score.update_with_score_update(*rounds);
            },
            LogEvent::MatchStatus { team, team_name } => {
                match team_name {
                    Some(n) => match team {
                        LogTeam::CT => {
                            self.team_name_ct = n.clone();
                        },
                        LogTeam::Terrorist => {
                            self.team_name_t = n.clone();
                        },
                        _ => {},
                    },
                    None => {},
                }
            },
            LogEvent::Technical { name, action } => {
                if text_is(name.as_str(), "Match") {
                    if text_is(action.as_str(), "Pause Enabled") {
                        self.match_paused = true;
                    } else if text_is(action.as_str(), "Pause Disabled") {
                        self.match_paused = false;
                    }
                }
            },
            LogEvent::ServerCvar { name, value } => {
                if text_is(name.as_str(), "mp_maxrounds") {
                    self.max_rounds = match parse_unsigned_chars(&chars_of(value.as_str()), 255) {
                        Some(v) => v as u8,
                        None => 0,
                    };
                }
                let db_opt = self.cvar_db.take();
                match db_opt {
                    Some(db) => {
                        let mut db = db;
                        db.update(name.as_str(), value.as_str());
                        self.cvar_db = Some(db);
                    },
                    None => {},
                }
            },
            LogEvent::Chat { .. } => {
                match is_command(event) {
                    Some(AdminCommand::Admin) => {
                        self.need_attention = true;
                    },
                    Some(AdminCommand::Clear) => {
                        self.need_attention = false;
                    },
                    _ => {},
                }
            },
            _ => {},
        }
    }

    /// Appends a line to the console.
    pub fn push_log(&mut self, event: RconLogEvent)
        ensures
            final(self).logs@ == old(self).logs@.push(event),
            *final(self) == (RconState { logs: final(self).logs, ..*old(self) }),
    {
        self.logs.push(event);
    }

    /// Takes the server's reply to `maps *`: the maps it lists replace the
    /// known ones; a failed request is noted on the console instead.
    pub fn take_maps_reply(&mut self, reply: Result<String, String>)
        ensures
            match reply {
                Ok(text) => {
                    &&& *final(self) == (RconState { maps: final(self).maps, ..*old(self) })
                    &&& maps_sorted(string_views(final(self).maps@))
                    &&& forall|m: Seq<char>|
                        string_views(final(self).maps@).contains(m) <==> listed_map(text@, m)
                },
                Err(e) => {
                    &&& *final(self) == (RconState { logs: final(self).logs, ..*old(self) })
                    &&& final(self).logs@.len() == old(self).logs@.len() + 1
                    &&& final(self).logs@.drop_last() == old(self).logs@
                    &&& final(self).logs@.last() matches RconLogEvent::Info(t) && t@
                        == "[RCON] Failed to get maps: "@ + e@
                },
            },
    {
        match reply {
            Ok(text) => {
                self.maps = parse_maps(text.as_str());
            },
            Err(e) => {
                let mut t = String::from_str("[RCON] Failed to get maps: ");
                t.append(e.as_str());
                self.logs.push(RconLogEvent::Info(t));
                assert(self.logs@.drop_last() =~= old(self).logs@);
            },
        }
    }

    /// The console lines.
    pub fn logs(&self) -> (r: &Vec<RconLogEvent>)
        ensures
            *r == self.logs,
    {
        &self.logs
    }

    /// The connection state.
    pub fn status(&self) -> (r: RconStatus)
        ensures
            r == self.status,
    {
        self.status
    }

    /// The roster.
    pub fn players(&self) -> (r: &RconPlayers)
        ensures
            *r == self.players,
    {
        &self.players
    }

    /// The score.
    pub fn score(&self) -> (r: TeamScore)
        ensures
            r == self.score,
    {
        self.score
    }

    /// The maps the server offers.
    pub fn maps(&self) -> (r: &Vec<String>)
        ensures
            *r == self.maps,
    {
        &self.maps
    }

    /// The name of the counter-terrorist team.
    pub fn team_name_ct(&self) -> (r: &String)
        ensures
            *r == self.team_name_ct,
    {
        &self.team_name_ct
    }

    /// The name of the terrorist team.
    pub fn team_name_t(&self) -> (r: &String)
        ensures
            *r == self.team_name_t,
    {
        &self.team_name_t
    }

    /// Whether a player has called for an admin.
    pub fn need_attention(&self) -> (r: bool)
        ensures
            r == self.need_attention,
    {
        self.need_attention
    }

    /// The server's console variables, when known.
    pub fn cvar_db(&self) -> (r: &Option<CvarDatabase>)
        ensures
            *r == self.cvar_db,
    {
        &self.cvar_db
    }

    /// The commands entered, oldest first.
    pub fn command_history(&self) -> (r: &Vec<String>)
        ensures
            *r == self.command_history,
    {
        &self.command_history
    }

    /// Whether the match is paused.
    pub fn match_paused(&self) -> (r: bool)
        ensures
            r == self.match_paused,
    {
        self.match_paused
    }
}


// ---------------------------------------------------------------------------
// Connecting and closing
// ---------------------------------------------------------------------------

/// The games an RCON session can be opened for.
#[derive(Debug, Clone, Copy, PartialEq, Eq, Structural)]
pub enum Game {
    Cs2,
    Cs16,
    Css,
    DoDS,
    GenericGoldSrc,
    GenericSource,
    GenericSource2,
}

/// The query protocol a game server speaks.
#[derive(Debug, Clone, Copy, PartialEq, Eq, Structural)]
pub enum ServerProtocol {
    Source,
    Source2,
    GoldSrc,
    Quake3,
    GameSpy,
}

/// The RCON dialect a server speaks.
#[derive(Debug, Clone, Copy, PartialEq, Eq, Structural)]
pub enum RconProtocol {
    Source,
    Source2,
    GoldSrc,
    Quake3,
}

/// The query protocol of a game's servers.
pub open spec fn protocol_of_game(g: Game) -> ServerProtocol {
    match g {
        Game::Cs2 => ServerProtocol::Source2,
        Game::Css => ServerProtocol::Source,
        Game::Cs16 => ServerProtocol::GoldSrc,
        Game::DoDS => ServerProtocol::Source,
        Game::GenericGoldSrc => ServerProtocol::GoldSrc,
        Game::GenericSource => ServerProtocol::Source,
        Game::GenericSource2 => ServerProtocol::Source2,
    }
}

/// The query protocol of a game's servers.
pub fn server_protocol_of(game: Game) -> (r: ServerProtocol)
    ensures
        r == protocol_of_game(game),
{
    match game {
        Game::Cs2 => ServerProtocol::Source2,
        Game::Css => ServerProtocol::Source,
        Game::Cs16 => ServerProtocol::GoldSrc,
        Game::DoDS => ServerProtocol::Source,
        Game::GenericGoldSrc => ServerProtocol::GoldSrc,
        Game::GenericSource => ServerProtocol::Source,
        Game::GenericSource2 => ServerProtocol::Source2,
    }
}

/// The RCON dialect of servers speaking `protocol`; GameSpy servers have
/// none.
pub open spec fn rcon_protocol_of(protocol: ServerProtocol) -> Option<RconProtocol> {
    match protocol {
        ServerProtocol::Source => Some(RconProtocol::Source),
        ServerProtocol::Source2 => Some(RconProtocol::Source2),
        ServerProtocol::GoldSrc => Some(RconProtocol::GoldSrc),
        ServerProtocol::Quake3 => Some(RconProtocol::Quake3),
        ServerProtocol::GameSpy => None,
    }
}

/// The RCON dialect of servers speaking `protocol`.
pub fn rcon_protocol(protocol: ServerProtocol) -> (r: Option<RconProtocol>)
    ensures
        r == rcon_protocol_of(protocol),
{
    match protocol {
        ServerProtocol::Source => Some(RconProtocol::Source),
        ServerProtocol::Source2 => Some(RconProtocol::Source2),
        ServerProtocol::GoldSrc => Some(RconProtocol::GoldSrc),
        ServerProtocol::Quake3 => Some(RconProtocol::Quake3),
        ServerProtocol::GameSpy => None,
    }
}

/// Whether the session of a game receives the server's live log.
pub open spec fn game_has_live_log(g: Game) -> bool {
    g == Game::Cs2 || g == Game::Css || g == Game::Cs16 || g == Game::DoDS
}

/// Whether the session of a game receives the server's live log.
pub fn has_live_log(game: Game) -> (r: bool)
    ensures
        r == game_has_live_log(game),
{
    match game {
        Game::Cs2 | Game::Css | Game::Cs16 | Game::DoDS => true,
        _ => false,
    }
}

/// The dotted decimal form of an IPv4 address.
pub open spec fn ipv4_text(ip: u32) -> Seq<char> {
    decimal((ip / 16777216) as nat) + "."@ + decimal(((ip / 65536) % 256) as nat) + "."@
        + decimal(((ip / 256) % 256) as nat) + "."@ + decimal((ip % 256) as nat)
}

fn push_decimal(s: &mut String, n: u64)
    ensures
        final(s)@ == old(s)@ + decimal(n as nat),
{
    let d = string_from_chars(&decimal_chars(n));
    s.append(d.as_str());
}

/// The dotted decimal form of an IPv4 address.
pub fn ipv4_to_string(ip: u32) -> (r: String)
    ensures
        r@ == ipv4_text(ip),
{
    let mut s = String::new();
    push_decimal(&mut s, (ip / 16777216) as u64);
    s.append(".");
    push_decimal(&mut s, ((ip / 65536) % 256) as u64);
    s.append(".");
    push_decimal(&mut s, ((ip / 256) % 256) as u64);
    s.append(".");
    push_decimal(&mut s, (ip % 256) as u64);
    s
}

/// `http://<ip>:<port>`, where the server posts its live log.
pub open spec fn live_log_url_of(ip: u32, port: u16) -> Seq<char> {
    "http://"@ + ipv4_text(ip) + ":"@ + decimal(port as nat)
}

/// The URL the server posts its live log to.
pub fn live_log_url(ip: u32, port: u16) -> (r: String)
    ensures
        r@ == live_log_url_of(ip, port),
{
    let mut s = String::from_str("http://");
    s.append(ipv4_to_string(ip).as_str());
    s.append(":");
    push_decimal(&mut s, port as u64);
    s
}

/// The command that makes a game's server send its log to `ip:port`:
/// Source 2 games post to the URL, GoldSrc games take address and port
/// apart, Source games take `address:port`.
pub open spec fn register_command_of(game: Game, ip: u32, port: u16) -> Seq<char> {
    match game {
        Game::Cs2 | Game::GenericSource2 => "logaddress_add_http \""@ + live_log_url_of(ip, port)
            + "\""@,
        Game::Cs16 | Game::GenericGoldSrc => "logaddress_add "@ + ipv4_text(ip) + " "@ + decimal(
            port as nat,
        ),
        _ => "logaddress_add "@ + ipv4_text(ip) + ":"@ + decimal(port as nat),
    }
}

/// The command that registers `ip:port` as a log receiver.
pub fn register_command(game: Game, ip: u32, port: u16) -> (r: String)
    ensures
        r@ == register_command_of(game, ip, port),
{
    match game {
        Game::Cs2 | Game::GenericSource2 => {
            let mut s = String::from_str("logaddress_add_http \"");
            s.append(live_log_url(ip, port).as_str());
            s.append("\"");
            s
        },
        Game::Cs16 | Game::GenericGoldSrc => {
            let mut s = String::from_str("logaddress_add ");
            s.append(ipv4_to_string(ip).as_str());
            s.append(" ");
            push_decimal(&mut s, port as u64);
            s
        },
        _ => {
            let mut s = String::from_str("logaddress_add ");
            s.append(ipv4_to_string(ip).as_str());
            s.append(":");
            push_decimal(&mut s, port as u64);
            s
        },
    }
}

/// One RCON command of the live log setup, and whether the setup fails
/// when the command fails.
pub struct SetupCommand {
    pub command: String,
    pub required: bool,
}

/// The live log setup, in order: enable the log file and log output,
/// register the receiver (all three required), then list the receivers.
pub fn live_log_setup(game: Game, ip: u32, port: u16) -> (r: Vec<SetupCommand>)
    ensures
        r@.len() == 4,
        r@[0].command@ == "sv_logfile 1"@ && r@[0].required,
        r@[1].command@ == "log on"@ && r@[1].required,
        r@[2].command@ == register_command_of(game, ip, port) && r@[2].required,
        r@[3].command@ == "logaddress_list_http"@ && !r@[3].required,
{
    let mut r: Vec<SetupCommand> = Vec::new();
    r.push(SetupCommand { command: String::from_str("sv_logfile 1"), required: true });
    r.push(SetupCommand { command: String::from_str("log on"), required: true });
    r.push(SetupCommand { command: register_command(game, ip, port), required: true });
    r.push(SetupCommand { command: String::from_str("logaddress_list_http"), required: false });
    r
}

/// The command that unregisters a live log URL.
pub open spec fn live_log_cleanup_of(url: Seq<char>) -> Seq<char> {
    "logaddress_del_http \""@ + url + "\""@
}

/// The command that unregisters a live log URL when the session closes.
pub fn live_log_cleanup_command(url: &str) -> (r: String)
    ensures
        r@ == live_log_cleanup_of(url@),
{
    let mut s = String::from_str("logaddress_del_http \"");
    s.append(url);
    s.append("\"");
    s
}

/// The loopback address 127.0.0.1.
pub const LOOPBACK_V4: u32 = 2130706433;

/// The port of the MatchZy endpoints.
pub const MATCHZY_PORT: u16 = 7131;

/// `http://<ip>:7131/MatchZyLogs`, with the loopback address where no local
/// address faces the server.
pub open spec fn matchzy_log_url_of(ip: Option<u32>) -> Seq<char> {
    let a = match ip {
        Some(i) => i,
        None => LOOPBACK_V4,
    };
    "http://"@ + ipv4_text(a) + ":"@ + decimal(MATCHZY_PORT as nat) + "/MatchZyLogs"@
}

/// The URL MatchZy posts its events to.
pub fn matchzy_log_url(ip: Option<u32>) -> (r: String)
    ensures
        r@ == matchzy_log_url_of(ip),
{
    let a = match ip {
        Some(i) => i,
        None => LOOPBACK_V4,
    };
    let mut s = String::from_str("http://");
    s.append(ipv4_to_string(a).as_str());
    s.append(":");
    push_decimal(&mut s, MATCHZY_PORT as u64);
    s.append("/MatchZyLogs");
    s
}

/// The command that points MatchZy at `url`; an empty URL switches it off.
pub open spec fn matchzy_command_of(url: Seq<char>) -> Seq<char> {
    "matchzy_remote_log_url \""@ + url + "\""@
}

/// The command that points MatchZy at `url`.
pub fn matchzy_command(url: &str) -> (r: String)
    ensures
        r@ == matchzy_command_of(url@),
{
    let mut s = String::from_str("matchzy_remote_log_url \"");
    s.append(url);
    s.append("\"");
    s
}

// ---------------------------------------------------------------------------
// Map list
// ---------------------------------------------------------------------------

/// The group a map is listed under: defusal maps first, then hostage maps,
/// then arms race maps.
pub open spec fn map_group(m: Seq<char>) -> int {
    if starts_with(m, "de_"@) {
        0
    } else if starts_with(m, "cs_"@) {
        1
    } else {
        2
    }
}

/// `a` is listed before `b`: by group, then in string order.
pub open spec fn map_before(a: Seq<char>, b: Seq<char>) -> bool {
    map_group(a) < map_group(b) || (map_group(a) == map_group(b) && lex_less(a, b))
}

/// A line of a `maps` listing that names a playable map: it starts with
/// `de_`, `cs_` or `ar_` and is no `_vanity` map.
pub open spec fn is_map_name(l: Seq<char>) -> bool {
    (starts_with(l, "de_"@) || starts_with(l, "cs_"@) || starts_with(l, "ar_"@)) && !contains(
        l,
        "_vanity"@,
    )
}

/// `m` is a map named by one of the first `n` lines of the listing,
/// surrounding whitespace removed.
pub open spec fn listed_before(listing: Seq<char>, n: int, m: Seq<char>) -> bool {
    is_map_name(m) && exists|k: int| 0 <= k < n && trim(#[trigger] lines(listing)[k]) == m
}

/// `m` is a map named by a line of the listing.
pub open spec fn listed_map(listing: Seq<char>, m: Seq<char>) -> bool {
    listed_before(listing, lines(listing).len() as int, m)
}

/// The views of a sequence of strings.
pub open spec fn string_views(v: Seq<String>) -> Seq<Seq<char>> {
    v.map_values(|c: String| c@)
}

/// `s` is in strictly increasing map order (so it holds no map twice).
pub open spec fn maps_sorted(s: Seq<Seq<char>>) -> bool {
    forall|i: int, j: int| 0 <= i < j < s.len() ==> map_before(#[trigger] s[i], #[trigger] s[j])
}

proof fn lemma_map_before_irreflexive(a: Seq<char>)
    ensures
        !map_before(a, a),
{
    lemma_lex_irreflexive(a);
}

proof fn lemma_map_before_transitive(a: Seq<char>, b: Seq<char>, c: Seq<char>)
    requires
        map_before(a, b),
        map_before(b, c),
    ensures
        map_before(a, c),
{
    if map_group(a) == map_group(b) && map_group(b) == map_group(c) {
        lemma_lex_transitive(a, b, c);
    }
}

proof fn lemma_map_before_total(a: Seq<char>, b: Seq<char>)
    requires
        a != b,
    ensures
        map_before(a, b) || map_before(b, a),
{
    lemma_lex_total(a, b);
}

fn map_group_of(m: &[char]) -> (r: u8)
    ensures
        r as int == map_group(m@),
{
    if starts_with_chars(m, &chars_of("de_")) {
        0
    } else if starts_with_chars(m, &chars_of("cs_")) {
        1
    } else {
        2
    }
}

fn map_before_chars(a: &[char], b: &[char]) -> (r: bool)
    ensures
        r == map_before(a@, b@),
{
    let ga = map_group_of(a);
    let gb = map_group_of(b);
    ga < gb || (ga == gb && lex_less_chars(a, b))
}

fn is_map_name_chars(l: &[char]) -> (r: bool)
    ensures
        r == is_map_name(l@),
{
    (starts_with_chars(l, &chars_of("de_")) || starts_with_chars(l, &chars_of("cs_"))
        || starts_with_chars(l, &chars_of("ar_"))) && !contains_chars(l, &chars_of("_vanity"))
}

/// The views of a sequence of character vectors.
pub open spec fn char_views(v: Seq<Vec<char>>) -> Seq<Seq<char>> {
    v.map_values(|c: Vec<char>| c@)
}

/// Inserts `x` into the sorted `out` unless it is already there.
fn insert_map(out: &mut Vec<Vec<char>>, x: Vec<char>)
    requires
        maps_sorted(char_views(old(out)@)),
    ensures
        maps_sorted(char_views(final(out)@)),
        forall|m: Seq<char>| char_views(final(out)@).contains(m) <==> (char_views(old(out)@).contains(m) || m == x@),
{
    let ghost s = char_views(out@);
    let mut p: usize = 0;
    while p < out.len() && map_before_chars(&out[p], &x)
        invariant
            p <= out@.len(),
            s == char_views(out@),
            maps_sorted(s),
            forall|k: int| 0 <= k < p ==> map_before(#[trigger] s[k], x@),
        decreases out@.len() - p,
    {
        p = p + 1;
    }
    if p < out.len() && chars_eq(&out[p], &x) {
        assert(s[p as int] == x@);
        return;
    }
    let ghost xv = x@;
    proof {
        if p < s.len() {
            assert(s[p as int] != xv);
            lemma_map_before_total(s[p as int], xv);
            assert forall|k: int| p <= k < s.len() implies map_before(xv, #[trigger] s[k]) by {
                if k > p {
                    lemma_map_before_transitive(xv, s[p as int], s[k]);
                }
            }
        }
    }
    out.insert(p, x);
    proof {
        let t = char_views(out@);
        assert(t =~= s.insert(p as int, xv));
        assert forall|i: int, j: int| 0 <= i < j < t.len() implies map_before(#[trigger] t[i], #[trigger] t[j]) by {
            if j < p {
                assert(t[i] == s[i] && t[j] == s[j]);
            } else if j == p {
                assert(t[i] == s[i]);
            } else if i < p {
                assert(t[i] == s[i] && t[j] == s[j - 1]);
                if p < s.len() {
                    lemma_map_before_transitive(s[i], xv, s[j - 1]);
                }
            } else if i == p {
                assert(t[j] == s[j - 1]);
            } else {
                assert(t[i] == s[i - 1] && t[j] == s[j - 1]);
            }
        }
        assert forall|m: Seq<char>| t.contains(m) <==> (s.contains(m) || m == xv) by {
            if t.contains(m) {
                let i = choose|i: int| 0 <= i < t.len() && t[i] == m;
                if i < p {
                    assert(s[i] == m);
                } else if i > p {
                    assert(s[i - 1] == m);
                }
            }
            if s.contains(m) {
                let i = choose|i: int| 0 <= i < s.len() && s[i] == m;
                if i < p {
                    assert(t[i] == m);
                } else {
                    assert(t[i + 1] == m);
                }
            }
            if m == xv {
                assert(t[p as int] == m);
            }
        }
    }
}

/// The maps of a `maps *` listing: each line trimmed, only playable map
/// names kept, listed once each, defusal maps first, then hostage maps,
/// then arms race maps, each group in string order.
pub fn parse_maps(response: &str) -> (r: Vec<String>)
    ensures
        maps_sorted(string_views(r@)),
        forall|m: Seq<char>| string_views(r@).contains(m) <==> listed_map(response@, m),
{
    let text = chars_of(response);
    let ls = lines_chars(&text);
    let mut out: Vec<Vec<char>> = Vec::new();
    assert(char_views(out@) =~= Seq::<Seq<char>>::empty());
    for i in 0..ls.len()
        invariant
            text@ == response@,
            ls@.len() == lines(text@).len(),
            forall|k: int| 0 <= k < ls@.len() ==> #[trigger] ls@[k]@ == lines(text@)[k],
            maps_sorted(char_views(out@)),
            forall|m: Seq<char>| #[trigger] char_views(out@).contains(m) <==> listed_before(text@, i as int, m),
    {
        let t = trim_chars(&ls[i]);
        assert(t@ == trim(lines(text@)[i as int]));
        let ghost before = char_views(out@);
        let ghost tv = t@;
        let named = is_map_name_chars(&t);
        if named {
            insert_map(&mut out, t);
        }
        assert forall|m: Seq<char>| #[trigger] char_views(out@).contains(m) <==> listed_before(text@, i + 1, m) by {
            assert(before.contains(m) <==> listed_before(text@, i as int, m));
            if m == tv && named {
                assert(trim(lines(text@)[i as int]) == m);
            }
            if listed_before(text@, i + 1, m) {
                let k = choose|k: int| 0 <= k < i + 1 && trim(#[trigger] lines(text@)[k]) == m;
                if k < i {
                    assert(listed_before(text@, i as int, m));
                } else {
                    assert(m == tv);
                }
            }
            if listed_before(text@, i as int, m) {
                let k = choose|k: int| 0 <= k < i && trim(#[trigger] lines(text@)[k]) == m;
                assert(0 <= k < i + 1 && trim(lines(text@)[k]) == m);
            }
        }
    }
    let mut r: Vec<String> = Vec::new();
    for j in 0..out.len()
        invariant
            string_views(r@) == char_views(out@).take(j as int),
    {
        let st = string_from_chars(&out[j]);
        let ghost prev = r@;
        let ghost sv = st@;
        assert(sv == char_views(out@)[j as int]);
        r.push(st);
        assert(r@ == prev.push(st));
        assert(string_views(r@) =~= string_views(prev).push(sv));
        assert(char_views(out@).take(j + 1) =~= char_views(out@).take(j as int).push(sv));
    }
    assert(char_views(out@).take(out@.len() as int) =~= char_views(out@));
    r
}

} // verus!
