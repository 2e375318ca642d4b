//! Opening an RCON session, one step at a time: authentication, the live
//! log setup, the console-variable listing and the MatchZy log address.
//! Each step takes the outcome of the last outside action and says what to
//! do next; the caller performs the actions (network and sockets).
use vstd::prelude::*;
use crate::cvar::{listing_well_formed, parse_listing, CvarDatabase};
use crate::session::{
    game_has_live_log, live_log_cleanup_command, live_log_cleanup_of, ipv4_text, ipv4_to_string, live_log_url, live_log_url_of,
    matchzy_command, matchzy_command_of, matchzy_log_url, matchzy_log_url_of, register_command,
    register_command_of, Game, RconLogEvent, RconState, RconStatus,
};
use crate::text::{decimal, decimal_chars, string_from_chars};

verus! {

/// How far the opening of a session has come.
#[derive(Debug, Clone, Copy, PartialEq, Eq, Structural)]
pub enum Stage {
    /// Waiting for the outcome of authentication.
    Authenticating,
    /// Waiting for the local address that faces the server.
    FindingReceiver,
    /// Waiting for the live log listener to be bound.
    Binding { ip: u32 },
    /// Waiting for the reply to setup command `step` (0 to 3).
    Setup { ip: u32, port: u16, step: u8 },
    /// Waiting for the console-variable listing.
    FetchingCvars,
    /// Waiting for the live log lines to be taken up.
    TakingReceiver,
    /// Waiting for the local address for the MatchZy log URL.
    FindingMatchzyIp,
    /// Finished.
    Done,
}

/// The outcome of the last outside action.
pub enum ConnectEvent {
    Authenticated(Result<(), String>),
    ReceiverIp(Option<u32>),
    Listener(Result<u16, String>),
    Reply(Result<String, String>),
    ReceiverTaken(bool),
}

/// What the caller does next.
pub enum ConnectAction {
    /// Authenticate the RCON client.
    Authenticate,
    /// Find the local IPv4 address on the server's subnet.
    FindReceiverIp,
    /// Bind the live log listener.
    BindListener,
    /// Send an RCON command and report its reply.
    Send(String),
    /// Take up the live log lines and start acting on them.
    TakeReceiver,
    /// Stop: the session opened (`ok`) or not. Where `stop_listener` holds,
    /// the live log listener is stopped first; where a MatchZy command is
    /// given, it is sent and its reply ignored.
    Finish { ok: bool, stop_listener: bool, matchzy_command: Option<String> },
    /// The outcome did not fit the stage: nothing to do.
    Nothing,
}

/// A session being opened for `game` on the server written `addr_text`.
pub struct Connector {
    pub game: Game,
    pub addr_text: String,
    pub stage: Stage,
    /// The live log URL, once the setup went through.
    pub live_log_url: Option<String>,
    /// The MatchZy log URL, once it was sent.
    pub matchzy_log_url: Option<String>,
}

/// `e` is the console line `(reply, text)`: a reply or a note with `text`.
pub open spec fn line_is(e: RconLogEvent, l: (bool, Seq<char>)) -> bool {
    if l.0 {
        e matches RconLogEvent::RconResponse(t) && t@ == l.1
    } else {
        e matches RconLogEvent::Info(t) && t@ == l.1
    }
}

/// `s1`'s console is `s0`'s with the lines `added` appended.
pub open spec fn appended(s0: RconState, s1: RconState, added: Seq<(bool, Seq<char>)>) -> bool {
    &&& s1.logs@.len() == s0.logs@.len() + added.len()
    &&& s1.logs@.take(s0.logs@.len() as int) == s0.logs@
    &&& forall|i: int|
        0 <= i < added.len() ==> line_is(#[trigger] s1.logs@[s0.logs@.len() + i], added[i])
}

/// A note.
pub open spec fn note(t: Seq<char>) -> (bool, Seq<char>) {
    (false, t)
}

/// `ip:port` as text.
pub open spec fn addr_text_of(ip: u32, port: u16) -> Seq<char> {
    ipv4_text(ip) + ":"@ + decimal(port as nat)
}

/// Setup command `k`: enable the log file, enable log output, register the
/// receiver, list the receivers.
pub open spec fn setup_command(game: Game, ip: u32, port: u16, k: u8) -> Seq<char> {
    if k == 0 {
        "sv_logfile 1"@
    } else if k == 1 {
        "log on"@
    } else if k == 2 {
        register_command_of(game, ip, port)
    } else {
        "logaddress_list_http"@
    }
}

/// What the reply to setup command `k` is reported with.
pub open spec fn setup_ok_prefix(ip: u32, port: u16, k: u8) -> Seq<char> {
    if k == 0 {
        "[LIVE_LOG] Enabled server logging: "@
    } else if k == 1 {
        "[LIVE_LOG] Enabled log output: "@
    } else if k == 2 {
        "[LIVE_LOG] Registered "@ + addr_text_of(ip, port) + ": "@
    } else {
        "[LIVE_LOG] HTTP log addresses:\n"@
    }
}

/// What the failure of setup command `k` is reported with.
pub open spec fn setup_err_prefix(ip: u32, port: u16, k: u8) -> Seq<char> {
    if k == 0 {
        "[LIVE_LOG] Failed to enable server logging: "@
    } else if k == 1 {
        "[LIVE_LOG] Failed to enable log output: "@
    } else if k == 2 {
        "[LIVE_LOG] Failed to register "@ + addr_text_of(ip, port) + ": "@
    } else {
        "[LIVE_LOG] Failed to list HTTP log addresses: "@
    }
}

/// The note of a failed live log setup.
pub open spec fn setup_failed_note() -> Seq<char> {
    "[RCON] Failed to configure live log."@
}

/// `a` finishes the opening with outcome `ok`.
pub open spec fn finishes(a: ConnectAction, ok: bool, stop: bool) -> bool {
    a matches ConnectAction::Finish { ok: o, stop_listener: st, matchzy_command: m } && o == ok
        && st == stop && m is None
}

/// Only the console changed.
pub open spec fn only_logs(s0: RconState, s1: RconState) -> bool {
    s1 == (RconState { logs: s1.logs, ..s0 })
}

/// The session was declared open: the console and the status changed, the
/// status to authenticated.
pub open spec fn opened(s0: RconState, s1: RconState) -> bool {
    s1 == (RconState { logs: s1.logs, status: RconStatus::Authenticated, ..s0 })
}

/// The connector moved to `stage`, its URLs unchanged.
pub open spec fn moved(c0: Connector, c1: Connector, stage: Stage) -> bool {
    &&& c1.game == c0.game && c1.addr_text@ == c0.addr_text@ && c1.stage == stage
    &&& opt_view(c1.live_log_url) == opt_view(c0.live_log_url)
    &&& opt_view(c1.matchzy_log_url) == opt_view(c0.matchzy_log_url)
}

/// An optional text as a value.
pub open spec fn opt_view(o: Option<String>) -> Option<Seq<char>> {
    match o {
        Some(s) => Some(s@),
        None => None,
    }
}

/// The step once the live log setup is through: Counter-Strike 2 sessions
/// fetch the console-variable listing, others take up the live log.
pub open spec fn after_setup(c0: Connector, c1: Connector, a: ConnectAction, ip: u32, port: u16) -> bool {
    &&& opt_view(c1.live_log_url) == Some(live_log_url_of(ip, port))
    &&& c1.game == c0.game && c1.addr_text@ == c0.addr_text@
    &&& opt_view(c1.matchzy_log_url) == opt_view(c0.matchzy_log_url)
    &&& if c0.game == Game::Cs2 {
        &&& c1.stage == Stage::FetchingCvars
        &&& a matches ConnectAction::Send(t) && t@ == "cvarlist"@
    } else {
        c1.stage == Stage::TakingReceiver && a is TakeReceiver
    }
}

/// One step of opening a session, from connector `c0` and session state
/// `s0` on outcome `e`, to `c1`, `s1` and action `a`.
pub open spec fn stepped(
    c0: Connector,
    s0: RconState,
    e: ConnectEvent,
    c1: Connector,
    s1: RconState,
    a: ConnectAction,
) -> bool {
    match (c0.stage, e) {
        (Stage::Authenticating, ConnectEvent::Authenticated(Err(err))) => {
            &&& moved(c0, c1, Stage::Done) && only_logs(s0, s1)
            &&& appended(s0, s1, seq![note("[RCON] Connection failed: "@ + err@)])
            &&& finishes(a, false, false)
        },
        (Stage::Authenticating, ConnectEvent::Authenticated(Ok(()))) => if game_has_live_log(c0.game) {
            &&& moved(c0, c1, Stage::FindingReceiver) && only_logs(s0, s1)
            &&& appended(s0, s1, seq![note("[RCON] Authenticated."@)])
            &&& a is FindReceiverIp
        } else {
            &&& moved(c0, c1, Stage::Done) && opened(s0, s1)
            &&& appended(
                s0,
                s1,
                seq![
                    note("[RCON] Authenticated."@),
                    note("[LIVE_LOG] Skipped live log setup for unsupported game."@),
                    note("[RCON] Session created."@),
                ],
            )
            &&& finishes(a, true, false)
        },
        (Stage::FindingReceiver, ConnectEvent::ReceiverIp(None)) => {
            &&& moved(c0, c1, Stage::Done) && only_logs(s0, s1)
            &&& appended(
                s0,
                s1,
                seq![
                    note(
                        "[LIVE_LOG] Could not determine a local IP for server "@ + c0.addr_text@
                            + "."@,
                    ),
                    note(setup_failed_note()),
                ],
            )
            &&& finishes(a, false, false)
        },
        (Stage::FindingReceiver, ConnectEvent::ReceiverIp(Some(ip))) => {
            &&& moved(c0, c1, Stage::Binding { ip }) && s1 == s0
            &&& a is BindListener
        },
        (Stage::Binding { ip }, ConnectEvent::Listener(Err(err))) => {
            &&& moved(c0, c1, Stage::Done) && only_logs(s0, s1)
            &&& appended(
                s0,
                s1,
                seq![
                    note("[LIVE_LOG] Failed to bind live log listener: "@ + err@),
                    note(setup_failed_note()),
                ],
            )
            &&& finishes(a, false, false)
        },
        (Stage::Binding { ip }, ConnectEvent::Listener(Ok(port))) => {
            &&& moved(c0, c1, Stage::Setup { ip, port, step: 0 }) && only_logs(s0, s1)
            &&& appended(
                s0,
                s1,
                seq![
                    note("[LIVE_LOG] Listening on port "@ + decimal(port as nat) + "."@),
                    note("[LIVE_LOG] Receiver URL: "@ + live_log_url_of(ip, port)),
                ],
            )
            &&& a matches ConnectAction::Send(t) && t@ == setup_command(c0.game, ip, port, 0)
        },
        (Stage::Setup { ip, port, step }, ConnectEvent::Reply(Ok(reply))) => {
            &&& only_logs(s0, s1)
            &&& appended(s0, s1, seq![(true, setup_ok_prefix(ip, port, step) + reply@)])
            &&& if step < 3 {
                &&& moved(c0, c1, Stage::Setup { ip, port, step: (step + 1) as u8 })
                &&& a matches ConnectAction::Send(t) && t@ == setup_command(
                    c0.game,
                    ip,
                    port,
                    (step + 1) as u8,
                )
            } else {
                after_setup(c0, c1, a, ip, port)
            }
        },
        (Stage::Setup { ip, port, step }, ConnectEvent::Reply(Err(err))) => {
            &&& only_logs(s0, s1)
            &&& if step < 3 {
                &&& moved(c0, c1, Stage::Done)
                &&& appended(
                    s0,
                    s1,
                    seq![note(setup_err_prefix(ip, port, step) + err@), note(setup_failed_note())],
                )
                &&& finishes(a, false, true)
            } else {
                &&& appended(s0, s1, seq![note(setup_err_prefix(ip, port, step) + err@)])
                &&& after_setup(c0, c1, a, ip, port)
            }
        },
        (Stage::FetchingCvars, ConnectEvent::Reply(r)) => {
            &&& moved(c0, c1, Stage::TakingReceiver)
            &&& s1 == (RconState { logs: s1.logs, cvar_db: s1.cvar_db, ..s0 })
            &&& a is TakeReceiver
            &&& match r {
                Ok(text) => {
                    &&& appended(s0, s1, Seq::empty())
                    &&& s1.cvar_db matches Some(db) && db.view() == parse_listing(text@)
                },
                Err(err) => {
                    &&& appended(s0, s1, seq![note("[RCON] Failed to get cvarlist: "@ + err@)])
                    &&& s1.cvar_db matches Some(db) && db.view() == Seq::<crate::cvar::CvarModel>::empty()
                },
            }
        },
        (Stage::TakingReceiver, ConnectEvent::ReceiverTaken(false)) => {
            &&& moved(c0, c1, Stage::Done) && s1 == s0
            &&& finishes(a, false, true)
        },
        (Stage::TakingReceiver, ConnectEvent::ReceiverTaken(true)) => {
            &&& opened(s0, s1)
            &&& appended(s0, s1, seq![note("[RCON] Session created."@)])
            &&& if c0.game == Game::Cs2 {
                moved(c0, c1, Stage::FindingMatchzyIp) && a is FindReceiverIp
            } else {
                moved(c0, c1, Stage::Done) && finishes(a, true, false)
            }
        },
        (Stage::FindingMatchzyIp, ConnectEvent::ReceiverIp(ip)) => {
            &&& s1 == s0
            &&& c1.game == c0.game && c1.addr_text@ == c0.addr_text@ && c1.stage == Stage::Done
            &&& opt_view(c1.live_log_url) == opt_view(c0.live_log_url)
            &&& opt_view(c1.matchzy_log_url) == Some(matchzy_log_url_of(ip))
            &&& a matches ConnectAction::Finish { ok: true, stop_listener: false, matchzy_command: Some(m) }
                && m@ == matchzy_command_of(matchzy_log_url_of(ip))
        },
        _ => moved(c0, c1, c0.stage) && s1 == s0 && a is Nothing,
    }
}

/// Closing succeeded: every cleanup command was answered.
pub fn closed_cleanly(replies: &Vec<Result<String, String>>) -> (r: bool)
    ensures
        r == forall|i: int| 0 <= i < replies@.len() ==> (#[trigger] replies@[i]) is Ok,
{
    let mut ok = true;
    for i in 0..replies.len()
        invariant
            ok == forall|k: int| 0 <= k < i ==> (#[trigger] replies@[k]) is Ok,
    {
        ok = ok && replies[i].is_ok();
    }
    ok
}

/// An outcome the step can take: a console-variable listing it reads is
/// one whose variable lines hold four columns.
pub open spec fn step_accepts(c: Connector, e: ConnectEvent) -> bool {
    c.stage == Stage::FetchingCvars ==> match e {
        ConnectEvent::Reply(Ok(t)) => listing_well_formed(t@),
        _ => true,
    }
}

fn push_note(state: &mut RconState, t: String)
    ensures
        appended(*old(state), *final(state), seq![note(t@)]),
        only_logs(*old(state), *final(state)),
{
    state.logs.push(RconLogEvent::Info(t));
    assert(final(state).logs@.take(old(state).logs@.len() as int) =~= old(state).logs@);
}

fn push_reply(state: &mut RconState, t: String)
    ensures
        appended(*old(state), *final(state), seq![(true, t@)]),
        only_logs(*old(state), *final(state)),
{
    state.logs.push(RconLogEvent::RconResponse(t));
    assert(final(state).logs@.take(old(state).logs@.len() as int) =~= old(state).logs@);
}

proof fn lemma_appended_twice(
    s0: RconState,
    s1: RconState,
    s2: RconState,
    a: Seq<(bool, Seq<char>)>,
    b: Seq<(bool, Seq<char>)>,
)
    requires
        appended(s0, s1, a),
        appended(s1, s2, b),
    ensures
        appended(s0, s2, a + b),
{
    assert(s2.logs@.take(s0.logs@.len() as int) =~= s1.logs@.take(s0.logs@.len() as int));
    assert forall|i: int| 0 <= i < (a + b).len() implies line_is(
        #[trigger] s2.logs@[s0.logs@.len() + i],
        (a + b)[i],
    ) by {
        if i < a.len() {
            assert(s2.logs@[s0.logs@.len() + i] == s1.logs@[s0.logs@.len() + i]);
        } else {
            assert(s2.logs@[s0.logs@.len() + i] == s2.logs@[s1.logs@.len() + (i - a.len())]);
        }
    }
}

fn text_of(prefix: &str, tail: &str) -> (r: String)
    ensures
        r@ == prefix@ + tail@,
{
    let mut s = String::from_str(prefix);
    s.append(tail);
    s
}

fn number_text(n: u64) -> (r: String)
    ensures
        r@ == decimal(n as nat),
{
    string_from_chars(&decimal_chars(n))
}

fn addr_string(ip: u32, port: u16) -> (r: String)
    ensures
        r@ == addr_text_of(ip, port),
{
    let mut s = ipv4_to_string(ip);
    s.append(":");
    s.append(number_text(port as u64).as_str());
    s
}

fn setup_command_text(game: Game, ip: u32, port: u16, k: u8) -> (r: String)
    ensures
        r@ == setup_command(game, ip, port, k),
{
    if k == 0 {
        String::from_str("sv_logfile 1")
    } else if k == 1 {
        String::from_str("log on")
    } else if k == 2 {
        register_command(game, ip, port)
    } else {
        String::from_str("logaddress_list_http")
    }
}

fn setup_prefix(ip: u32, port: u16, k: u8, ok: bool) -> (r: String)
    ensures
        r@ == if ok {
            setup_ok_prefix(ip, port, k)
        } else {
            setup_err_prefix(ip, port, k)
        },
{
    if k == 2 {
        let mut s = if ok {
            String::from_str("[LIVE_LOG] Registered ")
        } else {
            String::from_str("[LIVE_LOG] Failed to register ")
        };
        s.append(addr_string(ip, port).as_str());
        s.append(": ");
        s
    } else if ok {
        if k == 0 {
            String::from_str("[LIVE_LOG] Enabled server logging: ")
        } else if k == 1 {
            String::from_str("[LIVE_LOG] Enabled log output: ")
        } else {
            String::from_str("[LIVE_LOG] HTTP log addresses:\n")
        }
    } else {
        if k == 0 {
            String::from_str("[LIVE_LOG] Failed to enable server logging: ")
        } else if k == 1 {
            String::from_str("[LIVE_LOG] Failed to enable log output: ")
        } else {
            String::from_str("[LIVE_LOG] Failed to list HTTP log addresses: ")
        }
    }
}

fn finish(ok: bool, stop: bool) -> (a: ConnectAction)
    ensures
        finishes(a, ok, stop),
{
    ConnectAction::Finish { ok, stop_listener: stop, matchzy_command: None }
}

fn copy_opt(o: &Option<String>) -> (r: Option<String>)
    ensures
        opt_view(r) == opt_view(*o),
{
    match o {
        Some(s) => Some(s.clone()),
        None => None,
    }
}

impl Connector {
    /// Starts opening a session for `game` on the server written
    /// `addr_text`: notes the attempt and asks for authentication.
    pub fn start(game: Game, addr_text: &str, state: &mut RconState) -> (r: (Connector, ConnectAction))
        ensures
            r.0.game == game && r.0.addr_text@ == addr_text@ && r.0.stage == Stage::Authenticating,
            r.0.live_log_url is None && r.0.matchzy_log_url is None,
            r.1 is Authenticate,
            only_logs(*old(state), *final(state)),
            appended(*old(state), *final(state), seq![note("[RCON] Connecting to "@ + addr_text@ + "..."@)]),
    {
        let mut t = text_of("[RCON] Connecting to ", addr_text);
        t.append("...");
        push_note(state, t);
        (
            Connector {
                game,
                addr_text: String::from_str(addr_text),
                stage: Stage::Authenticating,
                live_log_url: None,
                matchzy_log_url: None,
            },
            ConnectAction::Authenticate,
        )
    }

    fn moved_to(&self, stage: Stage) -> (c: Connector)
        ensures
            moved(*self, c, stage),
    {
        Connector {
            game: self.game,
            addr_text: self.addr_text.clone(),
            stage,
            live_log_url: copy_opt(&self.live_log_url),
            matchzy_log_url: copy_opt(&self.matchzy_log_url),
        }
    }

    fn through_setup(&mut self, ip: u32, port: u16) -> (a: ConnectAction)
        ensures
            after_setup(*old(self), *final(self), a, ip, port),
    {
        self.live_log_url = Some(live_log_url(ip, port));
        if self.game == Game::Cs2 {
            self.stage = Stage::FetchingCvars;
            ConnectAction::Send(String::from_str("cvarlist"))
        } else {
            self.stage = Stage::TakingReceiver;
            ConnectAction::TakeReceiver
        }
    }

    /// Closing the session: the commands that undo what opening set up, in
    /// order (unregister the live log URL, then switch the MatchZy log URL
    /// off), each only where it was set; both URLs are cleared.
    pub fn closing_commands(&mut self) -> (r: Vec<String>)
        ensures
            final(self).live_log_url is None && final(self).matchzy_log_url is None,
            final(self).game == old(self).game && final(self).addr_text == old(self).addr_text,
            final(self).stage == old(self).stage,
            r@.map_values(|c: String| c@) == (match opt_view(old(self).live_log_url) {
                Some(u) => seq![live_log_cleanup_of(u)],
                None => Seq::empty(),
            }) + (match opt_view(old(self).matchzy_log_url) {
                Some(_) => seq![matchzy_command_of(Seq::empty())],
                None => Seq::empty(),
            }),
    {
        let mut r: Vec<String> = Vec::new();
        let ghost a: Seq<Seq<char>> = match opt_view(self.live_log_url) {
            Some(u) => seq![live_log_cleanup_of(u)],
            None => Seq::empty(),
        };
        match self.live_log_url.take() {
            Some(u) => {
                r.push(live_log_cleanup_command(u.as_str()));
            },
            None => {},
        }
        assert(r@.map_values(|c: String| c@) =~= a);
        let ghost b: Seq<Seq<char>> = match opt_view(self.matchzy_log_url) {
            Some(_) => seq![matchzy_command_of(Seq::empty())],
            None => Seq::empty(),
        };
        match self.matchzy_log_url.take() {
            Some(_) => {
                let off = String::new();
                r.push(matchzy_command(off.as_str()));
            },
            None => {},
        }
        assert(r@.map_values(|c: String| c@) =~= a + b);
        r
    }

    /// Takes the outcome of the last action and says what to do next.
    pub fn step(&mut self, state: &mut RconState, event: ConnectEvent) -> (a: ConnectAction)
        requires
            step_accepts(*old(self), event),
        ensures
            stepped(*old(self), *old(state), event, *final(self), *final(state), a),
    {
        let ghost s0 = *state;
        match (self.stage, event) {
            (Stage::Authenticating, ConnectEvent::Authenticated(Err(err))) => {
                push_note(state, text_of("[RCON] Connection failed: ", err.as_str()));
                *self = self.moved_to(Stage::Done);
                finish(false, false)
            },
            (Stage::Authenticating, ConnectEvent::Authenticated(Ok(()))) => {
                push_note(state, String::from_str("[RCON] Authenticated."));
                let ghost s1 = *state;
                if crate::session::has_live_log(self.game) {
                    *self = self.moved_to(Stage::FindingReceiver);
                    ConnectAction::FindReceiverIp
                } else {
                    push_note(
                        state,
                        String::from_str("[LIVE_LOG] Skipped live log setup for unsupported game."),
                    );
                    let ghost s2 = *state;
                    push_note(state, String::from_str("[RCON] Session created."));
                    state.status = RconStatus::Authenticated;
                    proof {
                        lemma_appended_twice(s0, s1, s2, seq![note("[RCON] Authenticated."@)], seq![note("[LIVE_LOG] Skipped live log setup for unsupported game."@)]);
                        lemma_appended_twice(s0, s2, *state, seq![note("[RCON] Authenticated."@)] + seq![note("[LIVE_LOG] Skipped live log setup for unsupported game."@)], seq![note("[RCON] Session created."@)]);
                        assert(seq![note("[RCON] Authenticated."@)] + seq![note("[LIVE_LOG] Skipped live log setup for unsupported game."@)] + seq![note("[RCON] Session created."@)] =~= seq![
                            note("[RCON] Authenticated."@),
                            note("[LIVE_LOG] Skipped live log setup for unsupported game."@),
                            note("[RCON] Session created."@),
                        ]);
                    }
                    *self = self.moved_to(Stage::Done);
                    finish(true, false)
                }
            },
            (Stage::FindingReceiver, ConnectEvent::ReceiverIp(None)) => {
                let mut t = text_of("[LIVE_LOG] Could not determine a local IP for server ", self.addr_text.as_str());
                t.append(".");
                let ghost n1 = t@;
                push_note(state, t);
                let ghost s1 = *state;
                push_note(state, String::from_str("[RCON] Failed to configure live log."));
                proof {
                    lemma_appended_twice(s0, s1, *state, seq![note(n1)], seq![note(setup_failed_note())]);
                    assert(seq![note(n1)] + seq![note(setup_failed_note())] =~= seq![note(n1), note(setup_failed_note())]);
                }
                *self = self.moved_to(Stage::Done);
                finish(false, false)
            },
            (Stage::FindingReceiver, ConnectEvent::ReceiverIp(Some(ip))) => {
                *self = self.moved_to(Stage::Binding { ip });
                ConnectAction::BindListener
            },
            (Stage::Binding { ip }, ConnectEvent::Listener(Err(err))) => {
                let t = text_of("[LIVE_LOG] Failed to bind live log listener: ", err.as_str());
                let ghost n1 = t@;
                push_note(state, t);
                let ghost s1 = *state;
                push_note(state, String::from_str("[RCON] Failed to configure live log."));
                proof {
                    lemma_appended_twice(s0, s1, *state, seq![note(n1)], seq![note(setup_failed_note())]);
                    assert(seq![note(n1)] + seq![note(setup_failed_note())] =~= seq![note(n1), note(setup_failed_note())]);
                }
                *self = self.moved_to(Stage::Done);
                finish(false, false)
            },
            (Stage::Binding { ip }, ConnectEvent::Listener(Ok(port))) => {
                let mut t = text_of("[LIVE_LOG] Listening on port ", number_text(port as u64).as_str());
                t.append(".");
                let ghost n1 = t@;
                push_note(state, t);
                let ghost s1 = *state;
                let u = text_of("[LIVE_LOG] Receiver URL: ", live_log_url(ip, port).as_str());
                let ghost n2 = u@;
                push_note(state, u);
                proof {
                    lemma_appended_twice(s0, s1, *state, seq![note(n1)], seq![note(n2)]);
                    assert(seq![note(n1)] + seq![note(n2)] =~= seq![note(n1), note(n2)]);
                }
                *self = self.moved_to(Stage::Setup { ip, port, step: 0 });
                ConnectAction::Send(setup_command_text(self.game, ip, port, 0))
            },
            (Stage::Setup { ip, port, step }, ConnectEvent::Reply(Ok(reply))) => {
                let t = text_of(setup_prefix(ip, port, step, true).as_str(), reply.as_str());
                push_reply(state, t);
                if step < 3 {
                    *self = self.moved_to(Stage::Setup { ip, port, step: step + 1 });
                    ConnectAction::Send(setup_command_text(self.game, ip, port, step + 1))
                } else {
                    self.through_setup(ip, port)
                }
            },
            (Stage::Setup { ip, port, step }, ConnectEvent::Reply(Err(err))) => {
                let t = text_of(setup_prefix(ip, port, step, false).as_str(), err.as_str());
                let ghost n1 = t@;
                push_note(state, t);
                if step < 3 {
                    let ghost s1 = *state;
                    push_note(state, String::from_str("[RCON] Failed to configure live log."));
                    proof {
                        lemma_appended_twice(s0, s1, *state, seq![note(n1)], seq![note(setup_failed_note())]);
                        assert(seq![note(n1)] + seq![note(setup_failed_note())] =~= seq![note(n1), note(setup_failed_note())]);
                    }
                    *self = self.moved_to(Stage::Done);
                    finish(false, true)
                } else {
                    self.through_setup(ip, port)
                }
            },
            (Stage::FetchingCvars, ConnectEvent::Reply(r)) => {
                match r {
                    Ok(text) => {
                        let db = CvarDatabase::new(text.as_str());
                        state.cvar_db = Some(db);
                        assert(state.logs@ =~= s0.logs@);
                        assert(state.logs@.take(s0.logs@.len() as int) =~= s0.logs@);
                    },
                    Err(err) => {
                        push_note(state, text_of("[RCON] Failed to get cvarlist: ", err.as_str()));
                        proof {
                            reveal_strlit("");
                            assert(listing_well_formed(""@)) by {
                                assert(""@ =~= Seq::<char>::empty());
                            }
                        }
                        let db = CvarDatabase::new("");
                        proof {
                            assert(parse_listing(""@) =~= Seq::<crate::cvar::CvarModel>::empty()) by {
                                assert(""@ =~= Seq::<char>::empty());
                            }
                        }
                        state.cvar_db = Some(db);
                    },
                }
                *self = self.moved_to(Stage::TakingReceiver);
                ConnectAction::TakeReceiver
            },
            (Stage::TakingReceiver, ConnectEvent::ReceiverTaken(false)) => {
                *self = self.moved_to(Stage::Done);
                finish(false, true)
            },
            (Stage::TakingReceiver, ConnectEvent::ReceiverTaken(true)) => {
                push_note(state, String::from_str("[RCON] Session created."));
                state.status = RconStatus::Authenticated;
                if self.game == Game::Cs2 {
                    *self = self.moved_to(Stage::FindingMatchzyIp);
                    ConnectAction::FindReceiverIp
                } else {
                    *self = self.moved_to(Stage::Done);
                    finish(true, false)
                }
            },
            (Stage::FindingMatchzyIp, ConnectEvent::ReceiverIp(ip)) => {
                let url = matchzy_log_url(ip);
                let cmd = matchzy_command(url.as_str());
                self.matchzy_log_url = Some(url);
                self.stage = Stage::Done;
                ConnectAction::Finish { ok: true, stop_listener: false, matchzy_command: Some(cmd) }
            },
            _ => {
                *self = self.moved_to(self.stage);
                ConnectAction::Nothing
            },
        }
    }
}

} // verus!
