//! Which console lines the RCON console and the chat panel show, and the
//! console's filter of log kinds with its presets.
use vstd::prelude::*;
use crate::events::LogType;
use crate::pretty::{pretty_log, pretty_of, PrettyView};
use crate::session::RconLogEvent;
use crate::text::decimal;

verus! {

/// Every log kind, in the order the filter lists them.
pub open spec fn all_types() -> Seq<LogType> {
    seq![
        LogType::Attacked,
        LogType::Kill,
        LogType::Chat,
        LogType::ScoreUpdate,
        LogType::RoundWin,
        LogType::TeamSwitch,
        LogType::BombEvent,
        LogType::Purchase,
        LogType::Connection,
        LogType::Suicide,
        LogType::WorldTrigger,
        LogType::Technical,
        LogType::LeftBuyZone,
        LogType::RoundStats,
        LogType::Assist,
        LogType::Grenade,
        LogType::SvGrenade,
        LogType::Blinded,
        LogType::MatchStatus,
        LogType::FreezePeriod,
        LogType::MatchStart,
        LogType::TeamScore,
        LogType::ServerCvar,
        LogType::BombDeath,
        LogType::RoundAccolade,
        LogType::ServerCvarDump,
        LogType::LogFile,
        LogType::MapLoading,
        LogType::ServerStarted,
        LogType::GameOver,
        LogType::MolotovSpawn,
        LogType::Ignored,
        LogType::Unknown,
        LogType::Rcon,
    ]
}

/// The kinds of the essential preset: chat, connections, round wins and
/// the end of the game.
pub open spec fn essential_types() -> Seq<LogType> {
    seq![LogType::Chat, LogType::Connection, LogType::RoundWin, LogType::GameOver]
}

/// The position of each kind in the list of all kinds.
pub open spec fn type_position(t: LogType) -> int {
    match t {
        LogType::Attacked => 0,
        LogType::Kill => 1,
        LogType::Chat => 2,
        LogType::ScoreUpdate => 3,
        LogType::RoundWin => 4,
        LogType::TeamSwitch => 5,
        LogType::BombEvent => 6,
        LogType::Purchase => 7,
        LogType::Connection => 8,
        LogType::Suicide => 9,
        LogType::WorldTrigger => 10,
        LogType::Technical => 11,
        LogType::LeftBuyZone => 12,
        LogType::RoundStats => 13,
        LogType::Assist => 14,
        LogType::Grenade => 15,
        LogType::SvGrenade => 16,
        LogType::Blinded => 17,
        LogType::MatchStatus => 18,
        LogType::FreezePeriod => 19,
        LogType::MatchStart => 20,
        LogType::TeamScore => 21,
        LogType::ServerCvar => 22,
        LogType::BombDeath => 23,
        LogType::RoundAccolade => 24,
        LogType::ServerCvarDump => 25,
        LogType::LogFile => 26,
        LogType::MapLoading => 27,
        LogType::ServerStarted => 28,
        LogType::GameOver => 29,
        LogType::MolotovSpawn => 30,
        LogType::Ignored => 31,
        LogType::Unknown => 32,
        LogType::Rcon => 33,
    }
}

/// The kind at each position of the list of all kinds has that position,
/// so no kind is listed twice.
proof fn lemma_all_types_positions()
    ensures
        all_types().len() == 34,
        forall|i: int| 0 <= i < 34 ==> type_position(#[trigger] all_types()[i]) == i,
        all_types().no_duplicates(),
{
    let a = all_types();
    assert forall|i: int| 0 <= i < 34 implies type_position(#[trigger] a[i]) == i by {
        if i == 0 {
            assert(type_position(a[0]) == 0);
        } else if i == 1 {
            assert(type_position(a[1]) == 1);
        } else if i == 2 {
            assert(type_position(a[2]) == 2);
        } else if i == 3 {
            assert(type_position(a[3]) == 3);
        } else if i == 4 {
            assert(type_position(a[4]) == 4);
        } else if i == 5 {
            assert(type_position(a[5]) == 5);
        } else if i == 6 {
            assert(type_position(a[6]) == 6);
        } else if i == 7 {
            assert(type_position(a[7]) == 7);
        } else if i == 8 {
            assert(type_position(a[8]) == 8);
        } else if i == 9 {
            assert(type_position(a[9]) == 9);
        } else if i == 10 {
            assert(type_position(a[10]) == 10);
        } else if i == 11 {
            assert(type_position(a[11]) == 11);
        } else if i == 12 {
            assert(type_position(a[12]) == 12);
        } else if i == 13 {
            assert(type_position(a[13]) == 13);
        } else if i == 14 {
            assert(type_position(a[14]) == 14);
        } else if i == 15 {
            assert(type_position(a[15]) == 15);
        } else if i == 16 {
            assert(type_position(a[16]) == 16);
        } else if i == 17 {
            assert(type_position(a[17]) == 17);
        } else if i == 18 {
            assert(type_position(a[18]) == 18);
        } else if i == 19 {
            assert(type_position(a[19]) == 19);
        } else if i == 20 {
            assert(type_position(a[20]) == 20);
        } else if i == 21 {
            assert(type_position(a[21]) == 21);
        } else if i == 22 {
            assert(type_position(a[22]) == 22);
        } else if i == 23 {
            assert(type_position(a[23]) == 23);
        } else if i == 24 {
            assert(type_position(a[24]) == 24);
        } else if i == 25 {
            assert(type_position(a[25]) == 25);
        } else if i == 26 {
            assert(type_position(a[26]) == 26);
        } else if i == 27 {
            assert(type_position(a[27]) == 27);
        } else if i == 28 {
            assert(type_position(a[28]) == 28);
        } else if i == 29 {
            assert(type_position(a[29]) == 29);
        } else if i == 30 {
            assert(type_position(a[30]) == 30);
        } else if i == 31 {
            assert(type_position(a[31]) == 31);
        } else if i == 32 {
            assert(type_position(a[32]) == 32);
        } else if i == 33 {
            assert(type_position(a[33]) == 33);
        }
    }
    assert forall|i: int, j: int|
        0 <= i < a.len() && 0 <= j < a.len() && i != j implies a[i] != a[j] by {
        assert(type_position(a[i]) == i);
        assert(type_position(a[j]) == j);
    }
}

/// Every kind is in the list of all kinds, so the `ALL` preset shows every
/// line the console can receive.
pub proof fn law_all_lists_every_kind(t: LogType)
    ensures
        all_types().contains(t),
        all_types().to_set().contains(t),
{
    let a = all_types();
    match t {
        LogType::Attacked => assert(a[0] == t),
        LogType::Kill => assert(a[1] == t),
        LogType::Chat => assert(a[2] == t),
        LogType::ScoreUpdate => assert(a[3] == t),
        LogType::RoundWin => assert(a[4] == t),
        LogType::TeamSwitch => assert(a[5] == t),
        LogType::BombEvent => assert(a[6] == t),
        LogType::Purchase => assert(a[7] == t),
        LogType::Connection => assert(a[8] == t),
        LogType::Suicide => assert(a[9] == t),
        LogType::WorldTrigger => assert(a[10] == t),
        LogType::Technical => assert(a[11] == t),
        LogType::LeftBuyZone => assert(a[12] == t),
        LogType::RoundStats => assert(a[13] == t),
        LogType::Assist => assert(a[14] == t),
        LogType::Grenade => assert(a[15] == t),
        LogType::SvGrenade => assert(a[16] == t),
        LogType::Blinded => assert(a[17] == t),
        LogType::MatchStatus => assert(a[18] == t),
        LogType::FreezePeriod => assert(a[19] == t),
        LogType::MatchStart => assert(a[20] == t),
        LogType::TeamScore => assert(a[21] == t),
        LogType::ServerCvar => assert(a[22] == t),
        LogType::BombDeath => assert(a[23] == t),
        LogType::RoundAccolade => assert(a[24] == t),
        LogType::ServerCvarDump => assert(a[25] == t),
        LogType::LogFile => assert(a[26] == t),
        LogType::MapLoading => assert(a[27] == t),
        LogType::ServerStarted => assert(a[28] == t),
        LogType::GameOver => assert(a[29] == t),
        LogType::MolotovSpawn => assert(a[30] == t),
        LogType::Ignored => assert(a[31] == t),
        LogType::Unknown => assert(a[32] == t),
        LogType::Rcon => assert(a[33] == t),
    }
}

/// Every kind, in the order the filter lists them.
pub fn all_log_types() -> (r: Vec<LogType>)
    ensures
        r@ == all_types(),
{
    let r = vec![
        LogType::Attacked,
        LogType::Kill,
        LogType::Chat,
        LogType::ScoreUpdate,
        LogType::RoundWin,
        LogType::TeamSwitch,
        LogType::BombEvent,
        LogType::Purchase,
        LogType::Connection,
        LogType::Suicide,
        LogType::WorldTrigger,
        LogType::Technical,
        LogType::LeftBuyZone,
        LogType::RoundStats,
        LogType::Assist,
        LogType::Grenade,
        LogType::SvGrenade,
        LogType::Blinded,
        LogType::MatchStatus,
        LogType::FreezePeriod,
        LogType::MatchStart,
        LogType::TeamScore,
        LogType::ServerCvar,
        LogType::BombDeath,
        LogType::RoundAccolade,
        LogType::ServerCvarDump,
        LogType::LogFile,
        LogType::MapLoading,
        LogType::ServerStarted,
        LogType::GameOver,
        LogType::MolotovSpawn,
        LogType::Ignored,
        LogType::Unknown,
        LogType::Rcon,
    ];
    assert(r@ =~= all_types());
    r
}

/// Which preset button a selection lights up.
#[derive(Debug, Clone, Copy, PartialEq, Eq, Structural)]
pub enum FilterPreset {
    All,
    Empty,
    Essential,
    Custom,
}

/// The set of log kinds the console shows.
///
/// Held as a list without repeats rather than a `HashSet`, since vstd's
/// hash set specification says nothing of membership for an enum of this
/// library (`LogType`).
pub struct EventFilter {
    types: Vec<LogType>,
}

impl View for EventFilter {
    type V = Set<LogType>;

    closed spec fn view(&self) -> Set<LogType> {
        self.types@.to_set()
    }
}

/// `s` with kind `t` shown if it was hidden and hidden if it was shown.
pub open spec fn toggled(s: Set<LogType>, t: LogType) -> Set<LogType> {
    if s.contains(t) {
        s.remove(t)
    } else {
        s.insert(t)
    }
}

/// The preset a set of kinds matches.
pub open spec fn preset_of(s: Set<LogType>) -> FilterPreset {
    if all_types().to_set().subset_of(s) {
        FilterPreset::All
    } else if s.is_empty() {
        FilterPreset::Empty
    } else if s == essential_types().to_set() {
        FilterPreset::Essential
    } else {
        FilterPreset::Custom
    }
}

impl EventFilter {
    /// No kind occurs twice.
    pub closed spec fn wf(&self) -> bool {
        self.types@.no_duplicates()
    }

    /// The number of kinds shown.
    pub closed spec fn count(&self) -> nat {
        self.types@.len()
    }

    proof fn lemma_count(&self)
        requires
            self.wf(),
        ensures
            self.count() == self@.len(),
            self@.finite(),
    {
        self.types@.unique_seq_to_set();
    }

    /// A filter that shows every kind.
    pub fn all() -> (r: EventFilter)
        ensures
            r.wf(),
            r@ == all_types().to_set(),
    {
        proof {
            lemma_all_types_positions();
        }
        EventFilter { types: all_log_types() }
    }

    /// A filter that shows the essential kinds.
    pub fn essential() -> (r: EventFilter)
        ensures
            r.wf(),
            r@ == essential_types().to_set(),
    {
        let types = vec![LogType::Chat, LogType::Connection, LogType::RoundWin, LogType::GameOver];
        assert(types@ =~= essential_types());
        EventFilter { types }
    }

    /// A filter that shows nothing.
    pub fn empty() -> (r: EventFilter)
        ensures
            r.wf(),
            r@ == Set::<LogType>::empty(),
    {
        let r = EventFilter { types: Vec::new() };
        assert(r@ =~= Set::<LogType>::empty());
        r
    }

    /// Whether the filter shows kind `t`.
    pub fn contains(&self, t: LogType) -> (r: bool)
        ensures
            r == self@.contains(t),
    {
        let mut i: usize = 0;
        while i < self.types.len()
            invariant
                i <= self.types@.len(),
                forall|k: int| 0 <= k < i ==> self.types@[k] != t,
            decreases self.types@.len() - i,
        {
            if self.types[i] == t {
                assert(self.types@.to_set().contains(t)) by {
                    assert(self.types@.contains(t));
                }
                return true;
            }
            i = i + 1;
        }
        assert(!self.types@.contains(t));
        false
    }

    /// Shows kind `t` if it was hidden and hides it if it was shown.
    pub fn toggle(&mut self, t: LogType)
        requires
            old(self).wf(),
        ensures
            final(self).wf(),
            final(self)@ == toggled(old(self)@, t),
    {
        let mut i: usize = 0;
        while i < self.types.len()
            invariant
                i <= self.types@.len(),
                self.types@ == old(self).types@,
                self.types@.no_duplicates(),
                forall|k: int| 0 <= k < i ==> self.types@[k] != t,
            decreases self.types@.len() - i,
        {
            if self.types[i] == t {
                let ghost before = self.types@;
                self.types.remove(i);
                proof {
                    assert(before.to_set().contains(t)) by {
                        assert(before[i as int] == t);
                    }
                    assert(self.types@ =~= before.remove(i as int));
                    assert forall|k: int, l: int|
                        0 <= k < self.types@.len() && 0 <= l < self.types@.len() && k != l implies
                        self.types@[k] != self.types@[l] by {
                        let kk = if k < i { k } else { k + 1 };
                        let ll = if l < i { l } else { l + 1 };
                        assert(self.types@[k] == before[kk]);
                        assert(self.types@[l] == before[ll]);
                    }
                    assert forall|x: LogType| #[trigger] self.types@.to_set().contains(x) <==> before.to_set().remove(t).contains(x) by {
                        if self.types@.contains(x) {
                            let k = choose|k: int| 0 <= k < self.types@.len() && self.types@[k] == x;
                            let kk = if k < i { k } else { k + 1 };
                            assert(before[kk] == x);
                            assert(kk != i);
                            assert(before.contains(x));
                        }
                        if before.contains(x) && x != t {
                            let k = choose|k: int| 0 <= k < before.len() && before[k] == x;
                            assert(k != i);
                            let kk = if k < i { k } else { k - 1 };
                            assert(self.types@[kk] == x);
                            assert(self.types@.contains(x));
                        }
                    }
                    assert(self.types@.to_set() =~= before.to_set().remove(t));
                }
                return;
            }
            i = i + 1;
        }
        let ghost before = self.types@;
        assert(!before.contains(t));
        self.types.push(t);
        proof {
            assert(self.types@ == before.push(t));
            assert forall|x: LogType| #[trigger] self.types@.to_set().contains(x) <==> before.to_set().insert(t).contains(x) by {
                if self.types@.contains(x) {
                    let k = choose|k: int| 0 <= k < self.types@.len() && self.types@[k] == x;
                    if k < before.len() {
                        assert(before[k] == x);
                    }
                }
                if before.contains(x) {
                    let k = choose|k: int| 0 <= k < before.len() && before[k] == x;
                    assert(self.types@[k] == x);
                }
                if x == t {
                    assert(self.types@[before.len() as int] == t);
                }
            }
            assert(self.types@.to_set() =~= before.to_set().insert(t));
        }
    }

    /// The preset button the filter lights up.
    pub fn preset(&self) -> (r: FilterPreset)
        requires
            self.wf(),
        ensures
            r == preset_of(self@),
    {
        let all = all_log_types();
        let mut every = true;
        let mut i: usize = 0;
        while i < all.len()
            invariant
                all@ == all_types(),
                i <= all@.len(),
                every == forall|k: int| 0 <= k < i ==> self@.contains(#[trigger] all@[k]),
            decreases all@.len() - i,
        {
            let c = self.contains(all[i]);
            every = every && c;
            i = i + 1;
        }
        if every {
            assert(all_types().to_set().subset_of(self@)) by {
                assert forall|x: LogType| all_types().to_set().contains(x) implies self@.contains(x) by {
                    let k = choose|k: int| 0 <= k < all@.len() && all@[k] == x;
                }
            }
            return FilterPreset::All;
        }
        proof {
            let k = choose|k: int| 0 <= k < all@.len() && !self@.contains(#[trigger] all@[k]);
            assert(all_types().to_set().contains(all@[k]));
        }
        if self.types.len() == 0 {
            assert(self@ =~= Set::<LogType>::empty());
            return FilterPreset::Empty;
        }
        proof {
            assert(self.types@.contains(self.types@[0]));
        }
        let essential = self.types.len() == 4 && self.contains(LogType::Chat) && self.contains(
            LogType::Connection,
        ) && self.contains(LogType::RoundWin) && self.contains(LogType::GameOver);
        proof {
            self.lemma_count();
            let e = essential_types().to_set();
            assert(e =~= set![LogType::Chat, LogType::Connection, LogType::RoundWin, LogType::GameOver]) by {
                assert forall|x: LogType| e.contains(x) <==> (x == LogType::Chat || x == LogType::Connection || x == LogType::RoundWin || x == LogType::GameOver) by {
                    if x == LogType::Chat { assert(essential_types()[0] == x); }
                    if x == LogType::Connection { assert(essential_types()[1] == x); }
                    if x == LogType::RoundWin { assert(essential_types()[2] == x); }
                    if x == LogType::GameOver { assert(essential_types()[3] == x); }
                }
            }
            if essential {
                assert(e.subset_of(self@));
                assert(e.len() == 4) by {
                    essential_types().unique_seq_to_set();
                }
                vstd::set_lib::lemma_subset_equality(e, self@);
            } else {
                if self@ == e {
                    essential_types().unique_seq_to_set();
                    assert(self@.contains(LogType::Chat));
                    assert(self@.contains(LogType::Connection));
                    assert(self@.contains(LogType::RoundWin));
                    assert(self@.contains(LogType::GameOver));
                }
            }
        }
        if essential {
            FilterPreset::Essential
        } else {
            FilterPreset::Custom
        }
    }

    /// The summary `shown/all` of the filter, as in `4/34`.
    pub fn count_text(&self) -> (r: String)
        requires
            self.wf(),
        ensures
            r@ == decimal(self@.len()) + "/"@ + decimal(all_types().len()),
    {
        proof {
            self.lemma_count();
        }
        let mut s = crate::text::u64_to_string(self.types.len() as u64);
        s.append("/");
        let n = crate::text::u64_to_string(all_log_types().len() as u64);
        s.append(n.as_str());
        s
    }
}

/// Toggling a kind twice gives back the filter it started from.
pub proof fn law_toggle_twice(s: Set<LogType>, t: LogType)
    ensures
        toggled(toggled(s, t), t) == s,
{
    if s.contains(t) {
        assert(s.remove(t).insert(t) =~= s);
    } else {
        assert(s.insert(t).remove(t) =~= s);
    }
}

/// Each preset button, once pressed, is the one lit: all kinds light
/// `ALL`, none lights `NONE`, the essential kinds light `ESSENTIAL`.
pub proof fn law_presets_light_their_button()
    ensures
        preset_of(all_types().to_set()) == FilterPreset::All,
        preset_of(Set::empty()) == FilterPreset::Empty,
        preset_of(essential_types().to_set()) == FilterPreset::Essential,
{
    lemma_all_types_positions();
    assert(all_types().to_set().contains(all_types()[0]));
    assert(!Set::<LogType>::empty().contains(all_types()[0]));
    assert(!all_types().to_set().subset_of(Set::<LogType>::empty()));
    let e = essential_types().to_set();
    assert(all_types().to_set().contains(LogType::Kill)) by {
        assert(all_types()[1] == LogType::Kill);
    }
    assert(!e.contains(LogType::Kill)) by {
        if e.contains(LogType::Kill) {
            let k = choose|k: int| 0 <= k < essential_types().len() && essential_types()[k] == LogType::Kill;
        }
    }
    assert(e.contains(LogType::Chat)) by {
        assert(essential_types()[0] == LogType::Chat);
    }
    assert(!e.is_empty());
}

/// How the console draws one of its lines.
pub enum ConsoleLine {
    /// Text in the given style classes.
    Text { class: String, text: String },
    /// A live log event drawn as the web view draws it.
    Event(PrettyView),
}

/// Whether the console shows line `e` under filter `shown`: replies and
/// notes always, live log lines when their kind is shown.
pub open spec fn console_shows(e: RconLogEvent, shown: Set<LogType>) -> bool {
    match e {
        RconLogEvent::LiveLog(p) => shown.contains(p.log_type),
        _ => true,
    }
}

/// How the console draws line `e`, if it shows it: replies in light grey,
/// notes in dim grey, live log lines of unknown kind as their raw text and
/// the others as the web view draws their event.
pub fn console_line(e: &RconLogEvent, filter: &EventFilter) -> (r: Option<ConsoleLine>)
    ensures
        r is Some <==> console_shows(*e, filter@),
        match (*e, r) {
            (RconLogEvent::RconResponse(t), Some(ConsoleLine::Text { class, text })) =>
                class@ == "text-zinc-300"@ && text@ == t@,
            (RconLogEvent::Info(t), Some(ConsoleLine::Text { class, text })) =>
                class@ == "text-zinc-500"@ && text@ == t@,
            (RconLogEvent::LiveLog(p), Some(l)) => if p.log_type == LogType::Unknown {
                l matches ConsoleLine::Text { class, text } && class@ == "text-zinc-300"@
                    && text@ == p.raw@
            } else {
                l matches ConsoleLine::Event(v) && match pretty_of(p.event) {
                    Some(w) => v matches PrettyView::Line(pl) && pl@ == w,
                    None => v is RoundTable,
                }
            },
            (_, None) => true,
            _ => false,
        },
{
    match e {
        RconLogEvent::RconResponse(t) => Some(
            ConsoleLine::Text { class: String::from_str("text-zinc-300"), text: t.clone() },
        ),
        RconLogEvent::Info(t) => Some(
            ConsoleLine::Text { class: String::from_str("text-zinc-500"), text: t.clone() },
        ),
        RconLogEvent::LiveLog(p) => {
            if !filter.contains(p.log_type) {
                None
            } else if p.log_type == LogType::Unknown {
                Some(
                    ConsoleLine::Text {
                        class: String::from_str("text-zinc-300"),
                        text: p.raw.clone(),
                    },
                )
            } else {
                Some(ConsoleLine::Event(pretty_log(&p.event)))
            }
        },
    }
}

/// The chat panel shows the live log lines of the chat kind, drawn as the
/// web view draws their event, in order.
pub open spec fn chat_events(logs: Seq<RconLogEvent>) -> Seq<crate::events::LogEvent>
    decreases logs.len(),
{
    if logs.len() == 0 {
        Seq::empty()
    } else {
        let rest = chat_events(logs.drop_last());
        match logs.last() {
            RconLogEvent::LiveLog(p) => if p.log_type == LogType::Chat {
                rest.push(p.event)
            } else {
                rest
            },
            _ => rest,
        }
    }
}

/// `v` is how the web view draws event `e`.
pub open spec fn drawn_as(v: PrettyView, e: crate::events::LogEvent) -> bool {
    match pretty_of(e) {
        Some(w) => v matches PrettyView::Line(pl) && pl@ == w,
        None => v is RoundTable,
    }
}

/// The lines of the chat panel: each chat line of the log, drawn as the web
/// view draws it.
pub fn chat_lines(logs: &Vec<RconLogEvent>) -> (r: Vec<PrettyView>)
    ensures
        r@.len() == chat_events(logs@).len(),
        forall|i: int| 0 <= i < r@.len() ==> drawn_as(#[trigger] r@[i], chat_events(logs@)[i]),
{
    let mut out: Vec<PrettyView> = Vec::new();
    for i in 0..logs.len()
        invariant
            out@.len() == chat_events(logs@.take(i as int)).len(),
            forall|k: int|
                0 <= k < out@.len() ==> drawn_as(
                    #[trigger] out@[k],
                    chat_events(logs@.take(i as int))[k],
                ),
    {
        assert(logs@.take(i + 1).drop_last() =~= logs@.take(i as int));
        assert(logs@.take(i + 1).last() == logs@[i as int]);
        let ghost before = chat_events(logs@.take(i as int));
        match &logs[i] {
            RconLogEvent::LiveLog(p) => {
                if p.log_type == LogType::Chat {
                    let v = pretty_log(&p.event);
                    let ghost prev = out@;
                    out.push(v);
                    assert(chat_events(logs@.take(i + 1)) == before.push(p.event));
                    assert forall|k: int| 0 <= k < out@.len() implies drawn_as(
                        #[trigger] out@[k],
                        chat_events(logs@.take(i + 1))[k],
                    ) by {
                        if k < before.len() {
                            assert(out@[k] == prev[k]);
                        }
                    }
                } else {
                    assert(chat_events(logs@.take(i + 1)) == before);
                }
            },
            _ => {
                assert(chat_events(logs@.take(i + 1)) == before);
            },
        }
    }
    assert(logs@.take(logs@.len() as int) =~= logs@);
    out
}

} // verus!
