//! The open RCON sessions and how the browser presents servers and
//! sessions: status badges, labels, and the order of session tabs.
use vstd::prelude::*;
use crate::network::Endpoint;
use crate::players::RconPlayers;
use crate::session::{RconState, RconStatus};
use crate::text::{
    chars_eq, chars_of, decimal, decimal_chars, lemma_lex_irreflexive, lemma_lex_total,
    lemma_lex_transitive, lex_less, lex_less_chars, string_from_chars,
};

verus! {

broadcast use vstd::seq_lib::group_to_multiset_ensures;

fn push_decimal(s: &mut String, n: u64)
    ensures
        final(s)@ == old(s)@ + decimal(n as nat),
{
    let d = string_from_chars(&decimal_chars(n));
    s.append(d.as_str());
}

// ---------------------------------------------------------------------------
// Sessions
// ---------------------------------------------------------------------------

/// No address occurs twice.
pub open spec fn session_addrs_distinct(s: Seq<(Endpoint, RconState)>) -> bool {
    forall|i: int, j: int| 0 <= i < j < s.len() ==> #[trigger] s[i].0 != #[trigger] s[j].0
}

/// The sessions of a list, by address.
pub open spec fn sessions_map(s: Seq<(Endpoint, RconState)>) -> Map<Endpoint, RconState>
    decreases s.len(),
{
    if s.len() == 0 {
        Map::empty()
    } else {
        sessions_map(s.drop_last()).insert(s.last().0, s.last().1)
    }
}

/// For distinct addresses: each session is in the map under its address,
/// the map is finite with one key per session, and each key is some
/// session's address.
pub proof fn lemma_sessions_map(s: Seq<(Endpoint, RconState)>)
    requires
        session_addrs_distinct(s),
    ensures
        sessions_map(s).dom().finite(),
        sessions_map(s).dom().len() == s.len(),
        forall|i: int| 0 <= i < s.len() ==> sessions_map(s).contains_key(#[trigger] s[i].0)
            && sessions_map(s)[s[i].0] == s[i].1,
        forall|a: Endpoint| #[trigger] sessions_map(s).contains_key(a) ==> exists|i: int|
            0 <= i < s.len() && s[i].0 == a,
    decreases s.len(),
{
    if s.len() > 0 {
        let t = s.drop_last();
        assert(session_addrs_distinct(t));
        lemma_sessions_map(t);
        if sessions_map(t).contains_key(s.last().0) {
            let i = choose|i: int| 0 <= i < t.len() && t[i].0 == s.last().0;
            assert(s[i].0 == s[s.len() - 1].0);
        }
        assert forall|k: Endpoint| #[trigger] sessions_map(s).contains_key(k) implies exists|i: int|
            0 <= i < s.len() && s[i].0 == k by {
            if k != s.last().0 {
                let i = choose|i: int| 0 <= i < t.len() && t[i].0 == k;
                assert(s[i].0 == k);
            } else {
                assert(s[s.len() - 1].0 == k);
            }
        }
        assert forall|i: int| 0 <= i < s.len() implies sessions_map(s).contains_key(#[trigger] s[i].0)
            && sessions_map(s)[s[i].0] == s[i].1 by {
            if i < s.len() - 1 {
                assert(t[i] == s[i]);
            }
        }
    }
}

/// The addresses of sessions waiting for an admin.
pub open spec fn waiting(m: Map<Endpoint, RconState>) -> Set<Endpoint> {
    m.dom().filter(|a: Endpoint| m[a].need_attention)
}

/// The open RCON sessions, by server address.
///
/// Held as a list of distinct addresses rather than a `HashMap`, since
/// vstd's hash map specification says nothing of lookups by a key of this
/// library's own type (`Endpoint`).
pub struct RconManager {
    sessions: Vec<(Endpoint, RconState)>,
}

impl View for RconManager {
    type V = Map<Endpoint, RconState>;

    closed spec fn view(&self) -> Map<Endpoint, RconState> {
        sessions_map(self.sessions@)
    }
}

impl RconManager {
    /// No address occurs twice.
    pub closed spec fn wf(&self) -> bool {
        session_addrs_distinct(self.sessions@)
    }

    /// No sessions.
    pub fn new() -> (r: RconManager)
        ensures
            r.wf(),
            r@ == Map::<Endpoint, RconState>::empty(),
    {
        RconManager { sessions: Vec::new() }
    }

    fn position(&self, addr: Endpoint) -> (r: Option<usize>)
        requires
            self.wf(),
        ensures
            match r {
                Some(i) => i < self.sessions@.len() && self.sessions@[i as int].0 == addr,
                None => !self@.contains_key(addr),
            },
    {
        proof {
            lemma_sessions_map(self.sessions@);
        }
        for i in 0..self.sessions.len()
            invariant
                forall|j: int| 0 <= j < i ==> #[trigger] self.sessions@[j].0 != addr,
        {
            if self.sessions[i].0 == addr {
                return Some(i);
            }
        }
        proof {
            if self@.contains_key(addr) {
                let j = choose|j: int| 0 <= j < self.sessions@.len() && self.sessions@[j].0 == addr;
            }
        }
        None
    }

    /// Opens (or replaces) the session of `addr`.
    pub fn insert(&mut self, addr: Endpoint, state: RconState)
        requires
            old(self).wf(),
        ensures
            final(self).wf(),
            final(self)@ == old(self)@.insert(addr, state),
    {
        let ghost s = self.sessions@;
        proof {
            lemma_sessions_map(s);
        }
        match self.position(addr) {
            Some(i) => {
                let _ = self.sessions.remove(i);
                let ghost t = self.sessions@;
                proof {
                    assert(t =~= s.remove(i as int));
                    assert forall|a: int, b: int| 0 <= a < b < t.len() implies #[trigger] t[a].0 != #[trigger] t[b].0 by {
                        let a2 = if a < i { a } else { a + 1 };
                        let b2 = if b < i { b } else { b + 1 };
                        assert(t[a] == s[a2] && t[b] == s[b2]);
                    }
                    lemma_sessions_map(t);
                    assert forall|k: int| 0 <= k < t.len() implies #[trigger] t[k].0 != addr by {
                        let k2 = if k < i { k } else { k + 1 };
                        assert(t[k] == s[k2]);
                    }
                    assert(sessions_map(t) =~= sessions_map(s).remove(addr)) by {
                        assert forall|a: Endpoint| #[trigger] sessions_map(t).contains_key(a) <==> sessions_map(s).remove(addr).contains_key(a) by {
                            if sessions_map(t).contains_key(a) {
                                let k = choose|k: int| 0 <= k < t.len() && t[k].0 == a;
                                let k2 = if k < i { k } else { k + 1 };
                                assert(t[k] == s[k2]);
                            }
                            if sessions_map(s).contains_key(a) && a != addr {
                                let k = choose|k: int| 0 <= k < s.len() && s[k].0 == a;
                                assert(k != i);
                                let k2 = if k < i { k } else { k - 1 };
                                assert(t[k2] == s[k]);
                            }
                        }
                        assert forall|a: Endpoint| #[trigger] sessions_map(t).contains_key(a) implies sessions_map(t)[a] == sessions_map(s)[a] by {
                            let k = choose|k: int| 0 <= k < t.len() && t[k].0 == a;
                            let k2 = if k < i { k } else { k + 1 };
                            assert(t[k] == s[k2]);
                        }
                    }
                }
            },
            None => {},
        }
        let ghost t = self.sessions@;
        proof {
            lemma_sessions_map(t);
        }
        self.sessions.push((addr, state));
        proof {
            let u = self.sessions@;
            assert(u.drop_last() =~= t);
            assert forall|a: int, b: int| 0 <= a < b < u.len() implies #[trigger] u[a].0 != #[trigger] u[b].0 by {
                if b == u.len() - 1 {
                    assert(u[a] == t[a]);
                    assert(sessions_map(t).contains_key(t[a].0));
                } else {
                    assert(u[a] == t[a] && u[b] == t[b]);
                }
            }
            assert(sessions_map(u) =~= sessions_map(s).insert(addr, state));
        }
    }

    /// Closes the session of `addr`, handing it back.
    pub fn remove(&mut self, addr: Endpoint) -> (r: Option<RconState>)
        requires
            old(self).wf(),
        ensures
            final(self).wf(),
            final(self)@ == old(self)@.remove(addr),
            match r {
                Some(st) => old(self)@.contains_key(addr) && old(self)@[addr] == st,
                None => !old(self)@.contains_key(addr),
            },
    {
        let ghost s = self.sessions@;
        proof {
            lemma_sessions_map(s);
        }
        match self.position(addr) {
            Some(i) => {
                let (_, st) = self.sessions.remove(i);
                let ghost t = self.sessions@;
                proof {
                    assert(t =~= s.remove(i as int));
                    assert forall|a: int, b: int| 0 <= a < b < t.len() implies #[trigger] t[a].0 != #[trigger] t[b].0 by {
                        let a2 = if a < i { a } else { a + 1 };
                        let b2 = if b < i { b } else { b + 1 };
                        assert(t[a] == s[a2] && t[b] == s[b2]);
                    }
                    lemma_sessions_map(t);
                    assert(sessions_map(t) =~= sessions_map(s).remove(addr)) by {
                        assert forall|a: Endpoint| #[trigger] sessions_map(t).contains_key(a) <==> sessions_map(s).remove(addr).contains_key(a) by {
                            if sessions_map(t).contains_key(a) {
                                let k = choose|k: int| 0 <= k < t.len() && t[k].0 == a;
                                let k2 = if k < i { k } else { k + 1 };
                                assert(t[k] == s[k2]);
                            }
                            if sessions_map(s).contains_key(a) && a != addr {
                                let k = choose|k: int| 0 <= k < s.len() && s[k].0 == a;
                                assert(k != i);
                                let k2 = if k < i { k } else { k - 1 };
                                assert(t[k2] == s[k]);
                            }
                        }
                        assert forall|a: Endpoint| #[trigger] sessions_map(t).contains_key(a) implies sessions_map(t)[a] == sessions_map(s)[a] by {
                            let k = choose|k: int| 0 <= k < t.len() && t[k].0 == a;
                            let k2 = if k < i { k } else { k + 1 };
                            assert(t[k] == s[k2]);
                        }
                    }
                }
                Some(st)
            },
            None => None,
        }
    }

    /// The number of open sessions.
    pub fn len(&self) -> (r: usize)
        requires
            self.wf(),
        ensures
            r == self@.dom().len(),
    {
        proof {
            lemma_sessions_map(self.sessions@);
        }
        self.sessions.len()
    }

    /// The session of `addr`.
    pub fn state(&self, addr: Endpoint) -> (r: Option<&RconState>)
        requires
            self.wf(),
        ensures
            match r {
                Some(st) => self@.contains_key(addr) && self@[addr] == *st,
                None => !self@.contains_key(addr),
            },
    {
        proof {
            lemma_sessions_map(self.sessions@);
        }
        match self.position(addr) {
            Some(i) => Some(&self.sessions[i].1),
            None => None,
        }
    }

    /// The addresses of the open sessions, each once.
    pub fn addresses(&self) -> (r: Vec<Endpoint>)
        requires
            self.wf(),
        ensures
            r@.no_duplicates(),
            r@.to_set() == self@.dom(),
    {
        proof {
            lemma_sessions_map(self.sessions@);
        }
        let mut r: Vec<Endpoint> = Vec::new();
        for i in 0..self.sessions.len()
            invariant
                session_addrs_distinct(self.sessions@),
                r@.len() == i,
                forall|k: int| 0 <= k < i ==> #[trigger] r@[k] == self.sessions@[k].0,
        {
            r.push(self.sessions[i].0);
        }
        proof {
            assert forall|a: Endpoint| #[trigger] r@.to_set().contains(a) <==> self@.contains_key(a) by {
                if self@.contains_key(a) {
                    let k = choose|k: int| 0 <= k < self.sessions@.len() && self.sessions@[k].0 == a;
                    assert(r@[k] == a);
                }
                if r@.to_set().contains(a) {
                    let k = choose|k: int| 0 <= k < r@.len() && r@[k] == a;
                    assert(self.sessions@[k].0 == a);
                }
            }
            assert(r@.to_set() =~= self@.dom());
        }
        r
    }

    /// How many sessions wait for an admin.
    pub fn attention_count(&self) -> (r: usize)
        requires
            self.wf(),
        ensures
            r == waiting(self@).len(),
    {
        let ghost m = self@;
        proof {
            lemma_sessions_map(self.sessions@);
        }
        let mut n: usize = 0;
        let ghost mut seen: Set<Endpoint> = Set::empty();
        for i in 0..self.sessions.len()
            invariant
                m == sessions_map(self.sessions@),
                session_addrs_distinct(self.sessions@),
                seen.finite(),
                n == seen.len(),
                n <= i,
                forall|a: Endpoint| #[trigger] seen.contains(a) <==> exists|k: int|
                    0 <= k < i && self.sessions@[k].0 == a && self.sessions@[k].1.need_attention,
        {
            if self.sessions[i].1.need_attention {
                proof {
                    let a = self.sessions@[i as int].0;
                    if seen.contains(a) {
                        let k = choose|k: int| 0 <= k < i && self.sessions@[k].0 == a && self.sessions@[k].1.need_attention;
                        assert(self.sessions@[k].0 != self.sessions@[i as int].0);
                    }
                    seen = seen.insert(a);
                }
                n = n + 1;
            }
            proof {
                assert forall|a: Endpoint| #[trigger] seen.contains(a) <==> exists|k: int|
                    0 <= k < i + 1 && self.sessions@[k].0 == a && self.sessions@[k].1.need_attention by {
                    if exists|k: int| 0 <= k < i + 1 && self.sessions@[k].0 == a && self.sessions@[k].1.need_attention {
                        let k = choose|k: int| 0 <= k < i + 1 && self.sessions@[k].0 == a && self.sessions@[k].1.need_attention;
                        if k < i {
                            assert(exists|k2: int| 0 <= k2 < i && self.sessions@[k2].0 == a && self.sessions@[k2].1.need_attention);
                        }
                    }
                }
            }
        }
        proof {
            assert forall|a: Endpoint| #[trigger] seen.contains(a) <==> waiting(m).contains(a) by {
                if m.contains_key(a) {
                    let k = choose|k: int| 0 <= k < self.sessions@.len() && self.sessions@[k].0 == a;
                    assert(m[a] == self.sessions@[k].1);
                }
                if seen.contains(a) {
                    let k = choose|k: int| 0 <= k < self.sessions@.len() && self.sessions@[k].0 == a && self.sessions@[k].1.need_attention;
                    assert(m[a] == self.sessions@[k].1);
                }
            }
            assert(seen =~= waiting(m));
        }
        n
    }

    /// Closes every session, handing them all back, each once.
    pub fn take_all(&mut self) -> (r: Vec<(Endpoint, RconState)>)
        requires
            old(self).wf(),
        ensures
            final(self).wf(),
            final(self)@ == Map::<Endpoint, RconState>::empty(),
            session_addrs_distinct(r@),
            sessions_map(r@) == old(self)@,
    {
        let mut taken: Vec<(Endpoint, RconState)> = Vec::new();
        std::mem::swap(&mut taken, &mut self.sessions);
        taken
    }
}

/// The session selected after closing `closed`: a closed selection is
/// cleared, any other stays.
pub fn selection_after_close(selected: Option<Endpoint>, closed: Endpoint) -> (r: Option<Endpoint>)
    ensures
        r == if selected == Some(closed) {
            None
        } else {
            selected
        },
{
    match selected {
        Some(a) => if a == closed {
            None
        } else {
            Some(a)
        },
        None => None,
    }
}

// ---------------------------------------------------------------------------
// Chat panel on small screens
// ---------------------------------------------------------------------------

/// Whether the chat overlay is open, and how many log entries had been seen
/// when it was last open.
#[derive(Clone, Copy, Debug, PartialEq, Eq, Structural)]
pub struct ChatBadge {
    pub shown: bool,
    pub seen: usize,
}

/// Whether the unread marker shows: the overlay is closed and the log has
/// grown past what was seen.
pub open spec fn has_unread(b: ChatBadge, log_count: nat) -> bool {
    !b.shown && log_count > b.seen
}

impl ChatBadge {
    /// A closed overlay that counts the current log as seen.
    pub fn new(log_count: usize) -> (r: ChatBadge)
        ensures
            r == (ChatBadge { shown: false, seen: log_count }),
    {
        ChatBadge { shown: false, seen: log_count }
    }

    /// Draws the panel for a log of `log_count` entries: says whether the
    /// unread marker shows, and, while the overlay is open, counts the grown
    /// log as seen.
    pub fn refresh(&mut self, log_count: usize) -> (r: bool)
        ensures
            r == has_unread(*old(self), log_count as nat),
            final(self).shown == old(self).shown,
            final(self).seen == if old(self).shown && log_count > old(self).seen {
                log_count
            } else {
                old(self).seen
            },
    {
        let unread = !self.shown && log_count > self.seen;
        if self.shown && log_count > self.seen {
            self.seen = log_count;
        }
        unread
    }

    /// Opens the overlay; the whole log counts as seen.
    pub fn open(&mut self, log_count: usize)
        ensures
            *final(self) == (ChatBadge { shown: true, seen: log_count }),
    {
        self.seen = log_count;
        self.shown = true;
    }

    /// Closes the overlay; the whole log counts as seen.
    pub fn close(&mut self, log_count: usize)
        ensures
            *final(self) == (ChatBadge { shown: false, seen: log_count }),
    {
        self.shown = false;
        self.seen = log_count;
    }
}

/// Once the overlay has been open or closed at a log length, the marker
/// shows exactly when the log grows past that length while it is closed,
/// and never while it is open.
pub proof fn law_unread_only_after_growth(at: usize, later: nat)
    ensures
        !has_unread(ChatBadge { shown: true, seen: at }, later),
        has_unread(ChatBadge { shown: false, seen: at }, later) <==> later > at,
{
}

// ---------------------------------------------------------------------------
// Session tabs
// ---------------------------------------------------------------------------

/// `s` is in string order of its labels (equal labels in any order).
pub open spec fn labels_sorted(s: Seq<(Seq<char>, Endpoint)>) -> bool {
    forall|i: int, j: int| 0 <= i < j < s.len() ==> !lex_less(#[trigger] s[j].0, #[trigger] s[i].0)
}

/// The labelled sessions as values.
pub open spec fn label_views(v: Seq<(String, Endpoint)>) -> Seq<(Seq<char>, Endpoint)> {
    v.map_values(|p: (String, Endpoint)| (p.0@, p.1))
}

/// The sessions ordered by their labels (the address as text), keeping the
/// given order among equal labels.
pub fn sort_by_label(items: Vec<(String, Endpoint)>) -> (r: Vec<(String, Endpoint)>)
    ensures
        labels_sorted(label_views(r@)),
        label_views(r@).to_multiset() == label_views(items@).to_multiset(),
{
    let mut out: Vec<(String, Endpoint)> = Vec::new();
    let n = items.len();
    let mut items = items;
    let ghost all = label_views(items@);
    let mut i: usize = 0;
    assert(label_views(out@) =~= Seq::<(Seq<char>, Endpoint)>::empty());
    assert(all.take(0) =~= Seq::<(Seq<char>, Endpoint)>::empty());
    while i < n
        invariant
            i <= n,
            n == items@.len(),
            all == label_views(items@),
            labels_sorted(label_views(out@)),
            label_views(out@).to_multiset() == all.take(i as int).to_multiset(),
        decreases n - i,
    {
        let x = (items[i].0.clone(), items[i].1);
        let xk = chars_of(x.0.as_str());
        let ghost s = label_views(out@);
        let ghost xv = (x.0@, x.1);
        assert(xv == all[i as int]);
        let mut p: usize = 0;
        while p < out.len() && !lex_less_chars(&xk, &chars_of(out[p].0.as_str()))
            invariant
                p <= out@.len(),
                s == label_views(out@),
                labels_sorted(s),
                xk@ == xv.0,
                forall|k: int| 0 <= k < p ==> !lex_less(xv.0, #[trigger] s[k].0),
            decreases out@.len() - p,
        {
            p = p + 1;
        }
        proof {
            if p < s.len() {
                assert forall|k: int| p <= k < s.len() implies !lex_less(#[trigger] s[k].0, xv.0) by {
                    if lex_less(s[k].0, xv.0) {
                        if k > p {
                            if lex_less(s[p as int].0, s[k].0) {
                                lemma_lex_transitive(xv.0, s[p as int].0, s[k].0);
                                lemma_lex_transitive(s[k].0, xv.0, s[k].0);
                                lemma_lex_irreflexive(s[k].0);
                            } else {
                                if s[p as int].0 != s[k].0 {
                                    lemma_lex_total(s[p as int].0, s[k].0);
                                }
                                lemma_lex_transitive(s[k].0, xv.0, s[k].0);
                                lemma_lex_irreflexive(s[k].0);
                            }
                        } else {
                            lemma_lex_transitive(s[k].0, xv.0, s[k].0);
                            lemma_lex_irreflexive(s[k].0);
                        }
                    }
                }
            }
        }
        out.insert(p, x);
        proof {
            let t = label_views(out@);
            assert(t =~= s.insert(p as int, xv));
            assert forall|a: int, b: int| 0 <= a < b < t.len() implies !lex_less(#[trigger] t[b].0, #[trigger] t[a].0) by {
                if b < p {
                    assert(t[a] == s[a] && t[b] == s[b]);
                } else if b == p {
                    assert(t[a] == s[a]);
                } else if a < p {
                    assert(t[a] == s[a] && t[b] == s[b - 1]);
                    if lex_less(t[b].0, t[a].0) {
                        if t[a].0 != xv.0 {
                            lemma_lex_total(t[a].0, xv.0);
                            if lex_less(xv.0, t[a].0) {
                            } else {
                                lemma_lex_transitive(t[b].0, t[a].0, xv.0);
                            }
                        }
                    }
                } else if a == p {
                    assert(t[b] == s[b - 1]);
                } else {
                    assert(t[a] == s[a - 1] && t[b] == s[b - 1]);
                }
            }
            assert(all.take(i + 1) =~= all.take(i as int).push(xv));
        }
        i = i + 1;
    }
    assert(all.take(n as int) =~= all);
    out
}

/// The label of a session tab: the server's host name, or its address.
pub fn tab_label(hostname: &Option<String>, addr_text: &str) -> (r: String)
    ensures
        r@ == match hostname {
            Some(h) => h@,
            None => addr_text@,
        },
{
    match hostname {
        Some(h) => h.clone(),
        None => String::from_str(addr_text),
    }
}

// ---------------------------------------------------------------------------
// Dashboard cards
// ---------------------------------------------------------------------------

/// The status badge of a session: text and colour.
pub open spec fn status_badge_of(status: RconStatus, paused: bool) -> (Seq<char>, Seq<char>) {
    match status {
        RconStatus::Authenticated => if paused {
            ("● PAUSED"@, "text-orange-400"@)
        } else {
            ("● RUNNING"@, "text-emerald-500"@)
        },
        RconStatus::Connecting => ("● CONNECTING"@, "text-blue-500"@),
        RconStatus::Disconnected => ("● OFFLINE"@, "text-yellow-600"@),
        RconStatus::Error => ("● ERROR"@, "text-red-500"@),
    }
}

/// The status badge of a session.
pub fn status_badge(status: RconStatus, paused: bool) -> (r: (String, String))
    ensures
        (r.0@, r.1@) == status_badge_of(status, paused),
{
    match status {
        RconStatus::Authenticated => if paused {
            (String::from_str("● PAUSED"), String::from_str("text-orange-400"))
        } else {
            (String::from_str("● RUNNING"), String::from_str("text-emerald-500"))
        },
        RconStatus::Connecting => (String::from_str("● CONNECTING"), String::from_str("text-blue-500")),
        RconStatus::Disconnected => (String::from_str("● OFFLINE"), String::from_str("text-yellow-600")),
        RconStatus::Error => (String::from_str("● ERROR"), String::from_str("text-red-500")),
    }
}

/// The team names shown on a card: the logged names, or the sides' names
/// while none is known.
pub fn shown_team_names(ct: &String, t: &String) -> (r: (String, String))
    ensures
        r.0@ == if ct@.len() == 0 {
            "COUNTER-TERRORISTS"@
        } else {
            ct@
        },
        r.1@ == if t@.len() == 0 {
            "TERRORISTS"@
        } else {
            t@
        },
{
    let a = if chars_of(ct.as_str()).len() == 0 {
        String::from_str("COUNTER-TERRORISTS")
    } else {
        ct.clone()
    };
    let b = if chars_of(t.as_str()).len() == 0 {
        String::from_str("TERRORISTS")
    } else {
        t.clone()
    };
    (a, b)
}

/// The names of the players that have one, each player once, in the
/// roster's own order.
pub fn named_players(players: &RconPlayers) -> (r: Vec<String>)
    ensures
        exists|ks: Seq<u16>|
            #![trigger ks.no_duplicates()]
            ks.no_duplicates() && r@.len() == ks.len()
                && (forall|k: u16| #[trigger] ks.contains(k) <==> (players@.contains_key(k) && players@[k].name.len() > 0))
                && forall|i: int| 0 <= i < ks.len() ==> #[trigger] r@[i]@ == players@[ks[i]].name,
{
    let slots = players.slots();
    let m = players.players();
    let mut r: Vec<String> = Vec::new();
    let ghost mut ks: Seq<u16> = Seq::empty();
    let ghost pv = players@;
    for i in 0..slots.len()
        invariant
            pv == players@,
            pv == crate::players::player_views(m@),
            slots@.to_set() == pv.dom(),
            slots@.no_duplicates(),
            ks.no_duplicates(),
            r@.len() == ks.len(),
            forall|k: u16| #[trigger] ks.contains(k) <==> (exists|j: int| 0 <= j < i && slots@[j] == k)
                && pv.contains_key(k) && pv[k].name.len() > 0,
            forall|j: int| 0 <= j < ks.len() ==> #[trigger] r@[j]@ == pv[ks[j]].name,
    {
        let k = slots[i];
        assert(slots@.to_set().contains(k));
        match m.get(&k) {
            Some(p) => {
                if chars_of(p.name.as_str()).len() > 0 {
                    proof {
                        if ks.contains(k) {
                            let j = choose|j: int| 0 <= j < i && slots@[j] == k;
                            assert(slots@[j] == slots@[i as int]);
                        }
                    }
                    r.push(p.name.clone());
                    proof {
                        let old_ks = ks;
                        ks = ks.push(k);
                        assert forall|x: u16| #[trigger] ks.contains(x) <==> (exists|j: int| 0 <= j < i + 1 && slots@[j] == x)
                            && pv.contains_key(x) && pv[x].name.len() > 0 by {
                            if ks.contains(x) && x != k {
                                let t = choose|t: int| 0 <= t < ks.len() && ks[t] == x;
                                assert(old_ks[t] == x);
                            }
                            if x == k {
                                assert(ks[ks.len() - 1] == x);
                            }
                            if (exists|j: int| 0 <= j < i + 1 && slots@[j] == x) && x != k {
                                let j = choose|j: int| 0 <= j < i + 1 && slots@[j] == x;
                                assert(j < i);
                            }
                            if old_ks.contains(x) {
                                let t = choose|t: int| 0 <= t < old_ks.len() && old_ks[t] == x;
                                assert(ks[t] == x);
                            }
                        }
                    }
                } else {
                    proof {
                        assert forall|x: u16| #[trigger] ks.contains(x) <==> (exists|j: int| 0 <= j < i + 1 && slots@[j] == x)
                            && pv.contains_key(x) && pv[x].name.len() > 0 by {
                            if (exists|j: int| 0 <= j < i + 1 && slots@[j] == x) && x != k {
                                let j = choose|j: int| 0 <= j < i + 1 && slots@[j] == x;
                                assert(j < i);
                            }
                        }
                    }
                }
            },
            None => {},
        }
    }
    proof {
        assert forall|x: u16| #[trigger] ks.contains(x) <==> (pv.contains_key(x) && pv[x].name.len() > 0) by {
            if pv.contains_key(x) {
                assert(slots@.to_set().contains(x));
                let j = choose|j: int| 0 <= j < slots@.len() && slots@[j] == x;
            }
        }
    }
    r
}

// ---------------------------------------------------------------------------
// Server list rows and details
// ---------------------------------------------------------------------------

/// The ping column: `<ping>ms`, or `OFFLINE`.
pub fn ping_text(ping: Option<u16>) -> (r: String)
    ensures
        r@ == match ping {
            Some(p) => decimal(p as nat) + "ms"@,
            None => "OFFLINE"@,
        },
{
    match ping {
        Some(p) => {
            let mut s = String::new();
            push_decimal(&mut s, p as u64);
            s.append("ms");
            s
        },
        None => String::from_str("OFFLINE"),
    }
}

/// The bot note of a row: none without bots, else `Bot` or `Bots`.
pub fn bot_label(bots: Option<u8>) -> (r: Option<String>)
    ensures
        match bots {
            Some(b) => if b > 0 {
                r matches Some(l) && l@ == if b == 1 {
                    "Bot"@
                } else {
                    "Bots"@
                }
            } else {
                r is None
            },
            None => r is None,
        },
{
    match bots {
        Some(b) => if b > 0 {
            if b == 1 {
                Some(String::from_str("Bot"))
            } else {
                Some(String::from_str("Bots"))
            }
        } else {
            None
        },
        None => None,
    }
}

/// The latency shown in the details: `<ping>ms Latency`, or `Unreachable`.
pub fn latency_text(ping: Option<u16>) -> (r: String)
    ensures
        r@ == match ping {
            Some(p) => decimal(p as nat) + "ms Latency"@,
            None => "Unreachable"@,
        },
{
    match ping {
        Some(p) => {
            let mut s = String::new();
            push_decimal(&mut s, p as u64);
            s.append("ms Latency");
            s
        },
        None => String::from_str("Unreachable"),
    }
}

/// The player count shown in the details: `<players>/<max>`, unknown
/// counts as zero.
pub fn player_count_text(players: Option<u8>, max: Option<u8>) -> (r: String)
    ensures
        r@ == decimal(
            match players {
                Some(p) => p as nat,
                None => 0,
            },
        ) + "/"@ + decimal(
            match max {
                Some(m) => m as nat,
                None => 0,
            },
        ),
{
    let p: u64 = match players {
        Some(p) => p as u64,
        None => 0,
    };
    let m: u64 = match max {
        Some(m) => m as u64,
        None => 0,
    };
    let mut s = String::new();
    push_decimal(&mut s, p);
    s.append("/");
    push_decimal(&mut s, m);
    s
}

/// Whether the password typed differs from the one saved (none saved counts
/// as empty).
pub fn password_changed(typed: &str, saved: &Option<String>) -> (r: bool)
    ensures
        r == (typed@ != match saved {
            Some(s) => s@,
            None => Seq::<char>::empty(),
        }),
{
    let s = match saved {
        Some(s) => chars_of(s.as_str()),
        None => Vec::new(),
    };
    !chars_eq(&chars_of(typed), &s)
}

/// The hint of the password field.
pub fn password_placeholder(has_password: bool) -> (r: String)
    ensures
        r@ == if has_password {
            "Enter server password"@
        } else {
            "No password"@
        },
{
    if has_password {
        String::from_str("Enter server password")
    } else {
        String::from_str("No password")
    }
}

/// The Steam URL that joins a server: `steam://connect/<address>/<password>`.
pub fn steam_connect_url(addr_text: &str, password: &str) -> (r: String)
    ensures
        r@ == "steam://connect/"@ + addr_text@ + "/"@ + password@,
{
    let mut s = String::from_str("steam://connect/");
    s.append(addr_text);
    s.append("/");
    s.append(password);
    s
}

/// A text, or `fallback` where there is none.
pub fn text_or(text: &Option<String>, fallback: &str) -> (r: String)
    ensures
        r@ == match text {
            Some(t) => t@,
            None => fallback@,
        },
{
    match text {
        Some(t) => t.clone(),
        None => String::from_str(fallback),
    }
}

} // verus!
