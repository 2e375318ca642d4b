//! The application log: entries taken from the tracing pipeline, kept in a
//! store that holds the newest entries up to a fixed limit, and rendered for
//! the log viewer.
use vstd::prelude::*;
use std::collections::VecDeque;
use crate::text::{chars_of, chars_eq, decimal, decimal_padded, decimal_padded_chars, split, split_chars, string_from_chars};

verus! {

/// The most entries the store keeps; older ones are dropped first.
pub const MAX_LOG_ENTRIES: usize = 5000;

/// Severity of a log entry.
#[derive(Debug, Clone, Copy, PartialEq, Eq, Structural)]
pub enum AppLogLevel {
    Trace,
    Debug,
    Info,
    Warn,
    Error,
}

/// When an entry was recorded: a duration since the Unix epoch, or a clock
/// reading that lies before the epoch.
#[derive(Debug, Clone, Copy, PartialEq, Eq, Structural)]
pub enum Timestamp {
    SinceEpoch { secs: u64, nanos: u32 },
    BeforeEpoch,
}

/// One recorded log event.
#[derive(Debug, Clone, PartialEq)]
pub struct AppLogEntry {
    pub timestamp: Timestamp,
    pub level: AppLogLevel,
    pub target: String,
    pub message: String,
    pub module: Option<String>,
    pub file: Option<String>,
    pub line: Option<u32>,
}

/// `HH:MM:SS.mmm` (UTC time of day) of a duration since the epoch.
pub open spec fn time_of_day(secs: nat, nanos: nat) -> Seq<char> {
    decimal_padded((secs / 3600) % 24, 2) + seq![':'] + decimal_padded((secs / 60) % 60, 2)
        + seq![':'] + decimal_padded(secs % 60, 2) + seq!['.'] + decimal_padded(nanos / 1_000_000, 3)
}

/// What is shown for a time before the epoch.
pub open spec fn unknown_time() -> Seq<char> {
    seq!['?', '?', ':', '?', '?', ':', '?', '?', '.', '?', '?', '?']
}

/// The rendering of a timestamp.
pub open spec fn formatted_time_of(t: Timestamp) -> Seq<char> {
    match t {
        Timestamp::SinceEpoch { secs, nanos } => time_of_day(secs as nat, nanos as nat),
        Timestamp::BeforeEpoch => unknown_time(),
    }
}

/// A timestamp as a clock gives it: the fraction of a second is below one
/// second.
pub open spec fn timestamp_wf(t: Timestamp) -> bool {
    match t {
        Timestamp::SinceEpoch { nanos, .. } => nanos < 1_000_000_000,
        Timestamp::BeforeEpoch => true,
    }
}

/// A number below `10^k` (for `k` of one to three) has at most `k` digits.
proof fn lemma_decimal_short(n: nat, k: nat)
    requires
        1 <= k <= 3,
        k == 1 ==> n < 10,
        k == 2 ==> n < 100,
        k == 3 ==> n < 1000,
    ensures
        decimal(n).len() <= k,
    decreases k,
{
    if n >= 10 {
        lemma_decimal_short(n / 10, (k - 1) as nat);
    }
}

/// `n` padded to `w` digits is `w` characters long when it has at most `w`.
proof fn lemma_padded_len(n: nat, w: nat)
    requires
        decimal(n).len() <= w,
    ensures
        decimal_padded(n, w).len() == w,
{
}

/// The module path separator `::`.
pub open spec fn path_sep() -> Seq<char> {
    seq![':', ':']
}

/// What stands for the elided middle of a long target: `::...::`.
pub open spec fn elision() -> Seq<char> {
    seq![':', ':', '.', '.', '.', ':', ':']
}

/// A target as shown: in compact form, a path of more than two segments
/// keeps only its first and last segment around `::...::`.
pub open spec fn display_target_of(target: Seq<char>, compact: bool) -> Seq<char> {
    let parts = split(target, path_sep());
    if !compact || parts.len() <= 2 {
        target
    } else {
        parts[0] + elision() + parts.last()
    }
}

/// Every timestamp a clock gives renders as twelve characters,
/// `HH:MM:SS.mmm` or `??:??:??.???`.
pub proof fn law_formatted_time_length(t: Timestamp)
    requires
        timestamp_wf(t),
    ensures
        formatted_time_of(t).len() == 12,
{
    match t {
        Timestamp::SinceEpoch { secs, nanos } => {
            let s = secs as nat;
            lemma_decimal_short((s / 3600) % 24, 2);
            lemma_decimal_short((s / 60) % 60, 2);
            lemma_decimal_short(s % 60, 2);
            lemma_decimal_short(nanos as nat / 1_000_000, 3);
            lemma_padded_len((s / 3600) % 24, 2);
            lemma_padded_len((s / 60) % 60, 2);
            lemma_padded_len(s % 60, 2);
            lemma_padded_len(nanos as nat / 1_000_000, 3);
        },
        Timestamp::BeforeEpoch => {},
    }
}

/// The newest `MAX_LOG_ENTRIES` entries of `s`.
pub open spec fn keep_newest(s: Seq<AppLogEntry>) -> Seq<AppLogEntry> {
    if s.len() > MAX_LOG_ENTRIES {
        s.skip(s.len() - MAX_LOG_ENTRIES)
    } else {
        s
    }
}

/// The entries after pushing `e` onto a store holding `s`.
pub open spec fn pushed_log(s: Seq<AppLogEntry>, e: AppLogEntry) -> Seq<AppLogEntry> {
    keep_newest(s.push(e))
}

/// The entries after pushing each of `es` in turn onto a store holding `s`.
pub open spec fn pushed_all(s: Seq<AppLogEntry>, es: Seq<AppLogEntry>) -> Seq<AppLogEntry>
    decreases es.len(),
{
    if es.len() == 0 {
        s
    } else {
        pushed_log(pushed_all(s, es.drop_last()), es.last())
    }
}

fn append_chars(v: &mut Vec<char>, w: Vec<char>)
    ensures
        final(v)@ == old(v)@ + w@,
{
    let mut w = w;
    v.append(&mut w);
}

impl AppLogEntry {
    /// A copy of this entry.
    pub fn duplicate(&self) -> (r: AppLogEntry)
        ensures
            r == *self,
    {
        AppLogEntry {
            timestamp: self.timestamp,
            level: self.level,
            target: self.target.clone(),
            message: self.message.clone(),
            module: match &self.module {
                Some(s) => Some(s.clone()),
                None => None,
            },
            file: match &self.file {
                Some(s) => Some(s.clone()),
                None => None,
            },
            line: self.line,
        }
    }

    /// The time of day at which the entry was recorded, as `HH:MM:SS.mmm`,
    /// or `??:??:??.???` for a time before the epoch.
    pub fn formatted_time(&self) -> (r: String)
        ensures
            r@ == formatted_time_of(self.timestamp),
    {
        match self.timestamp {
            Timestamp::SinceEpoch { secs, nanos } => {
                let seconds: u64 = secs % 60;
                let minutes: u64 = (secs / 60) % 60;
                let hours: u64 = (secs / 3600) % 24;
                let millis: u32 = nanos / 1_000_000;
                let mut v = decimal_padded_chars(hours, 2);
                v.push(':');
                append_chars(&mut v, decimal_padded_chars(minutes, 2));
                v.push(':');
                append_chars(&mut v, decimal_padded_chars(seconds, 2));
                v.push('.');
                append_chars(&mut v, decimal_padded_chars(millis as u64, 3));
                string_from_chars(&v)
            },
            Timestamp::BeforeEpoch => {
                let v: Vec<char> = vec!['?', '?', ':', '?', '?', ':', '?', '?', '.', '?', '?', '?'];
                assert(v@ =~= unknown_time());
                string_from_chars(&v)
            },
        }
    }

    /// The entry's target; in compact form, a path of more than two segments
    /// is shortened to `first::...::last`.
    pub fn display_target(&self, compact: bool) -> (r: String)
        ensures
            r@ == display_target_of(self.target@, compact),
    {
        if !compact {
            return self.target.clone();
        }
        let t = chars_of(self.target.as_str());
        let sep: Vec<char> = vec![':', ':'];
        assert(sep@ =~= path_sep());
        let parts = split_chars(&t, &sep);
        if parts.len() <= 2 {
            return self.target.clone();
        }
        let n = parts.len();
        let mut v: Vec<char> = Vec::new();
        append_chars(&mut v, parts[0].clone());
        let e: Vec<char> = vec![':', ':', '.', '.', '.', ':', ':'];
        assert(e@ =~= elision());
        append_chars(&mut v, e);
        append_chars(&mut v, parts[n - 1].clone());
        string_from_chars(&v)
    }
}

/// The bounded store of log entries, oldest first.
pub struct AppLogStore {
    entries: VecDeque<AppLogEntry>,
}

impl View for AppLogStore {
    type V = Seq<AppLogEntry>;

    closed spec fn view(&self) -> Seq<AppLogEntry> {
        self.entries@
    }
}

impl AppLogStore {
    /// The store holds no more than `MAX_LOG_ENTRIES` entries.
    pub closed spec fn wf(&self) -> bool {
        self.entries@.len() <= MAX_LOG_ENTRIES
    }

    /// An empty store.
    pub fn new() -> (r: AppLogStore)
        ensures
            r.wf(),
            r@ == Seq::<AppLogEntry>::empty(),
    {
        AppLogStore { entries: VecDeque::with_capacity(MAX_LOG_ENTRIES) }
    }

    /// Appends an entry; when the store is full, the oldest entry is dropped
    /// first.
    pub fn push(&mut self, entry: AppLogEntry)
        requires
            old(self).wf(),
        ensures
            final(self).wf(),
            final(self)@ == pushed_log(old(self)@, entry),
            final(self)@.len() <= MAX_LOG_ENTRIES,
            final(self)@.last() == entry,
    {
        let ghost s = self.entries@;
        if self.entries.len() >= MAX_LOG_ENTRIES {
            let _ = self.entries.pop_front();
        }
        self.entries.push_back(entry);
        proof {
            if s.len() >= MAX_LOG_ENTRIES {
                assert(s.drop_first().push(entry) =~= s.push(entry).skip(
                    s.push(entry).len() - MAX_LOG_ENTRIES,
                ));
            }
        }
    }

    /// A copy of all entries, oldest first.
    pub fn entries(&self) -> (r: Vec<AppLogEntry>)
        ensures
            r@ == self@,
    {
        let mut r: Vec<AppLogEntry> = Vec::new();
        let n = self.entries.len();
        for i in 0..n
            invariant
                n == self.entries@.len(),
                r@ == self.entries@.take(i as int),
        {
            r.push(self.entries[i].duplicate());
            assert(self.entries@.take(i as int).push(self.entries@[i as int]) =~= self.entries@.take(
                i + 1,
            ));
        }
        assert(self.entries@.take(n as int) =~= self.entries@);
        r
    }

    /// Removes every entry.
    pub fn clear(&mut self)
        requires
            old(self).wf(),
        ensures
            final(self).wf(),
            final(self)@ == Seq::<AppLogEntry>::empty(),
    {
        self.entries.clear();
    }
}

/// Pushing entries one at a time leaves exactly the newest
/// `MAX_LOG_ENTRIES` of everything that was held and pushed, in order.
pub proof fn law_store_keeps_newest(s: Seq<AppLogEntry>, es: Seq<AppLogEntry>)
    requires
        s.len() <= MAX_LOG_ENTRIES,
    ensures
        pushed_all(s, es) == keep_newest(s + es),
    decreases es.len(),
{
    if es.len() == 0 {
        assert(s + es =~= s);
    } else {
        law_store_keeps_newest(s, es.drop_last());
        let a = s + es.drop_last();
        let k = keep_newest(a);
        assert(s + es =~= a.push(es.last()));
        if a.len() > MAX_LOG_ENTRIES {
            assert(k.push(es.last()).skip(k.push(es.last()).len() - MAX_LOG_ENTRIES)
                =~= a.push(es.last()).skip(a.push(es.last()).len() - MAX_LOG_ENTRIES));
        }
    }
}

/// The name of the field that carries an event's message.
pub open spec fn message_field() -> Seq<char> {
    seq!['m', 'e', 's', 's', 'a', 'g', 'e']
}

/// Collects the `message` field of an event while its fields are visited.
pub struct MessageVisitor {
    pub message: Option<String>,
}

impl MessageVisitor {
    /// A visitor that has seen no message yet.
    pub fn new() -> (r: MessageVisitor)
        ensures
            r.message is None,
    {
        MessageVisitor { message: None }
    }

    /// Records one field: its value becomes the message when the field is
    /// named `message`; other fields are ignored.
    pub fn record(&mut self, field: &str, value: String)
        ensures
            field@ == message_field() ==> final(self).message == Some(value),
            field@ != message_field() ==> final(self).message == old(self).message,
    {
        let name = chars_of(field);
        let m: Vec<char> = vec!['m', 'e', 's', 's', 'a', 'g', 'e'];
        assert(m@ =~= message_field());
        if chars_eq(&name, &m) {
            self.message = Some(value);
        }
    }
}

/// Turns tracing events into entries of a log store.
pub struct AppLogLayer {
    store: AppLogStore,
}

/// The entry recorded for an event; an event without a message is recorded
/// with its target as the message.
pub open spec fn entry_of_event(
    timestamp: Timestamp,
    level: AppLogLevel,
    target: String,
    message: Option<String>,
    module: Option<String>,
    file: Option<String>,
    line: Option<u32>,
) -> AppLogEntry {
    AppLogEntry {
        timestamp,
        level,
        target,
        message: match message {
            Some(m) => m,
            None => target,
        },
        module,
        file,
        line,
    }
}

impl AppLogLayer {
    /// A layer that records into `store`.
    pub fn new(store: AppLogStore) -> (r: AppLogLayer)
        requires
            store.wf(),
        ensures
            r.store().wf(),
            r.store()@ == store@,
    {
        AppLogLayer { store }
    }

    /// The store this layer records into.
    pub closed spec fn store(&self) -> AppLogStore {
        self.store
    }

    /// Read access to the store.
    pub fn log_store(&self) -> (r: &AppLogStore)
        ensures
            *r == self.store(),
    {
        &self.store
    }

    /// Records one event.
    pub fn on_event(
        &mut self,
        timestamp: Timestamp,
        level: AppLogLevel,
        target: String,
        message: Option<String>,
        module: Option<String>,
        file: Option<String>,
        line: Option<u32>,
    )
        requires
            old(self).store().wf(),
        ensures
            final(self).store().wf(),
            final(self).store()@ == pushed_log(
                old(self).store()@,
                entry_of_event(timestamp, level, target, message, module, file, line),
            ),
    {
        let msg = match message {
            Some(m) => m,
            None => target.clone(),
        };
        let entry = AppLogEntry { timestamp, level, target, message: msg, module, file, line };
        self.store.push(entry);
    }
}

} // verus!
