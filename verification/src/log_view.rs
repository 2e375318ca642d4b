//! The application log viewer: which entries are shown under the chosen
//! levels, crates, target and search text, and how an entry is labelled.
use vstd::prelude::*;
use crate::app_log::{AppLogEntry, AppLogLevel, path_sep};
use crate::session::string_views;
use crate::text::{
    chars_eq, chars_of, contains, contains_chars, decimal, decimal_chars, lemma_lex_total,
    lemma_lex_transitive, lex_less, lex_less_chars, split, split_chars, string_from_chars,
};

verus! {

/// The result of `str::to_lowercase`: the full Unicode lower-case mapping,
/// which depends on the text alone.
pub uninterp spec fn unicode_lowercase(s: Seq<char>) -> Seq<char>;

/// The text in lower case.
///
/// Trusted: calls `str::to_lowercase`, a function of the text alone; what
/// it returns is named, not stated.
#[verifier::external_body]
fn lowercase(s: &str) -> (r: String)
    ensures
        r@ == unicode_lowercase(s@),
{
    s.to_lowercase()
}

/// The crates whose entries can be chosen one by one; entries of all other
/// crates are chosen together as `Rest`.
pub open spec fn main_crates() -> Seq<Seq<char>> {
    seq!["lan_game_scan"@, "cbz_rcon"@, "live_log"@]
}

/// The crate of a target: its first `::` segment.
pub open spec fn crate_of(target: Seq<char>) -> Seq<char> {
    split(target, path_sep())[0]
}

/// An entry of `target` is chosen by `selected`: its crate is chosen by
/// name when it is a main crate, and by `Rest` otherwise.
pub open spec fn crate_selected(target: Seq<char>, selected: Seq<Seq<char>>) -> bool {
    let c = crate_of(target);
    if main_crates().contains(c) {
        selected.contains(c)
    } else {
        selected.contains("Rest"@)
    }
}

fn contains_text(v: &Vec<String>, t: &[char]) -> (r: bool)
    ensures
        r == string_views(v@).contains(t@),
{
    for i in 0..v.len()
        invariant
            forall|j: int| 0 <= j < i ==> #[trigger] v@[j]@ != t@,
    {
        if chars_eq(&chars_of(v[i].as_str()), t) {
            assert(string_views(v@)[i as int] == t@);
            return true;
        }
    }
    proof {
        if string_views(v@).contains(t@) {
            let j = choose|j: int| 0 <= j < string_views(v@).len() && string_views(v@)[j] == t@;
            assert(v@[j]@ == t@);
        }
    }
    false
}

/// Whether entries of `target` are chosen by `selected`.
pub fn is_crate_selected(target: &str, selected: &Vec<String>) -> (r: bool)
    ensures
        r == crate_selected(target@, string_views(selected@)),
{
    let t = chars_of(target);
    let sep: Vec<char> = vec![':', ':'];
    assert(sep@ =~= path_sep());
    let parts = split_chars(&t, &sep);
    proof {
        crate::text::lemma_split_nonempty(t@, sep@);
    }
    let c = &parts[0];
    let is_main = chars_eq(c, &chars_of("lan_game_scan")) || chars_eq(c, &chars_of("cbz_rcon"))
        || chars_eq(c, &chars_of("live_log"));
    proof {
        let cv = c@;
        if main_crates().contains(cv) {
            let k = choose|k: int| 0 <= k < 3 && main_crates()[k] == cv;
            assert(k == 0 || k == 1 || k == 2);
        }
        if is_main {
            if cv == "lan_game_scan"@ {
                assert(main_crates()[0] == cv);
            } else if cv == "cbz_rcon"@ {
                assert(main_crates()[1] == cv);
            } else {
                assert(main_crates()[2] == cv);
            }
        }
    }
    if is_main {
        contains_text(selected, c)
    } else {
        contains_text(selected, &chars_of("Rest"))
    }
}

/// The choices of the log viewer.
pub struct LogFilter {
    pub show_trace: bool,
    pub show_debug: bool,
    pub show_info: bool,
    pub show_warn: bool,
    pub show_error: bool,
    /// The crates chosen, by name, and `Rest` for all others.
    pub selected_crates: Vec<String>,
    /// The one target to show; empty for all.
    pub selected_target: String,
    /// The search text; empty for none.
    pub search: String,
}

/// Whether entries of level `l` are shown.
pub open spec fn level_shown(f: LogFilter, l: AppLogLevel) -> bool {
    match l {
        AppLogLevel::Trace => f.show_trace,
        AppLogLevel::Debug => f.show_debug,
        AppLogLevel::Info => f.show_info,
        AppLogLevel::Warn => f.show_warn,
        AppLogLevel::Error => f.show_error,
    }
}

/// Whether an entry is shown: its level is on, its crate chosen, its
/// target the chosen one (when one is), and its message or target contains
/// the search text, all in lower case (when there is one).
pub open spec fn entry_shown(f: LogFilter, e: AppLogEntry) -> bool {
    let q = unicode_lowercase(f.search@);
    &&& level_shown(f, e.level)
    &&& crate_selected(e.target@, string_views(f.selected_crates@))
    &&& (f.selected_target@.len() == 0 || e.target@ == f.selected_target@)
    &&& (q.len() == 0 || contains(unicode_lowercase(e.message@), q) || contains(
        unicode_lowercase(e.target@),
        q,
    ))
}

/// Each level has its own checkbox: an entry is shown only while the box
/// of its own level is ticked, and ticking or unticking one level's box
/// changes whether an entry is shown only for entries of that level.
pub proof fn law_each_level_has_its_own_box(f: LogFilter, e: AppLogEntry, on: bool)
    ensures
        entry_shown(f, e) && e.level == AppLogLevel::Trace ==> f.show_trace,
        entry_shown(f, e) && e.level == AppLogLevel::Debug ==> f.show_debug,
        entry_shown(f, e) && e.level == AppLogLevel::Info ==> f.show_info,
        entry_shown(f, e) && e.level == AppLogLevel::Warn ==> f.show_warn,
        entry_shown(f, e) && e.level == AppLogLevel::Error ==> f.show_error,
        e.level != AppLogLevel::Trace ==> entry_shown(LogFilter { show_trace: on, ..f }, e) == entry_shown(f, e),
        e.level != AppLogLevel::Debug ==> entry_shown(LogFilter { show_debug: on, ..f }, e) == entry_shown(f, e),
        e.level != AppLogLevel::Info ==> entry_shown(LogFilter { show_info: on, ..f }, e) == entry_shown(f, e),
        e.level != AppLogLevel::Warn ==> entry_shown(LogFilter { show_warn: on, ..f }, e) == entry_shown(f, e),
        e.level != AppLogLevel::Error ==> entry_shown(LogFilter { show_error: on, ..f }, e) == entry_shown(f, e),
{
}

/// The entries shown, in order.
pub open spec fn shown_entries(f: LogFilter, s: Seq<AppLogEntry>) -> Seq<AppLogEntry>
    decreases s.len(),
{
    if s.len() == 0 {
        Seq::empty()
    } else {
        let rest = shown_entries(f, s.drop_last());
        if entry_shown(f, s.last()) {
            rest.push(s.last())
        } else {
            rest
        }
    }
}

impl LogFilter {
    /// Everything shown: all levels, all crates, any target, no search.
    pub fn new() -> (r: LogFilter)
        ensures
            r.show_trace && r.show_debug && r.show_info && r.show_warn && r.show_error,
            string_views(r.selected_crates@) == main_crates().push("Rest"@),
            r.selected_target@.len() == 0,
            r.search@.len() == 0,
    {
        let mut c: Vec<String> = Vec::new();
        c.push(String::from_str("lan_game_scan"));
        c.push(String::from_str("cbz_rcon"));
        c.push(String::from_str("live_log"));
        c.push(String::from_str("Rest"));
        assert(string_views(c@) =~= main_crates().push("Rest"@));
        LogFilter {
            show_trace: true,
            show_debug: true,
            show_info: true,
            show_warn: true,
            show_error: true,
            selected_crates: c,
            selected_target: String::new(),
            search: String::new(),
        }
    }

    /// Whether an entry is shown.
    pub fn shows(&self, e: &AppLogEntry) -> (r: bool)
        ensures
            r == entry_shown(*self, *e),
    {
        let level_on = match e.level {
            AppLogLevel::Trace => self.show_trace,
            AppLogLevel::Debug => self.show_debug,
            AppLogLevel::Info => self.show_info,
            AppLogLevel::Warn => self.show_warn,
            AppLogLevel::Error => self.show_error,
        };
        if !level_on {
            return false;
        }
        if !is_crate_selected(e.target.as_str(), &self.selected_crates) {
            return false;
        }
        let chosen = chars_of(self.selected_target.as_str());
        if chosen.len() != 0 && !chars_eq(&chars_of(e.target.as_str()), &chosen) {
            return false;
        }
        let q = chars_of(lowercase(self.search.as_str()).as_str());
        if q.len() == 0 {
            return true;
        }
        contains_chars(&chars_of(lowercase(e.message.as_str()).as_str()), &q) || contains_chars(
            &chars_of(lowercase(e.target.as_str()).as_str()),
            &q,
        )
    }

    /// The entries shown, in order.
    pub fn filter_entries(&self, entries: &Vec<AppLogEntry>) -> (r: Vec<AppLogEntry>)
        ensures
            r@ == shown_entries(*self, entries@),
    {
        let mut r: Vec<AppLogEntry> = Vec::new();
        for i in 0..entries.len()
            invariant
                r@ == shown_entries(*self, entries@.take(i as int)),
        {
            let ghost upto = entries@.take(i + 1);
            assert(upto.drop_last() =~= entries@.take(i as int));
            if self.shows(&entries[i]) {
                r.push(entries[i].duplicate());
            }
        }
        assert(entries@.take(entries@.len() as int) =~= entries@);
        r
    }
}

/// Whether a text differs from `name`.
pub open spec fn other_than(name: Seq<char>) -> spec_fn(Seq<char>) -> bool {
    |c: Seq<char>| c != name
}

/// Chooses `name` when it is not chosen, and unchooses it (every copy)
/// when it is.
pub fn toggle_crate(selected: &mut Vec<String>, name: String)
    ensures
        string_views(old(selected)@).contains(name@) ==> string_views(final(selected)@)
            == string_views(old(selected)@).filter(other_than(name@)),
        !string_views(old(selected)@).contains(name@) ==> string_views(final(selected)@)
            == string_views(old(selected)@).push(name@),
{
    let n = chars_of(name.as_str());
    if contains_text(selected, &n) {
        let mut kept: Vec<String> = Vec::new();
        let ghost s = string_views(selected@);
        for i in 0..selected.len()
            invariant
                s == string_views(selected@),
                n@ == name@,
                string_views(kept@) == s.take(i as int).filter(other_than(name@)),
        {
            let ghost prev = string_views(kept@);
            proof {
                reveal(Seq::filter);
                assert(s.take(i + 1).drop_last() =~= s.take(i as int));
                assert(s.take(i + 1).last() == s[i as int]);
                assert(s.take(i as int).push(s[i as int]) =~= s.take(i + 1));
            }
            if !chars_eq(&chars_of(selected[i].as_str()), &n) {
                kept.push(selected[i].clone());
                assert(string_views(kept@) =~= prev.push(s[i as int]));
            }
        }
        assert(s.take(s.len() as int) =~= s);
        *selected = kept;
    } else {
        let ghost s = string_views(selected@);
        selected.push(name);
        assert(string_views(selected@) =~= s.push(n@));
    }
}

/// The chosen target after the target list changed: a chosen target that
/// is no longer listed is dropped.
pub fn revalidate_target(selected: &mut String, targets: &Vec<String>)
    ensures
        (old(selected)@.len() > 0 && !string_views(targets@).contains(old(selected)@))
            ==> final(selected)@.len() == 0,
        !(old(selected)@.len() > 0 && !string_views(targets@).contains(old(selected)@))
            ==> final(selected)@ == old(selected)@,
{
    let s = chars_of(selected.as_str());
    if s.len() != 0 && !contains_text(targets, &s) {
        *selected = String::new();
    }
}

/// `s` is in strictly increasing string order.
pub open spec fn texts_sorted(s: Seq<Seq<char>>) -> bool {
    forall|i: int, j: int| 0 <= i < j < s.len() ==> lex_less(#[trigger] s[i], #[trigger] s[j])
}

fn insert_text(out: &mut Vec<Vec<char>>, x: Vec<char>)
    requires
        texts_sorted(crate::session::char_views(old(out)@)),
    ensures
        texts_sorted(crate::session::char_views(final(out)@)),
        forall|m: Seq<char>| crate::session::char_views(final(out)@).contains(m) <==> (
        crate::session::char_views(old(out)@).contains(m) || m == x@),
{
    let ghost s = crate::session::char_views(out@);
    let mut p: usize = 0;
    while p < out.len() && lex_less_chars(&out[p], &x)
        invariant
            p <= out@.len(),
            s == crate::session::char_views(out@),
            texts_sorted(s),
            forall|k: int| 0 <= k < p ==> lex_less(#[trigger] s[k], x@),
        decreases out@.len() - p,
    {
        p = p + 1;
    }
    if p < out.len() && chars_eq(&out[p], &x) {
        assert(s[p as int] == x@);
        return;
    }
    let ghost xv = x@;
    proof {
        if p < s.len() {
            assert(s[p as int] != xv);
            lemma_lex_total(s[p as int], xv);
            assert forall|k: int| p <= k < s.len() implies lex_less(xv, #[trigger] s[k]) by {
                if k > p {
                    lemma_lex_transitive(xv, s[p as int], s[k]);
                }
            }
        }
    }
    out.insert(p, x);
    proof {
        let t = crate::session::char_views(out@);
        assert(t =~= s.insert(p as int, xv));
        assert forall|i: int, j: int| 0 <= i < j < t.len() implies lex_less(#[trigger] t[i], #[trigger] t[j]) by {
            if j < p {
                assert(t[i] == s[i] && t[j] == s[j]);
            } else if j == p {
                assert(t[i] == s[i]);
            } else if i < p {
                assert(t[i] == s[i] && t[j] == s[j - 1]);
                if p < s.len() {
                    lemma_lex_transitive(s[i], xv, s[j - 1]);
                }
            } else if i == p {
                assert(t[j] == s[j - 1]);
            } else {
                assert(t[i] == s[i - 1] && t[j] == s[j - 1]);
            }
        }
        assert forall|m: Seq<char>| t.contains(m) <==> (s.contains(m) || m == xv) by {
            if t.contains(m) {
                let i = choose|i: int| 0 <= i < t.len() && t[i] == m;
                if i < p {
                    assert(s[i] == m);
                } else if i > p {
                    assert(s[i - 1] == m);
                }
            }
            if s.contains(m) {
                let i = choose|i: int| 0 <= i < s.len() && s[i] == m;
                if i < p {
                    assert(t[i] == m);
                } else {
                    assert(t[i + 1] == m);
                }
            }
            if m == xv {
                assert(t[p as int] == m);
            }
        }
    }
}

/// The targets of the entries whose crate is chosen, each once, in string
/// order (the target list of the viewer).
pub fn selectable_targets(entries: &Vec<AppLogEntry>, selected: &Vec<String>) -> (r: Vec<String>)
    ensures
        texts_sorted(string_views(r@)),
        forall|t: Seq<char>| #[trigger] string_views(r@).contains(t) <==> exists|i: int|
            0 <= i < entries@.len() && entries@[i].target@ == t && crate_selected(
                t,
                string_views(selected@),
            ),
{
    let mut out: Vec<Vec<char>> = Vec::new();
    assert(crate::session::char_views(out@) =~= Seq::<Seq<char>>::empty());
    for i in 0..entries.len()
        invariant
            texts_sorted(crate::session::char_views(out@)),
            forall|t: Seq<char>| #[trigger] crate::session::char_views(out@).contains(t) <==> exists|j: int|
                0 <= j < i && entries@[j].target@ == t && crate_selected(t, string_views(selected@)),
    {
        let ghost before = crate::session::char_views(out@);
        let tv = chars_of(entries[i].target.as_str());
        let chosen = is_crate_selected(entries[i].target.as_str(), selected);
        if chosen {
            insert_text(&mut out, tv);
        }
        proof {
            assert forall|t: Seq<char>| #[trigger] crate::session::char_views(out@).contains(t) <==> exists|j: int|
                0 <= j < i + 1 && entries@[j].target@ == t && crate_selected(t, string_views(selected@)) by {
                assert(before.contains(t) <==> exists|j: int|
                    0 <= j < i && entries@[j].target@ == t && crate_selected(t, string_views(selected@)));
                if exists|j: int| 0 <= j < i + 1 && entries@[j].target@ == t && crate_selected(t, string_views(selected@)) {
                    let j = choose|j: int| 0 <= j < i + 1 && entries@[j].target@ == t && crate_selected(t, string_views(selected@));
                    if j == i {
                        assert(chosen);
                    } else {
                        assert(exists|k: int| 0 <= k < i && entries@[k].target@ == t && crate_selected(t, string_views(selected@)));
                    }
                }
                if before.contains(t) {
                    let j = choose|j: int| 0 <= j < i && entries@[j].target@ == t && crate_selected(t, string_views(selected@));
                    assert(0 <= j < i + 1);
                }
            }
        }
    }
    let mut r: Vec<String> = Vec::new();
    for j in 0..out.len()
        invariant
            string_views(r@) == crate::session::char_views(out@).take(j as int),
    {
        let st = string_from_chars(&out[j]);
        let ghost prev = r@;
        let ghost sv = st@;
        assert(sv == crate::session::char_views(out@)[j as int]);
        r.push(st);
        assert(string_views(r@) =~= string_views(prev).push(sv));
        assert(crate::session::char_views(out@).take(j + 1) =~= crate::session::char_views(out@).take(j as int).push(sv));
    }
    assert(crate::session::char_views(out@).take(out@.len() as int) =~= crate::session::char_views(out@));
    r
}

/// The colour of an entry's level.
pub open spec fn level_class_of(l: AppLogLevel) -> Seq<char> {
    match l {
        AppLogLevel::Trace => "text-zinc-500"@,
        AppLogLevel::Debug => "text-blue-400"@,
        AppLogLevel::Info => "text-emerald-400"@,
        AppLogLevel::Warn => "text-yellow-400"@,
        AppLogLevel::Error => "text-red-400"@,
    }
}

/// The colour of an entry's level.
pub fn level_class(l: AppLogLevel) -> (r: String)
    ensures
        r@ == level_class_of(l),
{
    match l {
        AppLogLevel::Trace => String::from_str("text-zinc-500"),
        AppLogLevel::Debug => String::from_str("text-blue-400"),
        AppLogLevel::Info => String::from_str("text-emerald-400"),
        AppLogLevel::Warn => String::from_str("text-yellow-400"),
        AppLogLevel::Error => String::from_str("text-red-400"),
    }
}

/// Where an entry was logged: `file:line`, the file alone, `line <n>`, or
/// `unknown`.
pub open spec fn location_of(file: Option<String>, line: Option<u32>) -> Seq<char> {
    match (file, line) {
        (Some(f), Some(l)) => f@ + ":"@ + decimal(l as nat),
        (Some(f), None) => f@,
        (None, Some(l)) => "line "@ + decimal(l as nat),
        (None, None) => "unknown"@,
    }
}

/// Where an entry was logged.
pub fn location(e: &AppLogEntry) -> (r: String)
    ensures
        r@ == location_of(e.file, e.line),
{
    match (&e.file, e.line) {
        (Some(f), Some(l)) => {
            let mut s = f.clone();
            s.append(":");
            let d = string_from_chars(&decimal_chars(l as u64));
            s.append(d.as_str());
            s
        },
        (Some(f), None) => f.clone(),
        (None, Some(l)) => {
            let mut s = String::from_str("line ");
            let d = string_from_chars(&decimal_chars(l as u64));
            s.append(d.as_str());
            s
        },
        (None, None) => String::from_str("unknown"),
    }
}

/// The module an entry was logged from, or `unknown`.
pub fn module_label(e: &AppLogEntry) -> (r: String)
    ensures
        r@ == match e.module {
            Some(m) => m@,
            None => "unknown"@,
        },
{
    match &e.module {
        Some(m) => m.clone(),
        None => String::from_str("unknown"),
    }
}

/// The tooltip of an entry: target, module, location and time, one per
/// line.
pub open spec fn tooltip_of(e: AppLogEntry) -> Seq<char> {
    "Target: "@ + e.target@ + "\nModule: "@ + match e.module {
        Some(m) => m@,
        None => "unknown"@,
    } + "\nLocation: "@ + location_of(e.file, e.line) + "\nTimestamp: "@
        + crate::app_log::formatted_time_of(e.timestamp)
}

/// The tooltip of an entry.
pub fn tooltip(e: &AppLogEntry) -> (r: String)
    ensures
        r@ == tooltip_of(*e),
{
    let mut s = String::from_str("Target: ");
    s.append(e.target.as_str());
    s.append("\nModule: ");
    s.append(module_label(e).as_str());
    s.append("\nLocation: ");
    s.append(location(e).as_str());
    s.append("\nTimestamp: ");
    s.append(e.formatted_time().as_str());
    s
}

/// The level as shown (its name).
pub open spec fn level_name_of(l: AppLogLevel) -> Seq<char> {
    match l {
        AppLogLevel::Trace => "Trace"@,
        AppLogLevel::Debug => "Debug"@,
        AppLogLevel::Info => "Info"@,
        AppLogLevel::Warn => "Warn"@,
        AppLogLevel::Error => "Error"@,
    }
}

/// The level as shown.
pub fn level_name(l: AppLogLevel) -> (r: String)
    ensures
        r@ == level_name_of(l),
{
    match l {
        AppLogLevel::Trace => String::from_str("Trace"),
        AppLogLevel::Debug => String::from_str("Debug"),
        AppLogLevel::Info => String::from_str("Info"),
        AppLogLevel::Warn => String::from_str("Warn"),
        AppLogLevel::Error => String::from_str("Error"),
    }
}

} // verus!
