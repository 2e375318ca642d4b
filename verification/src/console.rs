//! The RCON console's command line: completion of console variables,
//! keyboard navigation through completions and the command history, and
//! submission of commands.
use vstd::prelude::*;
use crate::cvar::{Cvar, CvarDatabase, CvarFlag, CvarModel, cvar_views, suggestions};
use crate::session::{RconLogEvent, StateUpdate, string_views};
use crate::text::{chars_eq, chars_of, has_whitespace, is_ws, trim, trim_chars, string_from_chars};

verus! {

/// The most commands the history keeps; older ones are dropped first.
pub const MAX_COMMAND_HISTORY: usize = 100;

/// A key the command line reacts to.
#[derive(Debug, Clone, Copy, PartialEq, Eq, Structural)]
pub enum InputKey {
    Escape,
    ArrowUp,
    ArrowDown,
    Enter,
    Other,
}

/// The command line.
pub struct CommandInput {
    /// The text typed.
    pub input: String,
    /// The completions offered for it.
    pub suggestions: Vec<Cvar>,
    /// The highlighted completion.
    pub suggestion_index: Option<usize>,
    /// The history entry shown, when browsing the history.
    pub history_index: Option<usize>,
}

/// The command line as a mathematical value.
pub struct InputView {
    pub input: Seq<char>,
    pub suggestions: Seq<CvarModel>,
    pub suggestion_index: Option<usize>,
    pub history_index: Option<usize>,
}

impl View for CommandInput {
    type V = InputView;

    open spec fn view(&self) -> InputView {
        InputView {
            input: self.input@,
            suggestions: cvar_views(self.suggestions@),
            suggestion_index: self.suggestion_index,
            history_index: self.history_index,
        }
    }
}

/// The newest `MAX_COMMAND_HISTORY` entries of `h`.
pub open spec fn keep_last_commands(h: Seq<Seq<char>>) -> Seq<Seq<char>> {
    if h.len() > MAX_COMMAND_HISTORY {
        h.skip(h.len() - MAX_COMMAND_HISTORY)
    } else {
        h
    }
}

/// The history after entering `c`: a command equal to the newest entry is
/// not added again; otherwise it is appended and only the newest
/// `MAX_COMMAND_HISTORY` entries stay.
pub open spec fn history_after(h: Seq<Seq<char>>, c: Seq<char>) -> Seq<Seq<char>> {
    if h.len() > 0 && h.last() == c {
        h
    } else {
        keep_last_commands(h.push(c))
    }
}

/// An empty command line.
pub open spec fn cleared_input() -> InputView {
    InputView {
        input: Seq::empty(),
        suggestions: Seq::empty(),
        suggestion_index: None,
        history_index: None,
    }
}

/// The command line after typing changed its text to `text`: no history
/// entry is shown, nothing is highlighted, and completions are offered
/// for a non-empty text without whitespace when the variables are known.
pub open spec fn after_input(
    text: Seq<char>,
    db: Option<Seq<CvarModel>>,
    filters: Seq<CvarFlag>,
) -> InputView {
    let offered = if text.len() == 0 || (exists|i: int| 0 <= i < text.len() && is_ws(#[trigger] text[i])) {
        Seq::empty()
    } else {
        match db {
            Some(d) => suggestions(d, text, filters),
            None => Seq::empty(),
        }
    };
    InputView { input: text, suggestions: offered, suggestion_index: None, history_index: None }
}

/// What submitting the command line does: a blank line does nothing;
/// otherwise the trimmed text is the command, the line is cleared and the
/// command enters the history.
pub open spec fn submit_step(s: InputView, h: Seq<Seq<char>>) -> (InputView, Seq<Seq<char>>, Option<Seq<char>>) {
    let c = trim(s.input);
    if c.len() == 0 {
        (s, h, None)
    } else {
        (cleared_input(), history_after(h, c), Some(c))
    }
}

/// The highlighted completion after moving up through `n` completions
/// (wrapping to the last).
pub open spec fn completion_up(i: Option<usize>, n: nat) -> usize {
    match i {
        None => (n - 1) as usize,
        Some(k) => if k == 0 {
            (n - 1) as usize
        } else {
            (k - 1) as usize
        },
    }
}

/// The highlighted completion after moving down through `n` completions
/// (wrapping to the first).
pub open spec fn completion_down(i: Option<usize>, n: nat) -> usize {
    match i {
        None => 0,
        Some(k) => if k + 1 >= n {
            0
        } else {
            (k + 1) as usize
        },
    }
}

/// What a key does to the command line `s` with history `h`: the new
/// command line, the new history and the command to run, if any.
///
/// Escape closes the completions. While completions are offered, the
/// arrows move through them and Enter takes the highlighted one. Otherwise
/// the arrows browse the history (up towards older entries, stopping at
/// the oldest; down towards newer ones and past the newest to an empty
/// line), and Enter submits.
pub open spec fn key_step(s: InputView, key: InputKey, h: Seq<Seq<char>>) -> (
    InputView,
    Seq<Seq<char>>,
    Option<Seq<char>>,
) {
    let n = s.suggestions.len();
    if key == InputKey::Escape {
        (InputView { suggestions: Seq::empty(), suggestion_index: None, ..s }, h, None)
    } else if n > 0 && key == InputKey::ArrowUp {
        (InputView { suggestion_index: Some(completion_up(s.suggestion_index, n)), ..s }, h, None)
    } else if n > 0 && key == InputKey::ArrowDown {
        (InputView { suggestion_index: Some(completion_down(s.suggestion_index, n)), ..s }, h, None)
    } else if n > 0 && key == InputKey::Enter && s.suggestion_index is Some
        && s.suggestion_index->0 < n {
        (
            InputView { input: s.suggestions[s.suggestion_index->0 as int].name, ..cleared_input() },
            h,
            None,
        )
    } else if key == InputKey::ArrowUp {
        if h.len() == 0 {
            (s, h, None)
        } else {
            let k: int = match s.history_index {
                None => h.len() - 1,
                Some(i) => if i > 0 {
                    i - 1
                } else {
                    i as int
                },
            };
            if k < h.len() {
                (InputView { input: h[k], history_index: Some(k as usize), ..s }, h, None)
            } else {
                (s, h, None)
            }
        }
    } else if key == InputKey::ArrowDown {
        if h.len() == 0 || s.history_index is None {
            (s, h, None)
        } else if s.history_index->0 + 1 < h.len() {
            let k = s.history_index->0 + 1;
            (InputView { input: h[k], history_index: Some(k as usize), ..s }, h, None)
        } else {
            (InputView { input: Seq::empty(), history_index: None, ..s }, h, None)
        }
    } else if key == InputKey::Enter {
        submit_step(s, h)
    } else {
        (s, h, None)
    }
}

/// Enters `command` into the history, as `history_after` says.
pub fn add_to_command_history(history: &mut Vec<String>, command: &str)
    ensures
        string_views(final(history)@) == history_after(string_views(old(history)@), command@),
{
    let ghost h0 = string_views(history@);
    let n = history.len();
    if n > 0 && chars_eq(&chars_of(history[n - 1].as_str()), &chars_of(command)) {
        assert(h0.last() == command@);
        return;
    }
    history.push(command.to_owned());
    let ghost full = string_views(history@);
    assert(full =~= h0.push(command@));
    let ghost mut dropped: int = 0;
    while history.len() > MAX_COMMAND_HISTORY
        invariant
            0 <= dropped,
            string_views(history@) == full.skip(dropped),
            dropped > 0 ==> full.len() - dropped >= MAX_COMMAND_HISTORY,
        decreases history.len(),
    {
        let ghost before = history@;
        history.remove(0);
        proof {
            assert(history@ =~= before.drop_first());
            assert(string_views(history@) =~= string_views(before).drop_first());
            assert(full.skip(dropped).drop_first() =~= full.skip(dropped + 1));
            assert(string_views(before).len() == before.len());
            dropped = dropped + 1;
        }
    }
    assert(string_views(history@) =~= keep_last_commands(full));
}

/// The state update recording the outcome of a console command.
pub fn command_result_update(result: Result<String, String>) -> (r: StateUpdate)
    ensures
        match result {
            Ok(resp) => r == StateUpdate::Log(RconLogEvent::RconResponse(resp)),
            Err(e) => r matches StateUpdate::Log(RconLogEvent::Info(line))
                && line@ == "[RCON] Command failed: "@ + e@,
        },
{
    match result {
        Ok(resp) => StateUpdate::Log(RconLogEvent::RconResponse(resp)),
        Err(e) => {
            let mut line = String::from_str("[RCON] Command failed: ");
            line.append(e.as_str());
            StateUpdate::Log(RconLogEvent::Info(line))
        },
    }
}

/// The flags hidden from the completions until the user chooses otherwise.
pub fn default_cvar_filters() -> (r: Vec<CvarFlag>)
    ensures
        r@ == seq![
            CvarFlag::MenuBarItem,
            CvarFlag::VConsoleFuzzy,
            CvarFlag::VConsoleSetFocus,
            CvarFlag::DevelopmentOnly,
        ],
{
    let r: Vec<CvarFlag> = vec![
        CvarFlag::MenuBarItem,
        CvarFlag::VConsoleFuzzy,
        CvarFlag::VConsoleSetFocus,
        CvarFlag::DevelopmentOnly,
    ];
    assert(r@ =~= seq![
        CvarFlag::MenuBarItem,
        CvarFlag::VConsoleFuzzy,
        CvarFlag::VConsoleSetFocus,
        CvarFlag::DevelopmentOnly,
    ]);
    r
}

impl CommandInput {
    /// An empty command line.
    pub fn new() -> (r: CommandInput)
        ensures
            r@ == cleared_input(),
    {
        let r = CommandInput {
            input: String::new(),
            suggestions: Vec::new(),
            suggestion_index: None,
            history_index: None,
        };
        assert(r@.suggestions =~= Seq::<CvarModel>::empty());
        r
    }

    fn clear(&mut self)
        ensures
            final(self)@ == cleared_input(),
    {
        self.input = String::new();
        self.suggestions = Vec::new();
        self.suggestion_index = None;
        self.history_index = None;
        assert(self@.suggestions =~= Seq::<CvarModel>::empty());
    }

    /// The text was edited to `text`.
    pub fn on_input(&mut self, text: String, db: &Option<CvarDatabase>, filters: &[CvarFlag])
        ensures
            final(self)@ == after_input(
                text@,
                match db {
                    Some(d) => Some(d.view()),
                    None => None,
                },
                filters@,
            ),
    {
        let t = chars_of(text.as_str());
        let blank = t.len() == 0 || has_whitespace(&t);
        let offered: Vec<Cvar> = if blank {
            Vec::new()
        } else {
            match db {
                Some(d) => d.get_suggestions(text.as_str(), filters),
                None => Vec::new(),
            }
        };
        self.input = text;
        self.suggestions = offered;
        self.suggestion_index = None;
        self.history_index = None;
        assert(self@.suggestions =~= after_input(
            self.input@,
            match db {
                Some(d) => Some(d.view()),
                None => None,
            },
            filters@,
        ).suggestions);
    }

    /// A completion was clicked: it becomes the text and the completions
    /// close. An index past the completions changes nothing.
    pub fn accept_suggestion(&mut self, index: usize)
        ensures
            index < old(self)@.suggestions.len() ==> final(self)@ == (InputView {
                input: old(self)@.suggestions[index as int].name,
                ..cleared_input()
            }),
            index >= old(self)@.suggestions.len() ==> final(self)@ == old(self)@,
    {
        if index < self.suggestions.len() {
            let name = self.suggestions[index].name.clone();
            self.clear();
            self.input = name;
        }
    }

    /// The command line was submitted (Enter without a highlighted
    /// completion, or the send button); returns the command to run.
    pub fn submit(&mut self, history: &mut Vec<String>) -> (r: Option<String>)
        ensures
            ({
                let (s, h, c) = submit_step(old(self)@, string_views(old(history)@));
                &&& final(self)@ == s
                &&& string_views(final(history)@) == h
                &&& match r {
                    Some(cmd) => c == Some(cmd@),
                    None => c is None,
                }
            }),
    {
        let t = trim_chars(&chars_of(self.input.as_str()));
        if t.len() == 0 {
            return None;
        }
        let cmd = string_from_chars(&t);
        self.clear();
        add_to_command_history(history, cmd.as_str());
        Some(cmd)
    }

    /// A key was pressed; returns the command to run, if any.
    pub fn on_key(&mut self, key: InputKey, history: &mut Vec<String>) -> (r: Option<String>)
        ensures
            ({
                let (s, h, c) = key_step(old(self)@, key, string_views(old(history)@));
                &&& final(self)@ == s
                &&& string_views(final(history)@) == h
                &&& match r {
                    Some(cmd) => c == Some(cmd@),
                    None => c is None,
                }
            }),
    {
        let n = self.suggestions.len();
        if key == InputKey::Escape {
            self.suggestions = Vec::new();
            self.suggestion_index = None;
            assert(self@.suggestions =~= Seq::<CvarModel>::empty());
            return None;
        }
        if n > 0 {
            if key == InputKey::ArrowUp {
                let k: usize = match self.suggestion_index {
                    None => n - 1,
                    Some(i) => if i == 0 {
                        n - 1
                    } else {
                        i - 1
                    },
                };
                self.suggestion_index = Some(k);
                return None;
            }
            if key == InputKey::ArrowDown {
                let k: usize = match self.suggestion_index {
                    None => 0,
                    Some(i) => if i >= n - 1 {
                        0
                    } else {
                        i + 1
                    },
                };
                self.suggestion_index = Some(k);
                return None;
            }
            if key == InputKey::Enter {
                match self.suggestion_index {
                    Some(i) => {
                        if i < n {
                            self.accept_suggestion(i);
                            return None;
                        }
                    },
                    None => {},
                }
            }
        }
        let hn = history.len();
        if key == InputKey::ArrowUp {
            if hn == 0 {
                return None;
            }
            let k: usize = match self.history_index {
                None => hn - 1,
                Some(i) => if i > 0 {
                    i - 1
                } else {
                    i
                },
            };
            if k < hn {
                self.input = history[k].clone();
                self.history_index = Some(k);
            }
            return None;
        }
        if key == InputKey::ArrowDown {
            if hn == 0 {
                return None;
            }
            match self.history_index {
                None => {
                    return None;
                },
                Some(c) => {
                    if c < hn - 1 {
                        self.input = history[c + 1].clone();
                        self.history_index = Some(c + 1);
                    } else {
                        self.input = String::new();
                        self.history_index = None;
                    }
                    return None;
                },
            }
        }
        if key == InputKey::Enter {
            return self.submit(history);
        }
        None
    }
}

/// Entering a command into a history of at most `MAX_COMMAND_HISTORY`
/// entries leaves at most that many, with the command as the newest.
pub proof fn law_history_bounded(h: Seq<Seq<char>>, c: Seq<char>)
    requires
        h.len() <= MAX_COMMAND_HISTORY,
    ensures
        history_after(h, c).len() <= MAX_COMMAND_HISTORY,
        history_after(h, c).len() > 0,
        history_after(h, c).last() == c,
{
}

/// The history never holds the same command twice in a row.
pub proof fn law_history_no_repeats(h: Seq<Seq<char>>, c: Seq<char>)
    requires
        forall|i: int| 0 <= i < h.len() - 1 ==> #[trigger] h[i] != h[i + 1],
    ensures
        forall|i: int| 0 <= i < history_after(h, c).len() - 1 ==> #[trigger] history_after(h, c)[i]
            != history_after(h, c)[i + 1],
{
    let r = history_after(h, c);
    if !(h.len() > 0 && h.last() == c) {
        let p = h.push(c);
        assert forall|i: int| 0 <= i < p.len() - 1 implies #[trigger] p[i] != p[i + 1] by {
            if i < h.len() - 1 {
                assert(p[i] == h[i] && p[i + 1] == h[i + 1]);
            }
        }
        if p.len() > MAX_COMMAND_HISTORY {
            let d = p.len() - MAX_COMMAND_HISTORY;
            assert forall|i: int| 0 <= i < r.len() - 1 implies #[trigger] r[i] != r[i + 1] by {
                assert(r[i] == p[i + d] && r[i + 1] == p[i + 1 + d]);
            }
        }
    }
}

/// Browsing the history one entry up and back down shows again the entry
/// shown before, and runs nothing.
pub proof fn law_history_browse_round_trip(s: InputView, h: Seq<Seq<char>>)
    requires
        s.suggestions.len() == 0,
        s.history_index matches Some(i) && 0 < i < h.len(),
    ensures
        ({
            let (s1, h1, c1) = key_step(s, InputKey::ArrowUp, h);
            let (s2, h2, c2) = key_step(s1, InputKey::ArrowDown, h1);
            &&& s2.input == h[s.history_index->0 as int]
            &&& s2.history_index == s.history_index
            &&& h1 == h && h2 == h
            &&& c1 is None && c2 is None
        }),
{
}

/// From the command line, up shows the newest command and down leaves the
/// history again with an empty line.
pub proof fn law_history_browse_newest(s: InputView, h: Seq<Seq<char>>)
    requires
        s.suggestions.len() == 0,
        s.history_index is None,
        0 < h.len() <= usize::MAX,
    ensures
        ({
            let (s1, h1, c1) = key_step(s, InputKey::ArrowUp, h);
            let (s2, h2, c2) = key_step(s1, InputKey::ArrowDown, h1);
            &&& s1.input == h.last()
            &&& s1.history_index matches Some(i) && i == h.len() - 1
            &&& s2.input.len() == 0
            &&& s2.history_index is None
            &&& h2 == h
            &&& c1 is None && c2 is None
        }),
{
}

} // verus!
