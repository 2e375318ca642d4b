//! The console variable database: parsing a `cvarlist` listing, keeping
//! values current, and ranking variables as completions of typed input.
use vstd::prelude::*;
use crate::text::{
    ascii_lower_chars, ascii_lower_seq, chars_eq, chars_of, find, find_chars, lines, lines_chars,
    split, split_chars, splitn, splitn_chars, starts_with, starts_with_chars, string_from_chars,
    sub_chars, trim, trim_chars, views,
};

verus! {

/// A console variable flag.
#[derive(Debug, Clone, Copy, PartialEq, Eq, Hash, Structural)]
pub enum CvarFlag {
    /// `sv`: server-side.
    Server,
    /// `cl`: client-side.
    Client,
    /// `release`: present in release builds.
    Release,
    /// `cheat`: needs `sv_cheats 1`.
    Cheat,
    /// `a`: saved to the configuration.
    Archive,
    /// `nf`: players are notified of changes.
    Notify,
    /// `rep`: the server forces its value onto clients.
    Replicated,
    /// `prot`: sensitive, hidden in logs.
    Protected,
    /// `user`: a local user setting.
    User,
    /// `per_user`: kept per Steam account.
    PerUser,
    /// `server_cant_query`.
    ServerCantQuery,
    /// `server_can_execute`.
    ServerCanExecute,
    /// `clientcmd_can_execute`.
    ClientCanExecute,
    /// `norecord`: not recorded in demos.
    NoRecord,
    /// `linked`: provided by a plugin.
    Linked,
    /// `sp`: special or Metamod variable.
    Special,
    /// `menubar_item`: developer GUI entry.
    MenuBarItem,
    /// `vconsole_fuzzy`.
    VConsoleFuzzy,
    /// `vconsole_set_focus`.
    VConsoleSetFocus,
    /// `developmentonly`.
    DevelopmentOnly,
    /// `hidden`: hidden from the console.
    Hidden,
    /// `defensive`.
    Defensive,
    /// `demo`: demo playback.
    Demo,
}

/// A console variable.
#[derive(Debug, PartialEq)]
pub struct Cvar {
    pub name: String,
    pub value: String,
    pub flags: Vec<CvarFlag>,
    pub description: String,
}

/// A console variable as values.
pub struct CvarModel {
    pub name: Seq<char>,
    pub value: Seq<char>,
    pub flags: Seq<CvarFlag>,
    pub description: Seq<char>,
}

impl View for Cvar {
    type V = CvarModel;

    open spec fn view(&self) -> CvarModel {
        CvarModel {
            name: self.name@,
            value: self.value@,
            flags: self.flags@,
            description: self.description@,
        }
    }
}

impl Cvar {
    /// A copy of this variable.
    pub fn duplicate(&self) -> (r: Cvar)
        ensures
            r@ == self@,
    {
        Cvar {
            name: self.name.clone(),
            value: self.value.clone(),
            flags: copy_flags(&self.flags),
            description: self.description.clone(),
        }
    }
}

fn copy_flags(f: &Vec<CvarFlag>) -> (r: Vec<CvarFlag>)
    ensures
        r@ == f@,
{
    let mut r: Vec<CvarFlag> = Vec::new();
    for i in 0..f.len()
        invariant
            r@ == f@.take(i as int),
    {
        r.push(f[i]);
        assert(f@.take(i as int).push(f@[i as int]) =~= f@.take(i + 1));
    }
    assert(f@.take(f.len() as int) =~= f@);
    r
}

// ---------------------------------------------------------------------------
// Parsing
// ---------------------------------------------------------------------------

/// The flag that a token of the flag column names, if any.
pub open spec fn flag_of_token(t: Seq<char>) -> Option<CvarFlag> {
    if t == seq!['s', 'v'] {
        Some(CvarFlag::Server)
    } else if t == seq!['c', 'l'] {
        Some(CvarFlag::Client)
    } else if t == seq!['r', 'e', 'l', 'e', 'a', 's', 'e'] {
        Some(CvarFlag::Release)
    } else if t == seq!['a'] {
        Some(CvarFlag::Archive)
    } else if t == seq!['n', 'f'] {
        Some(CvarFlag::Notify)
    } else if t == seq!['r', 'e', 'p'] {
        Some(CvarFlag::Replicated)
    } else if t == seq!['c', 'h', 'e', 'a', 't'] {
        Some(CvarFlag::Cheat)
    } else if t == seq!['d', 'e', 'm', 'o'] {
        Some(CvarFlag::Demo)
    } else if t == seq!['p', 'r', 'o', 't'] {
        Some(CvarFlag::Protected)
    } else if t == seq!['u', 's', 'e', 'r'] {
        Some(CvarFlag::User)
    } else if t == seq!['p', 'e', 'r', '_', 'u', 's', 'e', 'r'] {
        Some(CvarFlag::PerUser)
    } else if t == seq!['n', 'o', 'r', 'e', 'c', 'o', 'r', 'd'] {
        Some(CvarFlag::NoRecord)
    } else if t == seq!['s', 'e', 'r', 'v', 'e', 'r', '_', 'c', 'a', 'n', '_', 'e', 'x', 'e', 'c', 'u', 't', 'e'] {
        Some(CvarFlag::ServerCanExecute)
    } else if t == seq!['s', 'e', 'r', 'v', 'e', 'r', '_', 'c', 'a', 'n', 't', '_', 'q', 'u', 'e', 'r', 'y'] {
        Some(CvarFlag::ServerCantQuery)
    } else if t == seq!['c', 'l', 'i', 'e', 'n', 't', 'c', 'm', 'd', '_', 'c', 'a', 'n', '_', 'e', 'x', 'e', 'c', 'u', 't', 'e'] {
        Some(CvarFlag::ClientCanExecute)
    } else if t == seq!['l', 'i', 'n', 'k', 'e', 'd'] {
        Some(CvarFlag::Linked)
    } else if t == seq!['s', 'p'] {
        Some(CvarFlag::Special)
    } else if t == seq!['m', 'e', 'n', 'u', 'b', 'a', 'r', '_', 'i', 't', 'e', 'm'] {
        Some(CvarFlag::MenuBarItem)
    } else if t == seq!['v', 'c', 'o', 'n', 's', 'o', 'l', 'e', '_', 'f', 'u', 'z', 'z', 'y'] {
        Some(CvarFlag::VConsoleFuzzy)
    } else if t == seq!['v', 'c', 'o', 'n', 's', 'o', 'l', 'e', '_', 's', 'e', 't', '_', 'f', 'o', 'c', 'u', 's'] {
        Some(CvarFlag::VConsoleSetFocus)
    } else if t == seq!['d', 'e', 'v', 'e', 'l', 'o', 'p', 'm', 'e', 'n', 't', 'o', 'n', 'l', 'y'] {
        Some(CvarFlag::DevelopmentOnly)
    } else if t == seq!['h', 'i', 'd', 'd', 'e', 'n'] {
        Some(CvarFlag::Hidden)
    } else if t == seq!['d', 'e', 'f', 'e', 'n', 's', 'i', 'v', 'e'] {
        Some(CvarFlag::Defensive)
    } else {
        None
    }
}

/// Number of `c` at the start of `s`.
pub open spec fn leading_char(s: Seq<char>, c: char) -> nat
    decreases s.len(),
{
    if s.len() > 0 && s[0] == c {
        1 + leading_char(s.drop_first(), c)
    } else {
        0
    }
}

/// Number of `c` at the end of `s`.
pub open spec fn trailing_char(s: Seq<char>, c: char) -> nat
    decreases s.len(),
{
    if s.len() > 0 && s.last() == c {
        1 + trailing_char(s.drop_last(), c)
    } else {
        0
    }
}

/// `s` without any `c` at either end (`str::trim_matches`).
pub open spec fn trim_char(s: Seq<char>, c: char) -> Seq<char> {
    let a = leading_char(s, c);
    if a == s.len() {
        Seq::empty()
    } else {
        s.subrange(a as int, s.len() - trailing_char(s, c))
    }
}

/// The token of one comma-separated piece of the flag column: trimmed,
/// stripped of quotes, trimmed again.
pub open spec fn flag_token(piece: Seq<char>) -> Seq<char> {
    trim(trim_char(trim(piece), '"'))
}

/// The flags named by the pieces `p`, in order, skipping unknown tokens.
pub open spec fn flags_of_pieces(p: Seq<Seq<char>>) -> Seq<CvarFlag>
    decreases p.len(),
{
    if p.len() == 0 {
        Seq::empty()
    } else {
        let rest = flags_of_pieces(p.drop_last());
        match flag_of_token(flag_token(p.last())) {
            Some(f) => rest.push(f),
            None => rest,
        }
    }
}

/// The colon that separates the columns of a `cvarlist` line.
pub open spec fn colon() -> Seq<char> {
    seq![':']
}

/// A `cvarlist` line holds four columns: name, value, flags, description.
pub open spec fn line_well_formed(line: Seq<char>) -> bool {
    splitn(line, 4, colon()).len() == 4
}

/// The variable that a `cvarlist` line describes: each column trimmed, the
/// flag column split at commas.
pub open spec fn cvar_of_line(line: Seq<char>) -> CvarModel {
    let p = splitn(line, 4, colon());
    CvarModel {
        name: trim(p[0]),
        value: trim(p[1]),
        flags: flags_of_pieces(split(trim(p[2]), seq![','])),
        description: trim(p[3]),
    }
}

/// Position of the variable named `name` in `db`.
pub open spec fn index_of_name(db: Seq<CvarModel>, name: Seq<char>) -> Option<int>
    decreases db.len(),
{
    if db.len() == 0 {
        None
    } else if db.last().name == name {
        Some(db.len() - 1)
    } else {
        index_of_name(db.drop_last(), name)
    }
}

/// A position found by name holds a variable of that name.
pub proof fn lemma_index_of_name(db: Seq<CvarModel>, name: Seq<char>)
    ensures
        index_of_name(db, name) matches Some(i) ==> 0 <= i < db.len() && db[i].name == name,
        index_of_name(db, name) is None ==> forall|i: int| 0 <= i < db.len() ==> db[i].name != name,
    decreases db.len(),
{
    if db.len() > 0 && db.last().name != name {
        lemma_index_of_name(db.drop_last(), name);
        assert forall|i: int| 0 <= i < db.len() - 1 implies db[i] == db.drop_last()[i] by {}
    }
}

/// `db` with `c` stored under its name: replacing a variable of that name
/// where it stands, otherwise added at the end.
pub open spec fn upsert(db: Seq<CvarModel>, c: CvarModel) -> Seq<CvarModel> {
    match index_of_name(db, c.name) {
        Some(i) => db.update(i, c),
        None => db.push(c),
    }
}

/// The database after reading the lines `ls` in order.
pub open spec fn db_after_lines(db: Seq<CvarModel>, ls: Seq<Seq<char>>) -> Seq<CvarModel>
    decreases ls.len(),
{
    if ls.len() == 0 {
        db
    } else {
        upsert(db_after_lines(db, ls.drop_last()), cvar_of_line(ls.last()))
    }
}

/// The variable lines of a `cvarlist` listing: all but two header lines and
/// two footer lines; a listing of four lines or fewer holds none.
pub open spec fn listing_body(text: Seq<char>) -> Seq<Seq<char>> {
    let ls = lines(text);
    if ls.len() <= 4 {
        Seq::empty()
    } else {
        ls.subrange(2, ls.len() - 2)
    }
}

/// Every variable line of the listing holds four columns.
pub open spec fn listing_well_formed(text: Seq<char>) -> bool {
    forall|i: int| 0 <= i < listing_body(text).len() ==> line_well_formed(#[trigger] listing_body(text)[i])
}

/// No two variables share a name.
pub open spec fn names_unique(db: Seq<CvarModel>) -> bool {
    forall|i: int, j: int| 0 <= i < j < db.len() ==> db[i].name != db[j].name
}

/// The variables of a `cvarlist` listing.
pub open spec fn parse_listing(text: Seq<char>) -> Seq<CvarModel> {
    db_after_lines(Seq::empty(), listing_body(text))
}

/// The views of a sequence of variables.
pub open spec fn cvar_views(v: Seq<Cvar>) -> Seq<CvarModel> {
    Seq::new(v.len(), |i: int| v[i]@)
}

/// The flag that a token of the flag column names, if any.
pub fn flag_of_token_exec(t: &[char]) -> (r: Option<CvarFlag>)
    ensures
        r == flag_of_token(t@),
{
    let k0: Vec<char> = vec!['s', 'v'];
    assert(k0@ =~= seq!['s', 'v']);
    let k1: Vec<char> = vec!['c', 'l'];
    assert(k1@ =~= seq!['c', 'l']);
    let k2: Vec<char> = vec!['r', 'e', 'l', 'e', 'a', 's', 'e'];
    assert(k2@ =~= seq!['r', 'e', 'l', 'e', 'a', 's', 'e']);
    let k3: Vec<char> = vec!['a'];
    assert(k3@ =~= seq!['a']);
    let k4: Vec<char> = vec!['n', 'f'];
    assert(k4@ =~= seq!['n', 'f']);
    let k5: Vec<char> = vec!['r', 'e', 'p'];
    assert(k5@ =~= seq!['r', 'e', 'p']);
    let k6: Vec<char> = vec!['c', 'h', 'e', 'a', 't'];
    assert(k6@ =~= seq!['c', 'h', 'e', 'a', 't']);
    let k7: Vec<char> = vec!['d', 'e', 'm', 'o'];
    assert(k7@ =~= seq!['d', 'e', 'm', 'o']);
    let k8: Vec<char> = vec!['p', 'r', 'o', 't'];
    assert(k8@ =~= seq!['p', 'r', 'o', 't']);
    let k9: Vec<char> = vec!['u', 's', 'e', 'r'];
    assert(k9@ =~= seq!['u', 's', 'e', 'r']);
    let k10: Vec<char> = vec!['p', 'e', 'r', '_', 'u', 's', 'e', 'r'];
    assert(k10@ =~= seq!['p', 'e', 'r', '_', 'u', 's', 'e', 'r']);
    let k11: Vec<char> = vec!['n', 'o', 'r', 'e', 'c', 'o', 'r', 'd'];
    assert(k11@ =~= seq!['n', 'o', 'r', 'e', 'c', 'o', 'r', 'd']);
    let k12: Vec<char> = vec!['s', 'e', 'r', 'v', 'e', 'r', '_', 'c', 'a', 'n', '_', 'e', 'x', 'e', 'c', 'u', 't', 'e'];
    assert(k12@ =~= seq!['s', 'e', 'r', 'v', 'e', 'r', '_', 'c', 'a', 'n', '_', 'e', 'x', 'e', 'c', 'u', 't', 'e']);
    let k13: Vec<char> = vec!['s', 'e', 'r', 'v', 'e', 'r', '_', 'c', 'a', 'n', 't', '_', 'q', 'u', 'e', 'r', 'y'];
    assert(k13@ =~= seq!['s', 'e', 'r', 'v', 'e', 'r', '_', 'c', 'a', 'n', 't', '_', 'q', 'u', 'e', 'r', 'y']);
    let k14: Vec<char> = vec!['c', 'l', 'i', 'e', 'n', 't', 'c', 'm', 'd', '_', 'c', 'a', 'n', '_', 'e', 'x', 'e', 'c', 'u', 't', 'e'];
    assert(k14@ =~= seq!['c', 'l', 'i', 'e', 'n', 't', 'c', 'm', 'd', '_', 'c', 'a', 'n', '_', 'e', 'x', 'e', 'c', 'u', 't', 'e']);
    let k15: Vec<char> = vec!['l', 'i', 'n', 'k', 'e', 'd'];
    assert(k15@ =~= seq!['l', 'i', 'n', 'k', 'e', 'd']);
    let k16: Vec<char> = vec!['s', 'p'];
    assert(k16@ =~= seq!['s', 'p']);
    let k17: Vec<char> = vec!['m', 'e', 'n', 'u', 'b', 'a', 'r', '_', 'i', 't', 'e', 'm'];
    assert(k17@ =~= seq!['m', 'e', 'n', 'u', 'b', 'a', 'r', '_', 'i', 't', 'e', 'm']);
    let k18: Vec<char> = vec!['v', 'c', 'o', 'n', 's', 'o', 'l', 'e', '_', 'f', 'u', 'z', 'z', 'y'];
    assert(k18@ =~= seq!['v', 'c', 'o', 'n', 's', 'o', 'l', 'e', '_', 'f', 'u', 'z', 'z', 'y']);
    let k19: Vec<char> = vec!['v', 'c', 'o', 'n', 's', 'o', 'l', 'e', '_', 's', 'e', 't', '_', 'f', 'o', 'c', 'u', 's'];
    assert(k19@ =~= seq!['v', 'c', 'o', 'n', 's', 'o', 'l', 'e', '_', 's', 'e', 't', '_', 'f', 'o', 'c', 'u', 's']);
    let k20: Vec<char> = vec!['d', 'e', 'v', 'e', 'l', 'o', 'p', 'm', 'e', 'n', 't', 'o', 'n', 'l', 'y'];
    assert(k20@ =~= seq!['d', 'e', 'v', 'e', 'l', 'o', 'p', 'm', 'e', 'n', 't', 'o', 'n', 'l', 'y']);
    let k21: Vec<char> = vec!['h', 'i', 'd', 'd', 'e', 'n'];
    assert(k21@ =~= seq!['h', 'i', 'd', 'd', 'e', 'n']);
    let k22: Vec<char> = vec!['d', 'e', 'f', 'e', 'n', 's', 'i', 'v', 'e'];
    assert(k22@ =~= seq!['d', 'e', 'f', 'e', 'n', 's', 'i', 'v', 'e']);
    if chars_eq(t, &k0) {
        Some(CvarFlag::Server)
    } else if chars_eq(t, &k1) {
        Some(CvarFlag::Client)
    } else if chars_eq(t, &k2) {
        Some(CvarFlag::Release)
    } else if chars_eq(t, &k3) {
        Some(CvarFlag::Archive)
    } else if chars_eq(t, &k4) {
        Some(CvarFlag::Notify)
    } else if chars_eq(t, &k5) {
        Some(CvarFlag::Replicated)
    } else if chars_eq(t, &k6) {
        Some(CvarFlag::Cheat)
    } else if chars_eq(t, &k7) {
        Some(CvarFlag::Demo)
    } else if chars_eq(t, &k8) {
        Some(CvarFlag::Protected)
    } else if chars_eq(t, &k9) {
        Some(CvarFlag::User)
    } else if chars_eq(t, &k10) {
        Some(CvarFlag::PerUser)
    } else if chars_eq(t, &k11) {
        Some(CvarFlag::NoRecord)
    } else if chars_eq(t, &k12) {
        Some(CvarFlag::ServerCanExecute)
    } else if chars_eq(t, &k13) {
        Some(CvarFlag::ServerCantQuery)
    } else if chars_eq(t, &k14) {
        Some(CvarFlag::ClientCanExecute)
    } else if chars_eq(t, &k15) {
        Some(CvarFlag::Linked)
    } else if chars_eq(t, &k16) {
        Some(CvarFlag::Special)
    } else if chars_eq(t, &k17) {
        Some(CvarFlag::MenuBarItem)
    } else if chars_eq(t, &k18) {
        Some(CvarFlag::VConsoleFuzzy)
    } else if chars_eq(t, &k19) {
        Some(CvarFlag::VConsoleSetFocus)
    } else if chars_eq(t, &k20) {
        Some(CvarFlag::DevelopmentOnly)
    } else if chars_eq(t, &k21) {
        Some(CvarFlag::Hidden)
    } else if chars_eq(t, &k22) {
        Some(CvarFlag::Defensive)
    } else {
        None
    }
}

fn leading_char_count(v: &[char], c: char) -> (n: usize)
    ensures
        n == leading_char(v@, c),
{
    let mut i: usize = 0;
    assert(v@.skip(0) =~= v@);
    while i < v.len() && v[i] == c
        invariant
            i <= v.len(),
            leading_char(v@, c) == i + leading_char(v@.skip(i as int), c),
        decreases v.len() - i,
    {
        assert(v@.skip(i as int).drop_first() =~= v@.skip(i + 1));
        i = i + 1;
    }
    i
}

fn trailing_char_count(v: &[char], c: char) -> (n: usize)
    ensures
        n == trailing_char(v@, c),
{
    let mut i: usize = v.len();
    assert(v@.take(v.len() as int) =~= v@);
    while i > 0 && v[i - 1] == c
        invariant
            i <= v.len(),
            trailing_char(v@, c) == (v.len() - i) + trailing_char(v@.take(i as int), c),
        decreases i,
    {
        assert(v@.take(i as int).drop_last() =~= v@.take(i - 1));
        i = i - 1;
    }
    v.len() - i
}

proof fn lemma_leading_char(s: Seq<char>, c: char)
    ensures
        leading_char(s, c) <= s.len(),
        leading_char(s, c) < s.len() ==> s[leading_char(s, c) as int] != c,
    decreases s.len(),
{
    if s.len() > 0 && s[0] == c {
        lemma_leading_char(s.drop_first(), c);
    }
}

proof fn lemma_trailing_char_below(s: Seq<char>, c: char, j: int)
    requires
        0 <= j < s.len(),
        s[j] != c,
    ensures
        trailing_char(s, c) < s.len() - j,
    decreases s.len(),
{
    if s.len() > 0 && s.last() == c {
        assert(s.drop_last()[j] == s[j]);
        lemma_trailing_char_below(s.drop_last(), c, j);
    }
}

/// `v` without any `c` at either end.
pub fn trim_char_chars(v: &[char], c: char) -> (r: Vec<char>)
    ensures
        r@ == trim_char(v@, c),
{
    let a = leading_char_count(v, c);
    if a == v.len() {
        return Vec::new();
    }
    let b = trailing_char_count(v, c);
    proof {
        lemma_leading_char(v@, c);
        lemma_trailing_char_below(v@, c, a as int);
    }
    sub_chars(v, a, v.len() - b)
}

/// The flags named by a flag column.
fn flags_of_column(column: &[char]) -> (r: Vec<CvarFlag>)
    ensures
        r@ == flags_of_pieces(split(column@, seq![','])),
{
    let comma: Vec<char> = vec![','];
    assert(comma@ =~= seq![',']);
    let pieces = split_chars(column, &comma);
    let mut r: Vec<CvarFlag> = Vec::new();
    for i in 0..pieces.len()
        invariant
            views(pieces@) == split(column@, seq![',']),
            r@ == flags_of_pieces(views(pieces@).take(i as int)),
    {
        let t1 = trim_chars(&pieces[i]);
        let t2 = trim_char_chars(&t1, '"');
        let t3 = trim_chars(&t2);
        proof {
            assert(views(pieces@).take(i + 1).drop_last() =~= views(pieces@).take(i as int));
            assert(views(pieces@).take(i + 1).last() == pieces@[i as int]@);
        }
        match flag_of_token_exec(&t3) {
            Some(f) => r.push(f),
            None => {},
        }
    }
    assert(views(pieces@).take(pieces.len() as int) =~= views(pieces@));
    r
}

/// The variable described by a four-column `cvarlist` line.
fn cvar_of_line_exec(line: &[char]) -> (r: Cvar)
    requires
        line_well_formed(line@),
    ensures
        r@ == cvar_of_line(line@),
{
    let col: Vec<char> = vec![':'];
    assert(col@ =~= colon());
    let p = splitn_chars(line, 4, &col);
    assert(views(p@)[0] == p@[0]@);
    assert(views(p@)[1] == p@[1]@);
    assert(views(p@)[2] == p@[2]@);
    assert(views(p@)[3] == p@[3]@);
    let name = trim_chars(&p[0]);
    let value = trim_chars(&p[1]);
    let flags_col = trim_chars(&p[2]);
    let description = trim_chars(&p[3]);
    Cvar {
        name: string_from_chars(&name),
        value: string_from_chars(&value),
        flags: flags_of_column(&flags_col),
        description: string_from_chars(&description),
    }
}

/// Whether every variable line of a `cvarlist` listing holds four columns.
pub fn listing_is_well_formed(cvar_list: &str) -> (r: bool)
    ensures
        r == listing_well_formed(cvar_list@),
{
    let text = chars_of(cvar_list);
    let ls = lines_chars(&text);
    if ls.len() <= 4 {
        return true;
    }
    let col: Vec<char> = vec![':'];
    assert(col@ =~= colon());
    let ghost body = listing_body(cvar_list@);
    assert(body =~= views(ls@).subrange(2, ls@.len() - 2));
    for i in 2..ls.len() - 2
        invariant
            ls.len() > 4,
            col@ == colon(),
            body == listing_body(cvar_list@),
            body == views(ls@).subrange(2, ls@.len() - 2),
            forall|k: int| 0 <= k < i - 2 ==> line_well_formed(#[trigger] body[k]),
    {
        assert(body[i - 2] == ls@[i as int]@);
        if splitn_chars(&ls[i], 4, &col).len() != 4 {
            return false;
        }
    }
    true
}

// ---------------------------------------------------------------------------
// Completion
// ---------------------------------------------------------------------------

/// A variable that RCON can use: no developer-GUI, hidden, demo or
/// per-user variable, and no pure client variable (`cl` without `sv`).
pub open spec fn rcon_valid(flags: Seq<CvarFlag>) -> bool {
    &&& !flags.contains(CvarFlag::MenuBarItem)
    &&& !flags.contains(CvarFlag::Hidden)
    &&& !flags.contains(CvarFlag::Demo)
    &&& !flags.contains(CvarFlag::PerUser)
    &&& !flags.contains(CvarFlag::User)
    &&& !(flags.contains(CvarFlag::Client) && !flags.contains(CvarFlag::Server))
}

/// Some flag of `flags` is one of `filters`.
pub open spec fn filtered_out(flags: Seq<CvarFlag>, filters: Seq<CvarFlag>) -> bool {
    exists|i: int| 0 <= i < flags.len() && filters.contains(#[trigger] flags[i])
}

/// Number of bytes of `c` in UTF-8.
pub open spec fn utf8_width(c: char) -> nat {
    let u = c as u32;
    if u < 0x80 {
        1
    } else if u < 0x800 {
        2
    } else if u < 0x10000 {
        3
    } else {
        4
    }
}

/// Number of bytes of `s` in UTF-8 (`str::len`).
pub open spec fn utf8_len(s: Seq<char>) -> nat
    decreases s.len(),
{
    if s.len() == 0 {
        0
    } else {
        utf8_len(s.drop_last()) + utf8_width(s.last())
    }
}

/// `a - b`, or zero when `b > a`.
pub open spec fn sat_sub(a: int, b: int) -> int {
    if a >= b {
        a - b
    } else {
        0
    }
}

/// Fuzzy matching of `q` as a subsequence of `name`, from character `idx`
/// with `qi` characters of `q` matched so far: each gap between matched
/// characters costs its length, a match right after `_` or at the start of
/// the name earns 10. `None` when `q` is not a subsequence.
pub open spec fn fuzzy_from(name: Seq<char>, q: Seq<char>, idx: int, qi: int, score: int, last: Option<int>) -> Option<int>
    decreases name.len() - idx,
{
    if idx < 0 || idx >= name.len() || qi < 0 || qi >= q.len() {
        if qi == q.len() {
            Some(score)
        } else {
            None
        }
    } else if name[idx] != q[qi] {
        fuzzy_from(name, q, idx + 1, qi, score, last)
    } else {
        let s1 = match last {
            Some(p) => score + sat_sub(idx, p + 1),
            None => score,
        };
        let s2 = if idx > 0 && name[idx - 1] == '_' { sat_sub(s1, 10) } else { s1 };
        let s3 = if idx == 0 { sat_sub(s2, 10) } else { s2 };
        fuzzy_from(name, q, idx + 1, qi + 1, s3, Some(idx))
    }
}

/// How well the lowercase name `name` matches the lowercase query `q`
/// (lower is better): 0 for an exact match, the name's length in bytes for a
/// prefix, 100 plus twice the byte position plus the length for a substring,
/// from 200 plus the length in characters for a subsequence; `None` when
/// `q` is none of these.
pub open spec fn match_score(name: Seq<char>, q: Seq<char>) -> Option<int> {
    if name == q {
        Some(0)
    } else if starts_with(name, q) {
        Some(utf8_len(name) as int)
    } else if find(name, q) is Some {
        Some((100 + 2 * utf8_len(name.take(find(name, q).unwrap())) + utf8_len(name)) as int)
    } else {
        fuzzy_from(name, q, 0, 0, (200 + name.len()) as int, None)
    }
}

/// The variables offered for the query `q` (lowercase), with their scores,
/// as (score, position in the database), in database order.
pub open spec fn candidates(db: Seq<CvarModel>, q: Seq<char>, filters: Seq<CvarFlag>) -> Seq<(int, int)>
    decreases db.len(),
{
    if db.len() == 0 {
        Seq::empty()
    } else {
        let rest = candidates(db.drop_last(), q, filters);
        let c = db.last();
        if rcon_valid(c.flags) && !filtered_out(c.flags, filters) && match_score(ascii_lower_seq(c.name), q) is Some {
            rest.push((match_score(ascii_lower_seq(c.name), q).unwrap(), db.len() - 1))
        } else {
            rest
        }
    }
}

/// Candidate `a` ranks before candidate `b`: a lower score, or the same
/// score and an earlier position.
pub open spec fn ranks_before(a: (int, int), b: (int, int)) -> bool {
    a.0 < b.0 || (a.0 == b.0 && a.1 < b.1)
}

/// Index into `c`, from `j` on, of the best-ranked candidate that ranks
/// after `bound`.
pub open spec fn best_after(c: Seq<(int, int)>, bound: Option<(int, int)>, j: int, best: Option<int>) -> Option<int>
    decreases c.len() - j,
{
    if j < 0 || j >= c.len() {
        best
    } else {
        let ok = match bound {
            None => true,
            Some(b) => ranks_before(b, c[j]),
        };
        let better = match best {
            None => true,
            Some(bi) => 0 <= bi < c.len() && ranks_before(c[j], c[bi]),
        };
        best_after(c, bound, j + 1, if ok && better { Some(j) } else { best })
    }
}

/// Indices into `c` of its `k` best-ranked candidates after `bound`, best first.
pub open spec fn best_k(c: Seq<(int, int)>, k: nat, bound: Option<(int, int)>) -> Seq<int>
    decreases k,
{
    if k == 0 {
        Seq::empty()
    } else {
        match best_after(c, bound, 0, None) {
            None => Seq::empty(),
            Some(i) => if 0 <= i < c.len() {
                seq![i] + best_k(c, (k - 1) as nat, Some(c[i]))
            } else {
                Seq::empty()
            },
        }
    }
}

/// Most suggestions offered at once.
pub const MAX_SUGGESTIONS: usize = 20;

/// The suggestions for `input`: no suggestions for an empty input; else the
/// 20 best-ranked usable, unfiltered matching variables, worst first, so that
/// the best one ends up next to the input field.
pub open spec fn suggestions(db: Seq<CvarModel>, input: Seq<char>, filters: Seq<CvarFlag>) -> Seq<CvarModel> {
    let q = ascii_lower_seq(input);
    if q.len() == 0 {
        Seq::empty()
    } else {
        let c = candidates(db, q, filters);
        let best = best_k(c, MAX_SUGGESTIONS as nat, None);
        Seq::new(best.len(), |m: int| db[c[best[best.len() - 1 - m]].1])
    }
}

fn has_flag(flags: &Vec<CvarFlag>, f: CvarFlag) -> (r: bool)
    ensures
        r == flags@.contains(f),
{
    for i in 0..flags.len()
        invariant
            forall|k: int| 0 <= k < i ==> flags@[k] != f,
    {
        if flags[i] == f {
            assert(flags@[i as int] == f);
            return true;
        }
    }
    false
}

fn slice_has_flag(flags: &[CvarFlag], f: CvarFlag) -> (r: bool)
    ensures
        r == flags@.contains(f),
{
    for i in 0..flags.len()
        invariant
            forall|k: int| 0 <= k < i ==> flags@[k] != f,
    {
        if flags[i] == f {
            assert(flags@[i as int] == f);
            return true;
        }
    }
    false
}

/// Whether some flag of `flags` is one of `filters`.
pub fn is_filtered_out(flags: &Vec<CvarFlag>, filters: &[CvarFlag]) -> (r: bool)
    ensures
        r == filtered_out(flags@, filters@),
{
    for i in 0..flags.len()
        invariant
            forall|k: int| 0 <= k < i ==> !filters@.contains(#[trigger] flags@[k]),
    {
        if slice_has_flag(filters, flags[i]) {
            return true;
        }
    }
    false
}

fn utf8_width_exec(c: char) -> (r: u128)
    ensures
        r == utf8_width(c),
{
    let u = c as u32;
    if u < 0x80 {
        1
    } else if u < 0x800 {
        2
    } else if u < 0x10000 {
        3
    } else {
        4
    }
}

fn utf8_len_exec(v: &[char]) -> (r: u128)
    ensures
        r == utf8_len(v@),
        r <= 4 * v@.len(),
{
    let mut n: u128 = 0;
    for i in 0..v.len()
        invariant
            n == utf8_len(v@.take(i as int)),
            n <= 4 * i,
    {
        assert(v@.take(i + 1).drop_last() =~= v@.take(i as int));
        n = n + utf8_width_exec(v[i]);
    }
    assert(v@.take(v.len() as int) =~= v@);
    n
}

fn fuzzy_exec(name: &[char], q: &[char]) -> (r: Option<u128>)
    ensures
        match fuzzy_from(name@, q@, 0, 0, (200 + name@.len()) as int, None) {
            Some(v) => r matches Some(x) && x as int == v,
            None => r is None,
        },
{
    let mut idx: usize = 0;
    let mut qi: usize = 0;
    let mut score: u128 = 200 + name.len() as u128;
    let mut last: Option<usize> = None;
    while idx < name.len() && qi < q.len()
        invariant
            idx <= name.len(),
            qi <= q.len(),
            score <= 200 + name.len() + match last {
                Some(p) => p + 1,
                None => 0,
            },
            last matches Some(p) ==> p < idx,
            fuzzy_from(name@, q@, 0, 0, (200 + name@.len()) as int, None) == fuzzy_from(
                name@,
                q@,
                idx as int,
                qi as int,
                score as int,
                match last {
                    Some(p) => Some(p as int),
                    None => None,
                },
            ),
        decreases name.len() - idx,
    {
        if name[idx] == q[qi] {
            if let Some(p) = last {
                score = score + (idx - (p + 1)) as u128;
            }
            if idx > 0 && name[idx - 1] == '_' {
                score = if score >= 10 { score - 10 } else { 0 };
            }
            if idx == 0 {
                score = if score >= 10 { score - 10 } else { 0 };
            }
            last = Some(idx);
            qi = qi + 1;
        }
        idx = idx + 1;
    }
    if qi == q.len() {
        Some(score)
    } else {
        None
    }
}

proof fn lemma_fuzzy_nonneg(name: Seq<char>, q: Seq<char>, idx: int, qi: int, score: int, last: Option<int>)
    requires
        score >= 0,
    ensures
        fuzzy_from(name, q, idx, qi, score, last) matches Some(v) ==> v >= 0,
    decreases name.len() - idx,
{
    if idx < 0 || idx >= name.len() || qi < 0 || qi >= q.len() {
    } else if name[idx] != q[qi] {
        lemma_fuzzy_nonneg(name, q, idx + 1, qi, score, last);
    } else {
        let s1 = match last {
            Some(p) => score + sat_sub(idx, p + 1),
            None => score,
        };
        let s2 = if idx > 0 && name[idx - 1] == '_' { sat_sub(s1, 10) } else { s1 };
        let s3 = if idx == 0 { sat_sub(s2, 10) } else { s2 };
        lemma_fuzzy_nonneg(name, q, idx + 1, qi + 1, s3, Some(idx));
    }
}

fn match_score_exec(name: &[char], q: &[char]) -> (r: Option<u128>)
    ensures
        match match_score(name@, q@) {
            Some(v) => r matches Some(x) && x as int == v,
            None => r is None,
        },
{
    if chars_eq(name, q) {
        return Some(0);
    }
    if starts_with_chars(name, q) {
        return Some(utf8_len_exec(name));
    }
    match find_chars(name, q) {
        Some(pos) => {
            proof {
                crate::text::lemma_find_from_sound(name@, q@, 0);
            }
            let prefix = sub_chars(name, 0, pos);
            assert(prefix@ =~= name@.take(pos as int));
            let a = utf8_len_exec(&prefix);
            let b = utf8_len_exec(name);
            let nl = name.len();
            assert(name@.len() == nl);
            assert(a <= 4 * (usize::MAX as int));
            assert(b <= 4 * (usize::MAX as int));
            Some(100 + 2 * a + b)
        },
        None => fuzzy_exec(name, q),
    }
}

/// The pairs of a candidate list as values.
pub open spec fn pair_view(v: Seq<(u128, usize)>) -> Seq<(int, int)> {
    Seq::new(v.len(), |i: int| (v[i].0 as int, v[i].1 as int))
}

fn best_after_exec(c: &Vec<(u128, usize)>, bound: Option<(u128, usize)>) -> (r: Option<usize>)
    ensures
        match best_after(pair_view(c@), match bound {
            Some(b) => Some((b.0 as int, b.1 as int)),
            None => None,
        }, 0, None) {
            Some(i) => r == Some(i as usize) && 0 <= i < c@.len(),
            None => r is None,
        },
{
    let ghost cv = pair_view(c@);
    let ghost bv = match bound {
        Some(b) => Some((b.0 as int, b.1 as int)),
        None => None,
    };
    let mut best: Option<usize> = None;
    for j in 0..c.len()
        invariant
            cv == pair_view(c@),
            bv == match bound {
                Some(b) => Some((b.0 as int, b.1 as int)),
                None => None,
            },
            best matches Some(bi) ==> bi < j,
            best_after(cv, bv, 0, None) == best_after(cv, bv, j as int, match best {
                Some(bi) => Some(bi as int),
                None => None,
            }),
    {
        let cj = c[j];
        let ok = match bound {
            None => true,
            Some(b) => b.0 < cj.0 || (b.0 == cj.0 && b.1 < cj.1),
        };
        let better = match best {
            None => true,
            Some(bi) => cj.0 < c[bi].0 || (cj.0 == c[bi].0 && cj.1 < c[bi].1),
        };
        if ok && better {
            best = Some(j);
        }
    }
    proof {
        lemma_best_after_range(cv, bv, c@.len() as int, match best {
            Some(bi) => Some(bi as int),
            None => None,
        });
    }
    best
}

proof fn lemma_best_after_range(c: Seq<(int, int)>, bound: Option<(int, int)>, j: int, best: Option<int>)
    requires
        best matches Some(bi) ==> 0 <= bi < c.len(),
    ensures
        best_after(c, bound, j, best) matches Some(i) ==> 0 <= i < c.len(),
    decreases c.len() - j,
{
    if j < 0 || j >= c.len() {
    } else {
        let ok = match bound {
            None => true,
            Some(b) => ranks_before(b, c[j]),
        };
        let better = match best {
            None => true,
            Some(bi) => 0 <= bi < c.len() && ranks_before(c[j], c[bi]),
        };
        lemma_best_after_range(c, bound, j + 1, if ok && better { Some(j) } else { best });
    }
}

/// The console variables of a server.
///
/// Held as a list with unique names rather than a `HashMap` keyed by name:
/// vstd's hash map specification proves nothing about lookups by `String`
/// key, and its `StringHashMap`, which does, cannot be walked, while the
/// completions walk every variable. The list keeps the listing's order,
/// which also fixes the order of equally ranked completions.
pub struct CvarDatabase {
    cvars: Vec<Cvar>,
}

impl CvarDatabase {
    /// The variables, in the order they were first listed.
    pub closed spec fn view(&self) -> Seq<CvarModel> {
        cvar_views(self.cvars@)
    }

    /// A database of the variables of a `cvarlist` listing.
    pub fn new(cvar_list: &str) -> (db: Self)
        requires
            listing_well_formed(cvar_list@),
        ensures
            db.view() == parse_listing(cvar_list@),
    {
        let mut db = CvarDatabase { cvars: Vec::new() };
        assert(db.view() =~= Seq::<CvarModel>::empty());
        db.parse(cvar_list);
        db
    }

    /// Reads the variable lines of a listing into the database.
    fn parse(&mut self, cvar_list: &str)
        requires
            listing_well_formed(cvar_list@),
        ensures
            final(self).view() == db_after_lines(old(self).view(), listing_body(cvar_list@)),
    {
        let text = chars_of(cvar_list);
        let ls = lines_chars(&text);
        if ls.len() <= 4 {
            return;
        }
        let ghost body = listing_body(cvar_list@);
        let ghost start = self.view();
        assert(body =~= views(ls@).subrange(2, ls@.len() - 2));
        for i in 2..ls.len() - 2
            invariant
                ls.len() > 4,
                body == listing_body(cvar_list@),
                body == views(ls@).subrange(2, ls@.len() - 2),
                listing_well_formed(cvar_list@),
                start == old(self).view(),
                self.view() == db_after_lines(start, body.take(i - 2)),
        {
            assert(body[i - 2] == ls@[i as int]@);
            assert(line_well_formed(body[i - 2]));
            self.parse_line(&ls[i]);
            assert(body.take(i - 1).drop_last() =~= body.take(i - 2));
        }
        assert(body.take(body.len() as int) =~= body);
    }

    /// Stores the variable of one line.
    fn parse_line(&mut self, line: &[char])
        requires
            line_well_formed(line@),
        ensures
            final(self).view() == upsert(old(self).view(), cvar_of_line(line@)),
    {
        let c = cvar_of_line_exec(line);
        self.upsert_cvar(c);
    }

    fn position_of(&self, name: &String) -> (r: Option<usize>)
        ensures
            r matches Some(i) ==> i < self.cvars@.len() && self.view()[i as int].name == name@
                && index_of_name(self.view(), name@) == Some(i as int),
            r is None ==> index_of_name(self.view(), name@) is None,
    {
        let mut k: usize = self.cvars.len();
        assert(self.view().take(k as int) =~= self.view());
        while k > 0
            invariant
                k <= self.cvars.len(),
                index_of_name(self.view(), name@) == index_of_name(self.view().take(k as int), name@),
            decreases k,
        {
            assert(self.view().take(k as int).drop_last() =~= self.view().take(k - 1));
            if self.cvars[k - 1].name == *name {
                proof {
                    lemma_index_of_name(self.view(), name@);
                }
                return Some(k - 1);
            }
            k = k - 1;
        }
        None
    }

    fn upsert_cvar(&mut self, c: Cvar)
        ensures
            final(self).view() == upsert(old(self).view(), c@),
    {
        let ghost v = c@;
        let ghost v0 = self.view();
        match self.position_of(&c.name) {
            Some(i) => {
                assert(index_of_name(v0, v.name) == Some(i as int));
                self.cvars.set(i, c);
                assert(self.view() =~= v0.update(i as int, v));
            },
            None => {
                assert(index_of_name(v0, v.name) is None);
                self.cvars.push(c);
                assert(self.view() =~= v0.push(v));
            },
        }
    }

    /// Whether RCON can use `cvar` (see [`rcon_valid`]).
    pub fn is_rcon_valid(&self, cvar: &Cvar) -> (r: bool)
        ensures
            r == rcon_valid(cvar.flags@),
    {
        let f = &cvar.flags;
        if has_flag(f, CvarFlag::MenuBarItem) || has_flag(f, CvarFlag::Hidden) {
            return false;
        }
        if has_flag(f, CvarFlag::Demo) || has_flag(f, CvarFlag::PerUser) || has_flag(f, CvarFlag::User) {
            return false;
        }
        let is_pure_client = has_flag(f, CvarFlag::Client) && !has_flag(f, CvarFlag::Server);
        if is_pure_client {
            return false;
        }
        true
    }

    /// Completions of `input`: see [`suggestions`].
    pub fn get_suggestions(&self, input: &str, user_filters: &[CvarFlag]) -> (r: Vec<Cvar>)
        ensures
            cvar_views(r@) == suggestions(self.view(), input@, user_filters@),
    {
        let q = ascii_lower_chars(&chars_of(input));
        if q.len() == 0 {
            let r: Vec<Cvar> = Vec::new();
            assert(cvar_views(r@) =~= suggestions(self.view(), input@, user_filters@));
            return r;
        }
        let ghost db = self.view();
        let mut cands: Vec<(u128, usize)> = Vec::new();
        for i in 0..self.cvars.len()
            invariant
                db == self.view(),
                db.len() == self.cvars@.len(),
                q@ == ascii_lower_seq(input@),
                pair_view(cands@) == candidates(db.take(i as int), q@, user_filters@),
                forall|k: int| 0 <= k < cands@.len() ==> (#[trigger] cands@[k]).1 < self.cvars@.len(),
        {
            let c = &self.cvars[i];
            proof {
                assert(db.take(i + 1).drop_last() =~= db.take(i as int));
                assert(db.take(i + 1).last() == c@);
            }
            if self.is_rcon_valid(c) && !is_filtered_out(&c.flags, user_filters) {
                let name_l = ascii_lower_chars(&chars_of(c.name.as_str()));
                match match_score_exec(&name_l, &q) {
                    Some(sc) => {
                        assert(name_l@ == ascii_lower_seq(db.take(i + 1).last().name));
                        assert(db.take(i + 1).len() - 1 == i);
                        assert(match_score(name_l@, q@).unwrap() == sc as int);
                        cands.push((sc, i));
                        assert(pair_view(cands@) =~= candidates(db.take(i + 1), q@, user_filters@));
                    },
                    None => {
                        assert(name_l@ == ascii_lower_seq(db.take(i + 1).last().name));
                        assert(pair_view(cands@) =~= candidates(db.take(i + 1), q@, user_filters@));
                    },
                }
            } else {
                assert(pair_view(cands@) =~= candidates(db.take(i + 1), q@, user_filters@));
            }
        }
        assert(db.take(db.len() as int) =~= db);
        let ghost cv = pair_view(cands@);
        let mut best: Vec<usize> = Vec::new();
        let mut bound: Option<(u128, usize)> = None;
        let mut done = false;
        while best.len() < MAX_SUGGESTIONS && !done
            invariant
                cv == pair_view(cands@),
                best@.len() <= MAX_SUGGESTIONS,
                forall|k: int| 0 <= k < best@.len() ==> (#[trigger] best@[k]) < cands@.len(),
                done ==> best_k(cv, (MAX_SUGGESTIONS - best@.len()) as nat, match bound {
                    Some(b) => Some((b.0 as int, b.1 as int)),
                    None => None,
                }) == Seq::<int>::empty(),
                best_k(cv, MAX_SUGGESTIONS as nat, None) == Seq::new(best@.len(), |k: int| best@[k] as int)
                    + best_k(cv, (MAX_SUGGESTIONS - best@.len()) as nat, match bound {
                        Some(b) => Some((b.0 as int, b.1 as int)),
                        None => None,
                    }),
            decreases MAX_SUGGESTIONS - best@.len(), if done { 0int } else { 1int },
        {
            match best_after_exec(&cands, bound) {
                None => {
                    done = true;
                },
                Some(i) => {
                    let ghost before = Seq::new(best@.len(), |k: int| best@[k] as int);
                    let ghost bv = match bound {
                        Some(b) => Some((b.0 as int, b.1 as int)),
                        None => None,
                    };
                    let ghost left = (MAX_SUGGESTIONS - best@.len()) as nat;
                    assert(best_k(cv, left, bv) == seq![i as int] + best_k(cv, (left - 1) as nat, Some(cv[i as int])));
                    best.push(i);
                    bound = Some(cands[i]);
                    assert(Seq::new(best@.len(), |k: int| best@[k] as int) =~= before.push(i as int));
                    assert(before + (seq![i as int] + best_k(cv, (left - 1) as nat, Some(cv[i as int])))
                        =~= before.push(i as int) + best_k(cv, (left - 1) as nat, Some(cv[i as int])));
                },
            }
        }
        let ghost bk = best_k(cv, MAX_SUGGESTIONS as nat, None);
        assert(bk =~= Seq::new(best@.len(), |k: int| best@[k] as int)) by {
            if !done {
                assert(best@.len() == MAX_SUGGESTIONS);
            }
        }
        let mut r: Vec<Cvar> = Vec::new();
        let mut m: usize = best.len();
        while m > 0
            invariant
                m <= best@.len(),
                db == self.view(),
                db.len() == self.cvars@.len(),
                cv == pair_view(cands@),
                forall|k: int| 0 <= k < best@.len() ==> (#[trigger] best@[k]) < cands@.len(),
                forall|k: int| 0 <= k < cands@.len() ==> (#[trigger] cands@[k]).1 < self.cvars@.len(),
                r@.len() == best@.len() - m,
                forall|k: int| 0 <= k < r@.len() ==> (#[trigger] r@[k])@ == db[cands@[best@[best@.len() - 1 - k] as int].1 as int],
            decreases m,
        {
            m = m - 1;
            let ci = best[m];
            let di = cands[ci].1;
            r.push(self.cvars[di].duplicate());
        }
        assert(cvar_views(r@) =~= suggestions(self.view(), input@, user_filters@));
        r
    }

    /// Sets the value of the variable named `key`, if there is one.
    pub fn update(&mut self, key: &str, val: &str)
        ensures
            match index_of_name(old(self).view(), key@) {
                Some(i) => final(self).view() == old(self).view().update(
                    i,
                    CvarModel { value: val@, ..old(self).view()[i] },
                ),
                None => final(self).view() == old(self).view(),
            },
    {
        let ghost v0 = self.view();
        proof {
            lemma_index_of_name(v0, key@);
        }
        let name = key.to_owned();
        match self.position_of(&name) {
            Some(i) => {
                let mut c = self.cvars[i].duplicate();
                c.value = val.to_owned();
                let ghost v = c@;
                assert(v == CvarModel { value: val@, ..v0[i as int] });
                self.cvars.set(i, c);
                assert(self.view() =~= v0.update(i as int, v));
            },
            None => {},
        }
    }
}

/// Setting a variable changes its value and nothing else: the variables,
/// their order, names, flags and descriptions stay.
pub proof fn law_update_changes_only_value(db: Seq<CvarModel>, key: Seq<char>, val: Seq<char>)
    ensures
        crate::session::db_after_set(db, key, val).len() == db.len(),
        forall|i: int| 0 <= i < db.len() ==> (#[trigger] crate::session::db_after_set(db, key, val)[i]).name == db[i].name
            && crate::session::db_after_set(db, key, val)[i].flags == db[i].flags
            && crate::session::db_after_set(db, key, val)[i].description == db[i].description,
        match index_of_name(db, key) {
            Some(i) => crate::session::db_after_set(db, key, val)[i].value == val,
            None => crate::session::db_after_set(db, key, val) == db,
        },
{
    lemma_index_of_name(db, key);
}

/// Each candidate names a variable of the database that RCON can use, that
/// no filter hides and whose lower-case name matches the query.
proof fn lemma_candidates(db: Seq<CvarModel>, q: Seq<char>, filters: Seq<CvarFlag>)
    ensures
        forall|j: int| 0 <= j < candidates(db, q, filters).len() ==> {
            let c = #[trigger] candidates(db, q, filters)[j];
            &&& 0 <= c.1 < db.len()
            &&& rcon_valid(db[c.1].flags)
            &&& !filtered_out(db[c.1].flags, filters)
            &&& match_score(ascii_lower_seq(db[c.1].name), q) is Some
        },
    decreases db.len(),
{
    if db.len() > 0 {
        let t = db.drop_last();
        lemma_candidates(t, q, filters);
        let c = candidates(db, q, filters);
        let r = candidates(t, q, filters);
        assert forall|j: int| 0 <= j < c.len() implies {
            let e = #[trigger] c[j];
            &&& 0 <= e.1 < db.len()
            &&& rcon_valid(db[e.1].flags)
            &&& !filtered_out(db[e.1].flags, filters)
            &&& match_score(ascii_lower_seq(db[e.1].name), q) is Some
        } by {
            if j < r.len() {
                assert(c[j] == r[j]);
                assert(db[r[j].1] == t[r[j].1]);
            }
        }
    }
}

/// The `k` best candidates are at most `k` positions of candidates.
proof fn lemma_best_k(c: Seq<(int, int)>, k: nat, bound: Option<(int, int)>)
    ensures
        best_k(c, k, bound).len() <= k,
        forall|m: int| 0 <= m < best_k(c, k, bound).len() ==> 0 <= #[trigger] best_k(c, k, bound)[m] < c.len(),
    decreases k,
{
    if k > 0 {
        lemma_best_after_range(c, bound, 0, None);
        match best_after(c, bound, 0, None) {
            None => {},
            Some(i) => {
                if 0 <= i < c.len() {
                    lemma_best_k(c, (k - 1) as nat, Some(c[i]));
                    let b = best_k(c, k, bound);
                    let rest = best_k(c, (k - 1) as nat, Some(c[i]));
                    assert forall|m: int| 0 <= m < b.len() implies 0 <= #[trigger] b[m] < c.len() by {
                        if m > 0 {
                            assert(b[m] == rest[m - 1]);
                        }
                    }
                }
            },
        }
    }
}

/// The completions offered are at most `MAX_SUGGESTIONS` variables of the
/// database, each usable over RCON, hidden by no filter, and matching the
/// input in lower case.
pub proof fn law_suggestions_valid(db: Seq<CvarModel>, input: Seq<char>, filters: Seq<CvarFlag>)
    ensures
        suggestions(db, input, filters).len() <= MAX_SUGGESTIONS,
        forall|m: int| 0 <= m < suggestions(db, input, filters).len() ==> {
            let v = #[trigger] suggestions(db, input, filters)[m];
            &&& db.contains(v)
            &&& rcon_valid(v.flags)
            &&& !filtered_out(v.flags, filters)
            &&& match_score(ascii_lower_seq(v.name), ascii_lower_seq(input)) is Some
        },
{
    let q = ascii_lower_seq(input);
    if q.len() > 0 {
        let c = candidates(db, q, filters);
        let best = best_k(c, MAX_SUGGESTIONS as nat, None);
        lemma_candidates(db, q, filters);
        lemma_best_k(c, MAX_SUGGESTIONS as nat, None);
        let sg = suggestions(db, input, filters);
        assert forall|m: int| 0 <= m < sg.len() implies {
            let v = #[trigger] sg[m];
            &&& db.contains(v)
            &&& rcon_valid(v.flags)
            &&& !filtered_out(v.flags, filters)
            &&& match_score(ascii_lower_seq(v.name), q) is Some
        } by {
            let bi = best[best.len() - 1 - m];
            assert(0 <= bi < c.len());
            let e = c[bi];
            assert(sg[m] == db[e.1]);
        }
    }
}

/// Local and per-user settings are never usable over RCON: a variable
/// flagged `user`, `per_user` or `demo` is not valid, nor is a client-only
/// one, and so no completion offered carries any of those flags.
pub proof fn law_user_settings_never_offered(db: Seq<CvarModel>, input: Seq<char>, filters: Seq<CvarFlag>, flags: Seq<CvarFlag>)
    ensures
        flags.contains(CvarFlag::User) ==> !rcon_valid(flags),
        flags.contains(CvarFlag::PerUser) ==> !rcon_valid(flags),
        flags.contains(CvarFlag::Demo) ==> !rcon_valid(flags),
        flags.contains(CvarFlag::Hidden) ==> !rcon_valid(flags),
        flags.contains(CvarFlag::MenuBarItem) ==> !rcon_valid(flags),
        flags.contains(CvarFlag::Client) && !flags.contains(CvarFlag::Server) ==> !rcon_valid(flags),
        forall|m: int| 0 <= m < suggestions(db, input, filters).len() ==> {
            let v = #[trigger] suggestions(db, input, filters)[m];
            &&& !v.flags.contains(CvarFlag::User)
            &&& !v.flags.contains(CvarFlag::PerUser)
            &&& !v.flags.contains(CvarFlag::Demo)
        },
{
    law_suggestions_valid(db, input, filters);
}

/// Storing a variable keeps names unique.
proof fn lemma_upsert_unique(db: Seq<CvarModel>, c: CvarModel)
    requires
        names_unique(db),
    ensures
        names_unique(upsert(db, c)),
{
    lemma_index_of_name(db, c.name);
    let u = upsert(db, c);
    match index_of_name(db, c.name) {
        Some(k) => {
            assert forall|i: int, j: int| 0 <= i < j < u.len() implies u[i].name != u[j].name by {
                assert(u[i].name == db[i].name && u[j].name == db[j].name);
            }
        },
        None => {
            assert forall|i: int, j: int| 0 <= i < j < u.len() implies u[i].name != u[j].name by {
                if j < db.len() {
                    assert(u[i] == db[i] && u[j] == db[j]);
                } else {
                    assert(u[i] == db[i]);
                }
            }
        },
    }
}

proof fn lemma_lines_unique(db: Seq<CvarModel>, ls: Seq<Seq<char>>)
    requires
        names_unique(db),
    ensures
        names_unique(db_after_lines(db, ls)),
    decreases ls.len(),
{
    if ls.len() > 0 {
        lemma_lines_unique(db, ls.drop_last());
        lemma_upsert_unique(db_after_lines(db, ls.drop_last()), cvar_of_line(ls.last()));
    }
}

/// A parsed listing names each variable once; a later line for the same
/// name replaces the earlier one.
pub proof fn law_parsed_names_unique(text: Seq<char>)
    ensures
        names_unique(parse_listing(text)),
{
    lemma_lines_unique(Seq::empty(), listing_body(text));
}

/// Setting a value keeps the names unique.
pub proof fn law_update_keeps_names_unique(db: Seq<CvarModel>, key: Seq<char>, val: Seq<char>)
    requires
        names_unique(db),
    ensures
        names_unique(crate::session::db_after_set(db, key, val)),
{
    law_update_changes_only_value(db, key, val);
    let u = crate::session::db_after_set(db, key, val);
    assert forall|i: int, j: int| 0 <= i < j < u.len() implies u[i].name != u[j].name by {
        assert(u[i].name == db[i].name && u[j].name == db[j].name);
    }
}

/// Hides completions with `flag` when they are shown, and shows them again
/// when hidden (the filter list holds each flag once).
pub fn toggle_filter(filters: &mut Vec<CvarFlag>, flag: CvarFlag)
    requires
        old(filters)@.no_duplicates(),
    ensures
        final(filters)@.no_duplicates(),
        old(filters)@.contains(flag) ==> final(filters)@.to_set() == old(filters)@.to_set().remove(flag),
        !old(filters)@.contains(flag) ==> final(filters)@ == old(filters)@.push(flag),
{
    let ghost s = filters@;
    let mut i: usize = 0;
    while i < filters.len()
        invariant
            i <= filters@.len(),
            s == filters@,
            s == old(filters)@,
            s.no_duplicates(),
            forall|k: int| 0 <= k < i ==> filters@[k] != flag,
        decreases filters@.len() - i,
    {
        if filters[i] == flag {
            assert(s[i as int] == flag);
            filters.remove(i);
            proof {
                let t = filters@;
                assert(t =~= s.remove(i as int));
                assert forall|a: int, b: int| 0 <= a < b < t.len() implies t[a] != t[b] by {
                    let a2 = if a < i { a } else { a + 1 };
                    let b2 = if b < i { b } else { b + 1 };
                    assert(t[a] == s[a2] && t[b] == s[b2]);
                    assert(a2 != b2);
                }
                assert forall|x: CvarFlag| #[trigger] t.to_set().contains(x) <==> s.to_set().remove(flag).contains(x) by {
                    if t.to_set().contains(x) {
                        let k = choose|k: int| 0 <= k < t.len() && t[k] == x;
                        let k2 = if k < i { k } else { k + 1 };
                        assert(s[k2] == x);
                        assert(k2 != i);
                    }
                    if s.to_set().contains(x) && x != flag {
                        let k = choose|k: int| 0 <= k < s.len() && s[k] == x;
                        let k2 = if k < i { k } else { k - 1 };
                        assert(t[k2] == x);
                    }
                }
                assert(t.to_set() =~= s.to_set().remove(flag));
            }
            return;
        }
        i = i + 1;
    }
    filters.push(flag);
    proof {
        let t = filters@;
        assert forall|a: int, b: int| 0 <= a < b < t.len() implies t[a] != t[b] by {
            if b == t.len() - 1 {
                assert(t[a] == s[a]);
            }
        }
    }
}

/// The name of a flag in the filter list.
pub open spec fn flag_label_of(f: CvarFlag) -> Seq<char> {
    match f {
        CvarFlag::Server => "Server"@,
        CvarFlag::Client => "Client"@,
        CvarFlag::Release => "Release"@,
        CvarFlag::Replicated => "Replicated"@,
        CvarFlag::Cheat => "Cheat"@,
        CvarFlag::Archive => "Archive"@,
        CvarFlag::Notify => "Notify"@,
        CvarFlag::User => "User"@,
        CvarFlag::PerUser => "Per User"@,
        CvarFlag::Demo => "Demo"@,
        CvarFlag::Protected => "Protected"@,
        CvarFlag::ServerCantQuery => "Server Can't Query"@,
        CvarFlag::ServerCanExecute => "Server Can Execute"@,
        CvarFlag::ClientCanExecute => "Client Can Execute"@,
        CvarFlag::NoRecord => "No Record"@,
        CvarFlag::Defensive => "Defensive"@,
        CvarFlag::Linked => "Linked"@,
        CvarFlag::Special => "Special"@,
        CvarFlag::MenuBarItem => "Menu Bar Item"@,
        CvarFlag::VConsoleFuzzy => "VConsole Fuzzy"@,
        CvarFlag::VConsoleSetFocus => "VConsole Set Focus"@,
        CvarFlag::DevelopmentOnly => "Development Only"@,
        CvarFlag::Hidden => "Hidden"@,
    }
}

/// The name of a flag in the filter list.
pub fn flag_label(f: CvarFlag) -> (r: String)
    ensures
        r@ == flag_label_of(f),
{
    let t = match f {
        CvarFlag::Server => "Server",
        CvarFlag::Client => "Client",
        CvarFlag::Release => "Release",
        CvarFlag::Replicated => "Replicated",
        CvarFlag::Cheat => "Cheat",
        CvarFlag::Archive => "Archive",
        CvarFlag::Notify => "Notify",
        CvarFlag::User => "User",
        CvarFlag::PerUser => "Per User",
        CvarFlag::Demo => "Demo",
        CvarFlag::Protected => "Protected",
        CvarFlag::ServerCantQuery => "Server Can't Query",
        CvarFlag::ServerCanExecute => "Server Can Execute",
        CvarFlag::ClientCanExecute => "Client Can Execute",
        CvarFlag::NoRecord => "No Record",
        CvarFlag::Defensive => "Defensive",
        CvarFlag::Linked => "Linked",
        CvarFlag::Special => "Special",
        CvarFlag::MenuBarItem => "Menu Bar Item",
        CvarFlag::VConsoleFuzzy => "VConsole Fuzzy",
        CvarFlag::VConsoleSetFocus => "VConsole Set Focus",
        CvarFlag::DevelopmentOnly => "Development Only",
        CvarFlag::Hidden => "Hidden",
    };
    String::from_str(t)
}

} // verus!
