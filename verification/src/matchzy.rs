//! MatchZy support: the match configuration built from the live roster and
//! typed entries, and the configuration the browser hosts for the server.
use vstd::prelude::*;
use crate::network::{steam64_of, steamid_to_steam64};
use crate::players::{RconPlayers, Team, team_slots};
use crate::commands::shown_name_of;
use crate::text::{chars_eq, chars_of, decimal, trim, trim_chars};
use crate::session::{ipv4_text, ipv4_to_string, MATCHZY_PORT};

verus! {

/// A player of a match team: Steam64 ID and name.
#[derive(Debug, Clone, PartialEq)]
pub struct MatchPlayer {
    pub steam64: String,
    pub name: String,
}

/// A team of a match configuration.
#[derive(Debug, Clone, PartialEq)]
pub struct MatchTeam {
    pub name: String,
    /// No Steam64 ID occurs twice.
    pub players: Vec<MatchPlayer>,
}

/// A MatchZy match configuration.
#[derive(Debug, Clone, PartialEq)]
pub struct MatchConfig {
    pub team1: MatchTeam,
    pub team2: MatchTeam,
    pub num_maps: u8,
    pub maplist: Vec<String>,
    pub map_ban_order: Vec<String>,
    pub skip_veto: bool,
    pub players_per_team: u8,
    pub series_can_clinch: bool,
}

/// A player typed in by hand: Steam ID in any accepted form, and name.
#[derive(Debug, Clone, PartialEq)]
pub struct TypedPlayer {
    pub steamid: String,
    pub name: String,
}

/// The players a team is configured for.
pub const PLAYERS_PER_TEAM: u8 = 3;

/// The (key, value) views of a list of players.
pub open spec fn player_pairs(v: Seq<MatchPlayer>) -> Seq<(Seq<char>, Seq<char>)> {
    v.map_values(|p: MatchPlayer| (p.steam64@, p.name@))
}

/// The (Steam ID, name) views of a list of typed players.
pub open spec fn typed_pairs(v: Seq<TypedPlayer>) -> Seq<(Seq<char>, Seq<char>)> {
    v.map_values(|p: TypedPlayer| (p.steamid@, p.name@))
}

/// No key occurs twice.
pub open spec fn keys_distinct(s: Seq<(Seq<char>, Seq<char>)>) -> bool {
    forall|i: int, j: int| 0 <= i < j < s.len() ==> #[trigger] s[i].0 != #[trigger] s[j].0
}

/// The map a list of pairs denotes, later pairs overriding earlier ones.
pub open spec fn pairs_map(s: Seq<(Seq<char>, Seq<char>)>) -> Map<Seq<char>, Seq<char>>
    decreases s.len(),
{
    if s.len() == 0 {
        Map::empty()
    } else {
        pairs_map(s.drop_last()).insert(s.last().0, s.last().1)
    }
}

/// For distinct keys: the map is finite, has one key per pair, holds each
/// pair, and its keys are the pairs' keys.
pub proof fn lemma_pairs_map(s: Seq<(Seq<char>, Seq<char>)>)
    requires
        keys_distinct(s),
    ensures
        pairs_map(s).dom().finite(),
        pairs_map(s).dom().len() == s.len(),
        forall|i: int| 0 <= i < s.len() ==> pairs_map(s).contains_key(#[trigger] s[i].0)
            && pairs_map(s)[s[i].0] == s[i].1,
        forall|k: Seq<char>| #[trigger] pairs_map(s).contains_key(k) ==> exists|i: int|
            0 <= i < s.len() && s[i].0 == k,
    decreases s.len(),
{
    if s.len() > 0 {
        let t = s.drop_last();
        assert(keys_distinct(t));
        lemma_pairs_map(t);
        if pairs_map(t).contains_key(s.last().0) {
            let i = choose|i: int| 0 <= i < t.len() && t[i].0 == s.last().0;
            assert(s[i].0 == s[s.len() - 1].0);
        }
        assert forall|k: Seq<char>| #[trigger] pairs_map(s).contains_key(k) implies exists|i: int|
            0 <= i < s.len() && s[i].0 == k by {
            if k != s.last().0 {
                let i = choose|i: int| 0 <= i < t.len() && t[i].0 == k;
                assert(s[i].0 == k);
            } else {
                assert(s[s.len() - 1].0 == k);
            }
        }
        assert forall|i: int| 0 <= i < s.len() implies pairs_map(s).contains_key(#[trigger] s[i].0)
            && pairs_map(s)[s[i].0] == s[i].1 by {
            if i < s.len() - 1 {
                assert(t[i] == s[i]);
            }
        }
    }
}

/// The Steam64 key of a Steam ID, in decimal, if it denotes one.
pub open spec fn steam_key(sid: Seq<char>) -> Option<Seq<char>> {
    match steam64_of(sid) {
        Some(v) => Some(decimal(v)),
        None => None,
    }
}

/// The team's players from its roster: each roster player with a valid
/// Steam ID, under its Steam64 ID.
pub open spec fn roster_entries(roster: Seq<(Seq<char>, Seq<char>)>) -> Map<Seq<char>, Seq<char>>
    decreases roster.len(),
{
    if roster.len() == 0 {
        Map::empty()
    } else {
        let m = roster_entries(roster.drop_last());
        match steam_key(roster.last().0) {
            Some(k) => m.insert(k, roster.last().1),
            None => m,
        }
    }
}

/// The name of a typed player: `UNKNOWN` when left blank.
pub open spec fn typed_name(name: Seq<char>) -> Seq<char> {
    if trim(name).len() == 0 {
        "UNKNOWN"@
    } else {
        name
    }
}

/// The team's players after the typed entries: once the team has
/// `PLAYERS_PER_TEAM` players, the remaining entries are ignored; before,
/// each entry with a valid Steam ID is added.
pub open spec fn with_typed(m: Map<Seq<char>, Seq<char>>, extras: Seq<(Seq<char>, Seq<char>)>) -> Map<
    Seq<char>,
    Seq<char>,
>
    decreases extras.len(),
{
    if extras.len() == 0 {
        m
    } else {
        let m2 = with_typed(m, extras.drop_last());
        if m2.dom().len() >= PLAYERS_PER_TEAM {
            m2
        } else {
            match steam_key(extras.last().0) {
                Some(k) => m2.insert(k, typed_name(extras.last().1)),
                None => m2,
            }
        }
    }
}

/// Replacing the value of an existing key is inserting it into the map.
proof fn lemma_replace(s0: Seq<(Seq<char>, Seq<char>)>, i: int, k: Seq<char>, n: Seq<char>)
    requires
        keys_distinct(s0),
        0 <= i < s0.len(),
        s0[i].0 == k,
    ensures
        keys_distinct(s0.update(i, (k, n))),
        pairs_map(s0.update(i, (k, n))) == pairs_map(s0).insert(k, n),
{
    let s1 = s0.update(i, (k, n));
    assert forall|a: int| 0 <= a < s1.len() implies #[trigger] s1[a].0 == s0[a].0 by {}
    assert forall|a: int, b: int| 0 <= a < b < s1.len() implies #[trigger] s1[a].0 != #[trigger] s1[b].0 by {
        assert(s1[a].0 == s0[a].0);
        assert(s1[b].0 == s0[b].0);
    }
    lemma_pairs_map(s0);
    lemma_pairs_map(s1);
    let m = pairs_map(s0).insert(k, n);
    assert forall|x: Seq<char>| #[trigger] pairs_map(s1).contains_key(x) <==> m.contains_key(x) by {
        if pairs_map(s1).contains_key(x) {
            let j = choose|j: int| 0 <= j < s1.len() && s1[j].0 == x;
            assert(s0[j].0 == x);
        }
        if pairs_map(s0).contains_key(x) {
            let j = choose|j: int| 0 <= j < s0.len() && s0[j].0 == x;
            assert(s1[j].0 == x);
        }
        if x == k {
            assert(s1[i].0 == x);
        }
    }
    assert forall|x: Seq<char>| #[trigger] pairs_map(s1).contains_key(x) implies pairs_map(s1)[x] == m[x] by {
        let j = choose|j: int| 0 <= j < s1.len() && s1[j].0 == x;
        if j != i {
            assert(s1[j] == s0[j]);
        }
    }
    assert(pairs_map(s1) =~= m);
}

/// Adds or replaces the player with Steam64 ID `key`.
fn put_player(v: &mut Vec<MatchPlayer>, key: String, name: String)
    requires
        keys_distinct(player_pairs(old(v)@)),
    ensures
        keys_distinct(player_pairs(final(v)@)),
        pairs_map(player_pairs(final(v)@)) == pairs_map(player_pairs(old(v)@)).insert(key@, name@),
{
    let ghost s0 = player_pairs(v@);
    let ghost kv = key@;
    let ghost nv = name@;
    proof {
        lemma_pairs_map(s0);
    }
    let kc = chars_of(key.as_str());
    let mut i: usize = 0;
    while i < v.len()
        invariant
            i <= v@.len(),
            s0 == player_pairs(v@),
            s0 == player_pairs(old(v)@),
            keys_distinct(s0),
            kc@ == key@,
            kv == key@,
            nv == name@,
            forall|j: int| 0 <= j < i ==> #[trigger] s0[j].0 != key@,
        decreases v@.len() - i,
    {
        if chars_eq(&chars_of(v[i].steam64.as_str()), &kc) {
            assert(s0[i as int].0 == key@);
            v.set(i, MatchPlayer { steam64: key, name });
            proof {
                assert(player_pairs(v@) =~= s0.update(i as int, (kv, nv)));
                lemma_replace(s0, i as int, kv, nv);
                assert(pairs_map(player_pairs(v@)) == pairs_map(s0).insert(kv, nv));
                assert(s0 == player_pairs(old(v)@));
            }
            return;
        }
        i = i + 1;
    }
    v.push(MatchPlayer { steam64: key, name });
    proof {
        let s1 = player_pairs(v@);
        assert(s1 =~= s0.push((key@, name@)));
        assert(s1.drop_last() =~= s0);
    }
}

/// A team's players: the roster, then the typed entries while the team has
/// room.
pub fn team_players(roster: &Vec<TypedPlayer>, typed: &Vec<TypedPlayer>) -> (r: Vec<MatchPlayer>)
    ensures
        keys_distinct(player_pairs(r@)),
        pairs_map(player_pairs(r@)) == with_typed(roster_entries(typed_pairs(roster@)), typed_pairs(typed@)),
{
    let mut r: Vec<MatchPlayer> = Vec::new();
    assert(player_pairs(r@) =~= Seq::<(Seq<char>, Seq<char>)>::empty());
    for i in 0..roster.len()
        invariant
            keys_distinct(player_pairs(r@)),
            pairs_map(player_pairs(r@)) == roster_entries(typed_pairs(roster@).take(i as int)),
    {
        let ghost pre = typed_pairs(roster@).take(i + 1);
        assert(pre.drop_last() =~= typed_pairs(roster@).take(i as int));
        assert(pre.last() == (roster@[i as int].steamid@, roster@[i as int].name@));
        match steamid_to_steam64(roster[i].steamid.as_str()) {
            Some(k) => {
                put_player(&mut r, k, roster[i].name.clone());
            },
            None => {},
        }
    }
    assert(typed_pairs(roster@).take(roster@.len() as int) =~= typed_pairs(roster@));
    let ghost base = roster_entries(typed_pairs(roster@));
    assert(typed_pairs(typed@).take(0) =~= Seq::<(Seq<char>, Seq<char>)>::empty());
    let mut j: usize = 0;
    while j < typed.len() && r.len() < PLAYERS_PER_TEAM as usize
        invariant
            j <= typed@.len(),
            keys_distinct(player_pairs(r@)),
            pairs_map(player_pairs(r@)) == with_typed(base, typed_pairs(typed@).take(j as int)),
        decreases typed@.len() - j,
    {
        let ghost pre = typed_pairs(typed@).take(j + 1);
        assert(pre.drop_last() =~= typed_pairs(typed@).take(j as int));
        proof {
            lemma_pairs_map(player_pairs(r@));
            assert(player_pairs(r@).len() == r@.len());
        }
        match steamid_to_steam64(typed[j].steamid.as_str()) {
            Some(k) => {
                let t = trim_chars(&chars_of(typed[j].name.as_str()));
                let name = if t.len() == 0 {
                    String::from_str("UNKNOWN")
                } else {
                    typed[j].name.clone()
                };
                put_player(&mut r, k, name);
            },
            None => {},
        }
        j = j + 1;
    }
    proof {
        lemma_pairs_map(player_pairs(r@));
        assert(player_pairs(r@).len() == r@.len());
        if j < typed@.len() {
            lemma_full_stays(base, typed_pairs(typed@), j as int);
        } else {
            assert(typed_pairs(typed@).take(typed@.len() as int) =~= typed_pairs(typed@));
        }
    }
    r
}

/// Once a team is full, further typed entries leave it unchanged.
proof fn lemma_full_stays(base: Map<Seq<char>, Seq<char>>, extras: Seq<(Seq<char>, Seq<char>)>, j: int)
    requires
        0 <= j <= extras.len(),
        with_typed(base, extras.take(j)).dom().len() >= PLAYERS_PER_TEAM,
    ensures
        with_typed(base, extras) == with_typed(base, extras.take(j)),
    decreases extras.len() - j,
{
    if j < extras.len() {
        let n = extras.take(j + 1);
        assert(n.drop_last() =~= extras.take(j));
        lemma_full_stays(base, extras, j + 1);
    } else {
        assert(extras.take(j) =~= extras);
    }
}

/// The (Steam ID, shown name) of each player on `team`, each once, in the
/// roster's own order.
pub fn team_roster(players: &RconPlayers, team: Team) -> (r: Vec<TypedPlayer>)
    ensures
        exists|ks: Seq<u16>|
            #![trigger team_slots(players@, team, ks)]
            team_slots(players@, team, ks) && r@.len() == ks.len() && forall|i: int|
                0 <= i < ks.len() ==> (#[trigger] r@[i]).steamid@ == players@[ks[i]].steamid
                    && r@[i].name@ == shown_name_of(players@[ks[i]].name),
{
    let on_team = players.players_on_team(team);
    let ghost ks = choose|ks: Seq<u16>|
        #![trigger team_slots(players@, team, ks)]
        team_slots(players@, team, ks) && on_team@.len() == ks.len() && forall|i: int|
            0 <= i < ks.len() ==> #[trigger] on_team@[i]@ == players@[ks[i]];
    let mut r: Vec<TypedPlayer> = Vec::new();
    for i in 0..on_team.len()
        invariant
            r@.len() == i,
            forall|j: int| 0 <= j < i ==> (#[trigger] r@[j]).steamid@ == on_team@[j].steamid@
                && r@[j].name@ == shown_name_of(on_team@[j].name@),
    {
        let p = &on_team[i];
        r.push(TypedPlayer { steamid: p.steamid.clone(), name: crate::commands::shown_name(p) });
    }
    assert forall|i: int| 0 <= i < ks.len() implies (#[trigger] r@[i]).steamid@ == players@[ks[i]].steamid
        && r@[i].name@ == shown_name_of(players@[ks[i]].name) by {
        assert(on_team@[i]@ == players@[ks[i]]);
    }
    r
}

/// The map pool of generated configurations.
pub open spec fn map_pool() -> Seq<Seq<char>> {
    seq![
        "de_ancient"@,
        "de_anubis"@,
        "de_dust2"@,
        "de_inferno"@,
        "de_mirage"@,
        "de_nuke"@,
        "de_overpass"@,
    ]
}

/// The veto order of generated configurations.
pub open spec fn ban_order() -> Seq<Seq<char>> {
    seq!["team1_ban"@, "team2_ban"@, "team1_pick"@, "team2_pick"@]
}

fn strings_of(v: &[&str]) -> (r: Vec<String>)
    ensures
        r@.len() == v@.len(),
        forall|i: int| 0 <= i < v@.len() ==> #[trigger] r@[i]@ == v@[i]@,
{
    let mut r: Vec<String> = Vec::new();
    for i in 0..v.len()
        invariant
            r@.len() == i,
            forall|j: int| 0 <= j < i ==> #[trigger] r@[j]@ == v@[j]@,
    {
        r.push(String::from_str(v[i]));
    }
    r
}

/// The match configuration: team 1 is the counter-terrorist side and team
/// 2 the terrorist side, each named by its trimmed entry and made of
/// `team_players`; best of three over the fixed map pool with the fixed
/// veto order, three players a team.
pub fn build_match_config(
    ct_name: &str,
    t_name: &str,
    ct_roster: &Vec<TypedPlayer>,
    ct_typed: &Vec<TypedPlayer>,
    t_roster: &Vec<TypedPlayer>,
    t_typed: &Vec<TypedPlayer>,
) -> (r: MatchConfig)
    ensures
        r.team1.name@ == trim(ct_name@),
        r.team2.name@ == trim(t_name@),
        keys_distinct(player_pairs(r.team1.players@)),
        keys_distinct(player_pairs(r.team2.players@)),
        pairs_map(player_pairs(r.team1.players@)) == with_typed(
            roster_entries(typed_pairs(ct_roster@)),
            typed_pairs(ct_typed@),
        ),
        pairs_map(player_pairs(r.team2.players@)) == with_typed(
            roster_entries(typed_pairs(t_roster@)),
            typed_pairs(t_typed@),
        ),
        r.num_maps == 3,
        r.maplist@.map_values(|m: String| m@) == map_pool(),
        r.map_ban_order@.map_values(|m: String| m@) == ban_order(),
        !r.skip_veto,
        r.players_per_team == PLAYERS_PER_TEAM,
        r.series_can_clinch,
{
    let maplist = strings_of(
        &["de_ancient", "de_anubis", "de_dust2", "de_inferno", "de_mirage", "de_nuke", "de_overpass"],
    );
    let bans = strings_of(&["team1_ban", "team2_ban", "team1_pick", "team2_pick"]);
    proof {
        assert(maplist@.map_values(|m: String| m@) =~= map_pool());
        assert(bans@.map_values(|m: String| m@) =~= ban_order());
    }
    let n1 = crate::text::string_from_chars(&trim_chars(&chars_of(ct_name)));
    let n2 = crate::text::string_from_chars(&trim_chars(&chars_of(t_name)));
    MatchConfig {
        team1: MatchTeam { name: n1, players: team_players(ct_roster, ct_typed) },
        team2: MatchTeam { name: n2, players: team_players(t_roster, t_typed) },
        num_maps: 3,
        maplist,
        map_ban_order: bans,
        skip_veto: false,
        players_per_team: PLAYERS_PER_TEAM,
        series_can_clinch: true,
    }
}

/// How many players a team still needs: `PLAYERS_PER_TEAM` less its
/// roster, never below zero.
pub fn missing_players(roster_len: usize) -> (r: u8)
    ensures
        r as int == if roster_len >= PLAYERS_PER_TEAM {
            0
        } else {
            PLAYERS_PER_TEAM - roster_len
        },
{
    if roster_len >= PLAYERS_PER_TEAM as usize {
        0
    } else {
        PLAYERS_PER_TEAM - roster_len as u8
    }
}

// ---------------------------------------------------------------------------
// Hosting
// ---------------------------------------------------------------------------

/// The answer to a request for the hosted configuration.
pub struct HostedReply {
    pub status: u16,
    pub body: String,
}

/// The configuration the browser hosts for MatchZy to fetch.
pub struct ConfigHost {
    config: String,
}

impl ConfigHost {
    /// The configuration hosted.
    pub closed spec fn hosted(&self) -> Seq<char> {
        self.config@
    }

    /// Nothing hosted yet.
    pub fn new() -> (r: ConfigHost)
        ensures
            r.hosted().len() == 0,
    {
        ConfigHost { config: String::new() }
    }

    /// A posted configuration replaces the hosted one.
    pub fn publish(&mut self, body: String)
        ensures
            final(self).hosted() == body@,
    {
        self.config = body;
    }

    /// The hosted configuration, `200` with its text; `404` with
    /// `No MatchZy configuration published.` while it is empty.
    pub fn fetch(&self) -> (r: HostedReply)
        ensures
            self.hosted().len() == 0 ==> r.status == 404 && r.body@
                == "No MatchZy configuration published."@,
            self.hosted().len() > 0 ==> r.status == 200 && r.body@ == self.hosted(),
    {
        if chars_of(self.config.as_str()).len() == 0 {
            HostedReply { status: 404, body: String::from_str("No MatchZy configuration published.") }
        } else {
            HostedReply { status: 200, body: self.config.clone() }
        }
    }
}

/// `http://<ip>:7131/MatchZyConfig`, where the configuration is hosted for
/// a server that reaches this machine at `ip`.
pub open spec fn matchzy_config_url_of(ip: u32) -> Seq<char> {
    "http://"@ + ipv4_text(ip) + ":"@ + decimal(MATCHZY_PORT as nat) + "/MatchZyConfig"@
}

/// The URL the configuration is published at and fetched from.
pub fn matchzy_config_url(ip: u32) -> (r: String)
    ensures
        r@ == matchzy_config_url_of(ip),
{
    let mut s = String::from_str("http://");
    s.append(ipv4_to_string(ip).as_str());
    s.append(":");
    let port = crate::text::u64_to_string(MATCHZY_PORT as u64);
    s.append(port.as_str());
    s.append("/MatchZyConfig");
    s
}

/// The command that makes MatchZy load the match from `url`.
pub open spec fn loadmatch_command_of(url: Seq<char>) -> Seq<char> {
    "matchzy_loadmatch_url \""@ + url + "\""@
}

/// The command that makes MatchZy load the match from `url`.
pub fn loadmatch_command(url: &str) -> (r: String)
    ensures
        r@ == loadmatch_command_of(url@),
{
    let mut s = String::from_str("matchzy_loadmatch_url \"");
    s.append(url);
    s.append("\"");
    s
}

/// Publishing a configuration for a server that reaches this machine at
/// `ip`, if a local address faces it: the URL to post the configuration to
/// and the command to send the server afterwards. Without such an address
/// nothing is published.
pub fn publish_plan(ip: Option<u32>) -> (r: Option<(String, String)>)
    ensures
        match ip {
            Some(a) => r matches Some((url, cmd)) && url@ == matchzy_config_url_of(a)
                && cmd@ == loadmatch_command_of(matchzy_config_url_of(a)),
            None => r is None,
        },
{
    match ip {
        Some(a) => {
            let url = matchzy_config_url(a);
            let cmd = loadmatch_command(url.as_str());
            Some((url, cmd))
        },
        None => None,
    }
}

/// Typed entries never fill a team beyond `PLAYERS_PER_TEAM`: they add
/// players only while the team is smaller.
pub proof fn law_typed_fill_limit(m: Map<Seq<char>, Seq<char>>, extras: Seq<(Seq<char>, Seq<char>)>)
    requires
        m.dom().finite(),
    ensures
        with_typed(m, extras).dom().finite(),
        with_typed(m, extras).dom().len() <= if m.dom().len() > PLAYERS_PER_TEAM {
            m.dom().len()
        } else {
            PLAYERS_PER_TEAM as nat
        },
    decreases extras.len(),
{
    if extras.len() > 0 {
        law_typed_fill_limit(m, extras.drop_last());
    }
}

} // verus!
