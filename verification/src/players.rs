//! The player roster of an RCON session, kept current from live log events.
use vstd::prelude::*;
use std::collections::HashMap;
use crate::events::{LogPlayer, LogTeam, RoundStats, RosterEntry, roster_map};

verus! {

broadcast use vstd::std_specs::hash::group_hash_axioms;

/// A team on the server.
#[derive(Debug, Clone, Copy, PartialEq, Eq, Structural)]
pub enum Team {
    CT,
    Terrorist,
    Spectator,
    Unassigned,
    Unknown,
}

/// A player on the server.
#[derive(Debug, Clone, PartialEq)]
pub struct Player {
    pub name: String,
    pub team: Team,
    pub id: u16,
    pub steamid: String,
}

/// A player as a mathematical value.
pub struct PlayerView {
    pub name: Seq<char>,
    pub team: Team,
    pub id: u16,
    pub steamid: Seq<char>,
}

impl View for Player {
    type V = PlayerView;

    open spec fn view(&self) -> PlayerView {
        PlayerView { name: self.name@, team: self.team, id: self.id, steamid: self.steamid@ }
    }
}

impl Player {
    /// A copy of this player.
    pub fn duplicate(&self) -> (r: Player)
        ensures
            r == *self,
    {
        Player {
            name: self.name.clone(),
            team: self.team,
            id: self.id,
            steamid: self.steamid.clone(),
        }
    }
}

/// The team a live log team stands for.
pub open spec fn team_of(t: LogTeam) -> Team {
    match t {
        LogTeam::CT => Team::CT,
        LogTeam::Terrorist => Team::Terrorist,
        LogTeam::Spectator => Team::Spectator,
        LogTeam::Unassigned => Team::Unassigned,
        LogTeam::Unknown => Team::Unknown,
    }
}

/// The team of a round summary's team number; only `2` and `3` name one.
pub open spec fn team_of_number(n: i32) -> Option<Team> {
    if n == 2 {
        Some(Team::Terrorist)
    } else if n == 3 {
        Some(Team::CT)
    } else {
        None
    }
}

/// The placeholder `ABDC` given to the Steam ID of a player first seen in a
/// round summary.
pub open spec fn placeholder_steamid() -> Seq<char> {
    seq!['A', 'B', 'D', 'C']
}

/// A player first seen in a round summary in slot `id`: no name, the
/// summary's slot as ID, and the placeholder Steam ID.
pub open spec fn newcomer(t: Team, id: u16) -> PlayerView {
    PlayerView { name: Seq::empty(), team: t, id, steamid: placeholder_steamid() }
}

/// The player a team switch records.
pub open spec fn switched_player(p: LogPlayer) -> PlayerView {
    PlayerView { name: p.name@, team: team_of(p.team), id: p.id, steamid: p.steamid@ }
}

/// What a round summary row with team number `team` makes of slot `id`:
/// a known team sets the team of the player there (or adds a newcomer);
/// another number leaves the player as it was.
pub open spec fn after_stats(old: Map<u16, PlayerView>, id: u16, team: i32) -> Option<PlayerView> {
    match team_of_number(team) {
        Some(t) => Some(
            if old.contains_key(id) {
                PlayerView { team: t, ..old[id] }
            } else {
                newcomer(t, id)
            },
        ),
        None => if old.contains_key(id) {
            Some(old[id])
        } else {
            None
        },
    }
}

/// The roster after a round summary: only slots of the summary remain, each
/// as `after_stats` makes it.
pub open spec fn players_after_stats(old: Map<u16, PlayerView>, roster: Map<u16, i32>) -> Map<
    u16,
    PlayerView,
> {
    Map::new(
        |id: u16| roster.contains_key(id) && after_stats(old, id, roster[id]) is Some,
        |id: u16| after_stats(old, id, roster[id])->0,
    )
}

/// `ks` lists, each once, exactly the slots of `m` whose player is on
/// `team`.
pub open spec fn team_slots(m: Map<u16, PlayerView>, team: Team, ks: Seq<u16>) -> bool {
    &&& ks.no_duplicates()
    &&& forall|k: u16| #[trigger] ks.contains(k) <==> (m.contains_key(k) && m[k].team == team)
}

/// The views of the players of a map.
pub open spec fn player_views(m: Map<u16, Player>) -> Map<u16, PlayerView> {
    m.map_values(|p: Player| p@)
}

/// The players of an RCON session, by slot.
#[derive(Clone, Debug)]
pub struct RconPlayers {
    players: HashMap<u16, Player>,
}

impl View for RconPlayers {
    type V = Map<u16, PlayerView>;

    closed spec fn view(&self) -> Map<u16, PlayerView> {
        player_views(self.players@)
    }
}

pub(crate) fn team_from_log(t: LogTeam) -> (r: Team)
    ensures
        r == team_of(t),
{
    match t {
        LogTeam::CT => Team::CT,
        LogTeam::Terrorist => Team::Terrorist,
        LogTeam::Spectator => Team::Spectator,
        LogTeam::Unassigned => Team::Unassigned,
        LogTeam::Unknown => Team::Unknown,
    }
}

fn team_from_number(n: i32) -> (r: Option<Team>)
    ensures
        r == team_of_number(n),
{
    if n == 2 {
        Some(Team::Terrorist)
    } else if n == 3 {
        Some(Team::CT)
    } else {
        None
    }
}

fn newcomer_player(t: Team, id: u16) -> (r: Player)
    ensures
        r@ == newcomer(t, id),
{
    let steamid = String::from_str("ABDC");
    proof {
        reveal_strlit("ABDC");
    }
    assert(steamid@ =~= placeholder_steamid());
    Player { name: String::new(), team: t, id, steamid }
}

impl RconPlayers {
    /// An empty roster.
    pub fn new() -> (r: RconPlayers)
        ensures
            r@ == Map::<u16, PlayerView>::empty(),
    {
        let r = RconPlayers { players: HashMap::new() };
        assert(r@ =~= Map::<u16, PlayerView>::empty());
        r
    }

    /// Records a team switch: the player's slot holds the player as the log
    /// names them, added where the slot was empty.
    pub fn update_with_team_switch(&mut self, player: &LogPlayer)
        ensures
            final(self)@ == old(self)@.insert(player.id, switched_player(*player)),
    {
        let ghost m0 = self.players@;
        let p = Player {
            name: player.name.clone(),
            team: team_from_log(player.team),
            id: player.id,
            steamid: player.steamid.clone(),
        };
        self.players.insert(player.id, p);
        assert(player_views(self.players@) =~= player_views(m0).insert(
            player.id,
            switched_player(*player),
        ));
    }

    /// Applies a round summary, which decides the roster: players not in it
    /// are dropped, and each of its rows is applied as `after_stats` says.
    /// Names are kept, as the summary holds none.
    pub fn update_with_roundstats(&mut self, roundstats: &RoundStats)
        ensures
            final(self)@ == players_after_stats(old(self)@, roster_map(roundstats.players@)),
    {
        let ghost old_view = self@;
        let mut next: HashMap<u16, Player> = HashMap::new();
        let n = roundstats.players.len();
        assert(player_views(next@) =~= players_after_stats(
            old_view,
            roster_map(roundstats.players@.take(0)),
        ));
        for i in 0..n
            invariant
                n == roundstats.players@.len(),
                old_view == player_views(self.players@),
                player_views(next@) == players_after_stats(
                    old_view,
                    roster_map(roundstats.players@.take(i as int)),
                ),
        {
            let e: RosterEntry = roundstats.players[i];
            let ghost before = player_views(next@);
            let ghost r = roster_map(roundstats.players@.take(i as int));
            assert(roundstats.players@.take(i + 1).drop_last() =~= roundstats.players@.take(
                i as int,
            ));
            assert(roster_map(roundstats.players@.take(i + 1)) == r.insert(e.id, e.team));
            match team_from_number(e.team) {
                Some(t) => {
                    match self.players.get(&e.id) {
                        Some(p) => {
                            let mut q = p.duplicate();
                            q.team = t;
                            next.insert(e.id, q);
                        },
                        None => {
                            next.insert(e.id, newcomer_player(t, e.id));
                        },
                    }
                },
                None => {
                    match self.players.get(&e.id) {
                        Some(p) => {
                            next.insert(e.id, p.duplicate());
                        },
                        None => {
                            next.remove(&e.id);
                        },
                    }
                },
            }
            proof {
                let a = after_stats(old_view, e.id, e.team);
                let goal = players_after_stats(old_view, r.insert(e.id, e.team));
                match a {
                    Some(v) => {
                        assert(player_views(next@) =~= before.insert(e.id, v));
                        assert(goal =~= before.insert(e.id, v));
                    },
                    None => {
                        assert(player_views(next@) =~= before.remove(e.id));
                        assert(goal =~= before.remove(e.id));
                    },
                }
            }
        }
        assert(roundstats.players@.take(n as int) =~= roundstats.players@);
        self.players = next;
    }

    /// Removes the player in slot `id`, if any.
    pub fn remove_player(&mut self, id: u16)
        ensures
            final(self)@ == old(self)@.remove(id),
    {
        let ghost m0 = self.players@;
        self.players.remove(&id);
        assert(player_views(self.players@) =~= player_views(m0).remove(id));
    }

    /// The occupied slots, each once, in the map's own order.
    pub fn slots(&self) -> (r: Vec<u16>)
        ensures
            r@.to_set() == self@.dom(),
            r@.no_duplicates(),
    {
        let mut r: Vec<u16> = Vec::new();
        for k in it: self.players.keys()
            invariant
                r@ == it.seq().take(it.index() as int).unref(),
                it.seq().unref().to_set() == self.players@.dom(),
                it.seq().unref().no_duplicates(),
                it.index() == it.seq().len() ==> r@ == it.seq().unref(),
        {
            r.push(*k);
            assert(it.seq().take(it.index() + 1).unref() =~= r@);
            assert(it.seq().take(it.seq().len() as int) =~= it.seq());
        }
        assert(self@.dom() =~= self.players@.dom());
        r
    }

    /// The players on `team`, each once, in the map's own order.
    pub fn players_on_team(&self, team: Team) -> (r: Vec<Player>)
        ensures
            exists|ks: Seq<u16>|
                #![trigger team_slots(self@, team, ks)]
                team_slots(self@, team, ks) && r@.len() == ks.len() && forall|i: int|
                    0 <= i < ks.len() ==> #[trigger] r@[i]@ == self@[ks[i]],
    {
        let slots = self.slots();
        let mut r: Vec<Player> = Vec::new();
        let ghost mut ks: Seq<u16> = Seq::empty();
        let ghost m = self@;
        for i in 0..slots.len()
            invariant
                m == self@,
                slots@.to_set() == m.dom(),
                slots@.no_duplicates(),
                ks.no_duplicates(),
                forall|k: u16| #[trigger] ks.contains(k) <==> (exists|j: int| 0 <= j < i && slots@[j] == k)
                    && m.contains_key(k) && m[k].team == team,
                r@.len() == ks.len(),
                forall|j: int| 0 <= j < ks.len() ==> #[trigger] r@[j]@ == m[ks[j]],
        {
            let k = slots[i];
            assert(slots@.to_set().contains(k));
            match self.players.get(&k) {
                Some(p) => {
                    if p.team == team {
                        proof {
                            if ks.contains(k) {
                                let j = choose|j: int| 0 <= j < i && slots@[j] == k;
                                assert(slots@[j] == slots@[i as int]);
                            }
                        }
                        r.push(p.duplicate());
                        proof {
                            let old_ks = ks;
                            ks = ks.push(k);
                            assert forall|x: u16| #[trigger] ks.contains(x) <==> (exists|j: int| 0 <= j < i + 1 && slots@[j] == x)
                                && m.contains_key(x) && m[x].team == team by {
                                if ks.contains(x) && x != k {
                                    let t = choose|t: int| 0 <= t < ks.len() && ks[t] == x;
                                    assert(old_ks[t] == x);
                                }
                                if x == k {
                                    assert(ks[ks.len() - 1] == x);
                                }
                                if (exists|j: int| 0 <= j < i + 1 && slots@[j] == x) && x != k {
                                    let j = choose|j: int| 0 <= j < i + 1 && slots@[j] == x;
                                    assert(j < i);
                                }
                                if old_ks.contains(x) {
                                    let t = choose|t: int| 0 <= t < old_ks.len() && old_ks[t] == x;
                                    assert(ks[t] == x);
                                }
                            }
                        }
                    } else {
                        proof {
                            assert forall|x: u16| #[trigger] ks.contains(x) <==> (exists|j: int| 0 <= j < i + 1 && slots@[j] == x)
                                && m.contains_key(x) && m[x].team == team by {
                                if (exists|j: int| 0 <= j < i + 1 && slots@[j] == x) && x != k {
                                    let j = choose|j: int| 0 <= j < i + 1 && slots@[j] == x;
                                    assert(j < i);
                                }
                            }
                        }
                    }
                },
                None => {},
            }
        }
        proof {
            assert forall|x: u16| #[trigger] ks.contains(x) <==> (m.contains_key(x) && m[x].team == team) by {
                if m.contains_key(x) {
                    assert(slots@.to_set().contains(x));
                    let j = choose|j: int| 0 <= j < slots@.len() && slots@[j] == x;
                }
            }
            assert(team_slots(m, team, ks));
        }
        r
    }

    /// The players, by slot.
    pub fn players(&self) -> (r: &HashMap<u16, Player>)
        ensures
            player_views(r@) == self@,
    {
        &self.players
    }
}

/// A round summary decides the roster: afterwards only its slots are
/// occupied, each slot it puts on a team holds a player of that team, a
/// player already known keeps name and Steam ID, and a player it brings in
/// carries its slot as ID.
pub proof fn law_roundstats_decides_roster(old: Map<u16, PlayerView>, roster: Map<u16, i32>)
    ensures
        forall|k: u16| #[trigger] players_after_stats(old, roster).contains_key(k) ==> roster.contains_key(k),
        forall|k: u16| #[trigger] roster.contains_key(k) && team_of_number(roster[k]) is Some ==> players_after_stats(old, roster).contains_key(k)
            && Some(players_after_stats(old, roster)[k].team) == team_of_number(roster[k]),
        forall|k: u16| #[trigger] players_after_stats(old, roster).contains_key(k) && old.contains_key(k) ==> players_after_stats(
            old,
            roster,
        )[k].name == old[k].name && players_after_stats(old, roster)[k].steamid == old[k].steamid,
        forall|k: u16| #[trigger] players_after_stats(old, roster).contains_key(k) && !old.contains_key(k) ==> players_after_stats(
            old,
            roster,
        )[k].id == k,
{
}

} // verus!
