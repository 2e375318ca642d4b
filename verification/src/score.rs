//! The match score shown for an RCON session.
use vstd::prelude::*;
use crate::events::RoundStats;

verus! {

/// Rounds won by each side, and the current round.
#[derive(Debug, Clone, Copy, PartialEq, Eq, Structural)]
pub struct TeamScore {
    pub ct: u8,
    pub t: u8,
    pub round: i32,
}

/// A score of at most `u8::MAX`, saturating.
pub open spec fn capped_score(s: u16) -> u8 {
    if s > 255 {
        255u8
    } else {
        s as u8
    }
}

impl Default for TeamScore {
    /// No rounds won, first round.
    fn default() -> (r: TeamScore)
        ensures
            r == (TeamScore { ct: 0, t: 0, round: 1 }),
    {
        TeamScore { ct: 0, t: 0, round: 1 }
    }
}

fn cap_score(s: u16) -> (r: u8)
    ensures
        r == capped_score(s),
{
    if s > 255 {
        255
    } else {
        s as u8
    }
}

impl TeamScore {
    /// A score update sets the current round; it is authoritative for it.
    pub fn update_with_score_update(&mut self, rounds: i32)
        ensures
            *final(self) == (TeamScore { round: rounds, ..*old(self) }),
    {
        self.round = rounds;
    }

    /// A round summary sets the rounds won by each side, capped at
    /// `u8::MAX`; the current round stays.
    pub fn update_with_roundstats(&mut self, roundstats: &RoundStats)
        ensures
            *final(self) == (TeamScore {
                ct: capped_score(roundstats.score_ct),
                t: capped_score(roundstats.score_t),
                round: old(self).round,
            }),
    {
        self.ct = cap_score(roundstats.score_ct);
        self.t = cap_score(roundstats.score_t);
    }
}

} // verus!
