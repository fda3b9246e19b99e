//! The vote tally: for every advance whose vote is open, the deposits of the
//! players who voted on it, by side, counted afresh in every block.

use crate::cache::AddBlockCache;
use crate::number::{sum_from_index, PreciseNumber};
use crate::sums::{lemma_sum_empty, lemma_sum_extend, lemma_sum_monotone, lemma_sum_whole, sum};
use crate::types::VotesTally;
use vstd::prelude::*;

verus! {

impl AddBlockCache {
    /// What player `p` adds to side `side` of the vote on voting advance `a`,
    /// or `None` where the player's locked deposits do not fit in a number.
    pub fn player_vote_weight(&self, p: usize, a: usize, side: bool) -> (r: Option<PreciseNumber>)
        requires
            self.consistent(),
            p < self.active_players.count(),
            a < self.voting_advances.count(),
        ensures
            match r {
                Some(w) => w@ == self.vote_weight(p as int, a as int, side),
                None => self.vote_weight(p as int, a as int, side) > u128::MAX,
            },
    {
        let player = &self.active_players.rows[p];
        match player.state.votes.position(&self.voting_advances.ids[a]) {
            Some(k) => {
                if player.state.votes.rows[k] == side {
                    let rounds_left: u32 = self.voting_advances.rows[a].round_votes_tallied
                        - self.block_details.round;
                    sum_from_index(&player.block_data.deposit_by_locked_period, rounds_left as usize)
                } else {
                    Some(PreciseNumber::zero())
                }
            },
            None => Some(PreciseNumber::zero()),
        }
    }

    /// The weighted votes on side `side` of voting advance `a`, or `None`
    /// where they do not fit in a number.
    pub fn tally_side(&self, a: usize, side: bool) -> (r: Option<PreciseNumber>)
        requires
            self.consistent(),
            a < self.voting_advances.count(),
        ensures
            match r {
                Some(t) => t@ == self.tally(a as int, side),
                None => self.tally(a as int, side) > u128::MAX,
            },
    {
        let ghost weights = self.vote_weights(a as int, side);
        let players = self.active_players.rows.len();
        let mut acc = PreciseNumber::zero();
        let mut p: usize = 0;
        proof {
            lemma_sum_empty(weights, 0);
            lemma_sum_whole(weights);
        }
        while p < players
            invariant
                self.consistent(),
                a < self.voting_advances.count(),
                players == self.active_players.count(),
                weights == self.vote_weights(a as int, side),
                p <= players,
                acc@ == sum(weights.subrange(0, p as int)),
                sum(weights.subrange(0, players as int)) == sum(weights),
            decreases players - p,
        {
            proof {
                lemma_sum_extend(weights, 0, p as int);
                lemma_sum_monotone(weights, 0, p + 1, players as int);
            }
            let weight = match self.player_vote_weight(p, a, side) {
                Some(w) => w,
                None => {
                    return None;
                },
            };
            acc = match acc.checked_add(weight) {
                Some(next) => next,
                None => {
                    return None;
                },
            };
            p = p + 1;
        }
        Some(acc)
    }

    /// The tally of every open vote, in table order, or `None` where the two
    /// sides of some vote together do not fit in a number.
    pub fn vote_tallies(&self) -> (r: Option<Vec<VotesTally>>)
        requires
            self.consistent(),
        ensures
            match r {
                Some(tallies) => {
                    &&& self.votes_in_range()
                    &&& tallies@.len() == self.voting_advances.count()
                    &&& forall|a: int|
                        0 <= a < tallies@.len() ==> (#[trigger] tallies@[a]).yes@ == self.tally(a, true)
                            && tallies@[a].no@ == self.tally(a, false)
                },
                None => !self.votes_in_range(),
            },
    {
        let advances = self.voting_advances.rows.len();
        let mut tallies: Vec<VotesTally> = Vec::new();
        let mut a: usize = 0;
        while a < advances
            invariant
                self.consistent(),
                advances == self.voting_advances.count(),
                a <= advances,
                tallies@.len() == a,
                forall|b: int|
                    0 <= b < a ==> #[trigger] self.tally(b, true) + self.tally(b, false) <= u128::MAX,
                forall|b: int|
                    0 <= b < a ==> (#[trigger] tallies@[b]).yes@ == self.tally(b, true) && tallies@[b].no@
                        == self.tally(b, false),
            decreases advances - a,
        {
            let yes = match self.tally_side(a, true) {
                Some(t) => t,
                None => {
                    assert(self.tally(a as int, true) + self.tally(a as int, false) > u128::MAX);
                    return None;
                },
            };
            let no = match self.tally_side(a, false) {
                Some(t) => t,
                None => {
                    assert(self.tally(a as int, true) + self.tally(a as int, false) > u128::MAX);
                    return None;
                },
            };
            if yes.checked_add(no).is_none() {
                assert(self.tally(a as int, true) + self.tally(a as int, false) > u128::MAX);
                return None;
            }
            tallies.push(VotesTally { yes, no });
            a = a + 1;
        }
        Some(tallies)
    }
}

} // verus!
