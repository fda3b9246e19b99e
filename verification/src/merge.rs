//! Merge points and the decisions of a round's last block: which algorithms
//! and advances are merged, and which advances become active.

use crate::cache::{bumped, AddBlockCache};
use crate::number::{PreciseNumber, PRECISION};
use crate::types::VotesTally;
use crate::wide::scale;
use vstd::prelude::*;

verus! {

/// Merge points after one more is earned: they stop at the largest value.
pub fn bump(points: u32) -> (r: u32)
    ensures
        r == bumped(points),
{
    if points < u32::MAX {
        points + 1
    } else {
        points
    }
}

impl AddBlockCache {
    /// Whether the block is the last of its round.
    pub fn is_round_end(&self) -> (r: bool)
        requires
            self.config.rounds.blocks_per_round > 0,
            self.block_details.height < u32::MAX,
        ensures
            r == self.round_ends(),
    {
        (self.block_details.height + 1) % self.config.rounds.blocks_per_round == 0
    }

    /// The merge points of every algorithm after the update, in table order.
    pub fn algorithm_points(&self, adoptions: &Vec<PreciseNumber>) -> (r: Vec<u32>)
        requires
            adoptions@.len() == self.active_algorithms.rows@.len(),
            self.active_algorithms.wf(),
            forall|j: int|
                0 <= j < adoptions@.len() ==> (#[trigger] adoptions@[j])@ == self.new_adoption(j),
        ensures
            r@.len() == self.active_algorithms.count(),
            forall|i: int| 0 <= i < r@.len() ==> #[trigger] r@[i] == self.new_algorithm_points(i),
    {
        let algorithms = self.active_algorithms.rows.len();
        let mut points: Vec<u32> = Vec::new();
        let mut i: usize = 0;
        while i < algorithms
            invariant
                algorithms == self.active_algorithms.rows@.len(),
                self.active_algorithms.wf(),
                adoptions@.len() == algorithms,
                forall|j: int|
                    0 <= j < adoptions@.len() ==> (#[trigger] adoptions@[j])@ == self.new_adoption(j),
                i <= algorithms,
                points@.len() == i,
                forall|j: int| 0 <= j < i ==> #[trigger] points@[j] == self.new_algorithm_points(j),
            decreases algorithms - i,
        {
            let algorithm = &self.active_algorithms.rows[i];
            if algorithm.state.round_merged.is_none() && adoptions[i].ge(
                &self.config.algorithms.adoption_threshold,
            ) {
                points.push(bump(algorithm.block_data.merge_points));
            } else {
                points.push(algorithm.block_data.merge_points);
            }
            i = i + 1;
        }
        points
    }

    /// The merge points of every advance after the update, in table order.
    pub fn advance_points(&self, adoptions: &Vec<PreciseNumber>) -> (r: Vec<u32>)
        requires
            adoptions@.len() == self.active_advances.rows@.len(),
            self.active_advances.wf(),
            forall|v: int|
                0 <= v < adoptions@.len() ==> (#[trigger] adoptions@[v])@ == self.new_advance_adoption(
                    v,
                ),
        ensures
            r@.len() == self.active_advances.count(),
            forall|v: int| 0 <= v < r@.len() ==> #[trigger] r@[v] == self.new_advance_points(v),
    {
        let advances = self.active_advances.rows.len();
        let mut points: Vec<u32> = Vec::new();
        let mut v: usize = 0;
        while v < advances
            invariant
                advances == self.active_advances.rows@.len(),
                self.active_advances.wf(),
                adoptions@.len() == advances,
                forall|u: int|
                    0 <= u < adoptions@.len() ==> (#[trigger] adoptions@[u])@
                        == self.new_advance_adoption(u),
                v <= advances,
                points@.len() == v,
                forall|u: int| 0 <= u < v ==> #[trigger] points@[u] == self.new_advance_points(u),
            decreases advances - v,
        {
            let advance = &self.active_advances.rows[v];
            if advance.state.round_merged.is_none() && adoptions[v].ge(
                &self.config.advances.adoption_threshold,
            ) {
                points.push(bump(advance.block_data.merge_points));
            } else {
                points.push(advance.block_data.merge_points);
            }
            v = v + 1;
        }
        points
    }

    /// Whether algorithm `i` leads its challenge.
    pub fn is_leader(&self, points: &Vec<u32>, i: usize) -> (r: bool)
        requires
            self.active_algorithms.wf(),
            i < self.active_algorithms.count(),
            points@.len() == self.active_algorithms.count(),
            forall|j: int| 0 <= j < points@.len() ==> #[trigger] points@[j] == self.new_algorithm_points(j),
        ensures
            r == self.leads(i as int),
    {
        let algorithms = self.active_algorithms.rows.len();
        let mut j: usize = 0;
        while j < algorithms
            invariant
                self.active_algorithms.wf(),
                algorithms == self.active_algorithms.count(),
                i < algorithms,
                points@.len() == algorithms,
                forall|l: int|
                    0 <= l < points@.len() ==> #[trigger] points@[l] == self.new_algorithm_points(l),
                j <= algorithms,
                forall|l: int|
                    0 <= l < j && #[trigger] self.challenge_of(l) == self.challenge_of(i as int) ==> {
                        &&& l < i ==> self.new_algorithm_points(l) < self.new_algorithm_points(i as int)
                        &&& l > i ==> self.new_algorithm_points(l) <= self.new_algorithm_points(
                            i as int,
                        )
                    },
            decreases algorithms - j,
        {
            if self.active_algorithms.rows[j].details.challenge_id
                == self.active_algorithms.rows[i].details.challenge_id {
                if (j < i && points[j] >= points[i]) || (j > i && points[j] > points[i]) {
                    assert(self.challenge_of(j as int) == self.challenge_of(i as int));
                    return false;
                }
            }
            j = j + 1;
        }
        true
    }

    /// The round of merging of every algorithm after the update, in table
    /// order.
    pub fn algorithm_merges(&self, points: &Vec<u32>) -> (r: Vec<Option<u32>>)
        requires
            self.consistent(),
            points@.len() == self.active_algorithms.count(),
            forall|j: int| 0 <= j < points@.len() ==> #[trigger] points@[j] == self.new_algorithm_points(j),
        ensures
            r@.len() == self.active_algorithms.count(),
            forall|i: int| 0 <= i < r@.len() ==> #[trigger] r@[i] == self.new_algorithm_round_merged(i),
    {
        let algorithms = self.active_algorithms.rows.len();
        let round_ends = self.is_round_end();
        let mut merges: Vec<Option<u32>> = Vec::new();
        let mut i: usize = 0;
        while i < algorithms
            invariant
                self.consistent(),
                algorithms == self.active_algorithms.count(),
                round_ends == self.round_ends(),
                points@.len() == algorithms,
                forall|j: int|
                    0 <= j < points@.len() ==> #[trigger] points@[j] == self.new_algorithm_points(j),
                i <= algorithms,
                merges@.len() == i,
                forall|j: int|
                    0 <= j < i ==> #[trigger] merges@[j] == self.new_algorithm_round_merged(j),
            decreases algorithms - i,
        {
            let state = &self.active_algorithms.rows[i].state;
            if round_ends && state.round_merged.is_none() && points[i]
                >= self.config.algorithms.merge_points_threshold && self.is_leader(points, i) {
                merges.push(Some(self.block_details.round + 1));
            } else {
                merges.push(state.round_merged);
            }
            i = i + 1;
        }
        merges
    }

    /// The round of merging of every advance after the update, in table
    /// order.
    pub fn advance_merges(&self, points: &Vec<u32>) -> (r: Vec<Option<u32>>)
        requires
            self.consistent(),
            points@.len() == self.active_advances.count(),
            forall|v: int| 0 <= v < points@.len() ==> #[trigger] points@[v] == self.new_advance_points(v),
        ensures
            r@.len() == self.active_advances.count(),
            forall|v: int| 0 <= v < r@.len() ==> #[trigger] r@[v] == self.new_advance_round_merged(v),
    {
        let advances = self.active_advances.rows.len();
        let round_ends = self.is_round_end();
        let mut merges: Vec<Option<u32>> = Vec::new();
        let mut v: usize = 0;
        while v < advances
            invariant
                self.consistent(),
                advances == self.active_advances.count(),
                round_ends == self.round_ends(),
                points@.len() == advances,
                forall|u: int|
                    0 <= u < points@.len() ==> #[trigger] points@[u] == self.new_advance_points(u),
                v <= advances,
                merges@.len() == v,
                forall|u: int| 0 <= u < v ==> #[trigger] merges@[u] == self.new_advance_round_merged(u),
            decreases advances - v,
        {
            let state = &self.active_advances.rows[v].state;
            if round_ends && state.round_merged.is_none() && points[v]
                >= self.config.advances.merge_points_threshold {
                merges.push(Some(self.block_details.round + 1));
            } else {
                merges.push(state.round_merged);
            }
            v = v + 1;
        }
        merges
    }

    /// Whether a vote with this tally passes: some vote was cast, and the
    /// share of yes votes reaches the configured minimum.
    pub fn passes(&self, tally: &VotesTally) -> (r: bool)
        requires
            tally.yes@ + tally.no@ <= u128::MAX,
        ensures
            r == {
                let total = tally.yes@ + tally.no@;
                total != 0 && (tally.yes@ * (PRECISION as nat)) / total
                    >= self.config.advances.min_percent_yes_votes@
            },
    {
        let total: u128 = tally.yes.raw + tally.no.raw;
        if total == 0 {
            return false;
        }
        scale(tally.yes.raw, PRECISION, total) >= self.config.advances.min_percent_yes_votes.raw
    }

    /// The round of activation of every voting advance after the update, in
    /// table order.
    pub fn activations(&self, tallies: &Vec<VotesTally>) -> (r: Vec<Option<u32>>)
        requires
            self.consistent(),
            self.votes_in_range(),
            tallies@.len() == self.voting_advances.count(),
            forall|a: int|
                0 <= a < tallies@.len() ==> (#[trigger] tallies@[a]).yes@ == self.tally(a, true)
                    && tallies@[a].no@ == self.tally(a, false),
        ensures
            r@.len() == self.voting_advances.count(),
            forall|a: int| 0 <= a < r@.len() ==> #[trigger] r@[a] == self.new_round_active(a),
    {
        let advances = self.voting_advances.rows.len();
        let round_ends = self.is_round_end();
        let mut rounds: Vec<Option<u32>> = Vec::new();
        let mut a: usize = 0;
        while a < advances
            invariant
                self.consistent(),
                self.votes_in_range(),
                advances == self.voting_advances.count(),
                round_ends == self.round_ends(),
                tallies@.len() == advances,
                forall|b: int|
                    0 <= b < tallies@.len() ==> (#[trigger] tallies@[b]).yes@ == self.tally(b, true)
                        && tallies@[b].no@ == self.tally(b, false),
                a <= advances,
                rounds@.len() == a,
                forall|b: int| 0 <= b < a ==> #[trigger] rounds@[b] == self.new_round_active(b),
            decreases advances - a,
        {
            let state = &self.voting_advances.rows[a];
            assert(self.tally(a as int, true) + self.tally(a as int, false) <= u128::MAX);
            if round_ends && state.round_votes_tallied == self.block_details.round + 1 && self.passes(
                &tallies[a],
            ) {
                rounds.push(Some(self.block_details.round + 1));
            } else {
                rounds.push(state.round_active);
            }
            a = a + 1;
        }
        rounds
    }
}

} // verus!
