//! `AddBlockCache`: the working set of one block, and what the block update
//! makes of it, stated as functions of the cache as it was loaded.

use crate::number::{normalised, parts, PreciseNumber, PRECISION};
use crate::sums::{sum, sum_from};
use crate::table::{holds, index_of, Table};
use crate::types::{
    Advance, AdvanceBlockData, AdvanceState, Algorithm, AlgorithmBlockData, AlgorithmState,
    BlockDetails, OPoWBlockData, Player, ProtocolConfig, VotesTally,
};
use vstd::prelude::*;

verus! {

/// The state that one block update reads and writes. Tables are walked in
/// their own order, which is part of the state.
#[derive(Clone, Debug, PartialEq, Eq)]
pub struct AddBlockCache {
    pub config: ProtocolConfig,
    pub block_details: BlockDetails,
    /// The challenges whose algorithms compete for adoption in this block.
    pub active_challenge_ids: Vec<String>,
    pub active_algorithms: Table<Algorithm>,
    pub active_advances: Table<Advance>,
    /// The advances whose vote is open.
    pub voting_advances: Table<AdvanceState>,
    pub active_players: Table<Player>,
    /// Proof-of-work data, by player.
    pub active_opow: Table<OPoWBlockData>,
}

/// Merge points after one more is earned: they stop at the largest value.
pub open spec fn bumped(points: u32) -> u32 {
    if points < u32::MAX {
        (points + 1) as u32
    } else {
        points
    }
}

impl AddBlockCache {
    /// The cache of a block in which nothing is active.
    pub fn new(config: ProtocolConfig, block_details: BlockDetails) -> (r: Self)
        ensures
            r.wf(),
            r.config == config,
            r.block_details == block_details,
            r.active_challenge_ids@.len() == 0,
            r.active_algorithms.count() == 0,
            r.active_advances.count() == 0,
            r.voting_advances.count() == 0,
            r.active_players.count() == 0,
            r.active_opow.count() == 0,
    {
        AddBlockCache {
            config,
            block_details,
            active_challenge_ids: Vec::new(),
            active_algorithms: Table::new(),
            active_advances: Table::new(),
            voting_advances: Table::new(),
            active_players: Table::new(),
            active_opow: Table::new(),
        }
    }

    /// Every table of the cache is well formed.
    pub open spec fn wf(&self) -> bool {
        &&& self.active_algorithms.wf()
        &&& self.active_advances.wf()
        &&& self.voting_advances.wf()
        &&& self.active_players.wf()
        &&& self.active_opow.wf()
        &&& forall|i: int|
            0 <= i < self.active_algorithms.count() ==> (
            #[trigger] self.active_algorithms.rows@[i]).block_data.num_qualifiers_by_player.wf()
        &&& forall|p: int|
            0 <= p < self.active_players.count() ==> (
            #[trigger] self.active_players.rows@[p]).state.votes.wf()
        &&& forall|o: int|
            0 <= o < self.active_opow.count() ==> (
            #[trigger] self.active_opow.rows@[o]).num_qualifiers_by_challenge.wf()
    }

    /// The identifier of the challenge of algorithm `i`.
    pub open spec fn challenge_of(&self, i: int) -> Seq<char> {
        self.active_algorithms.rows@[i].details.challenge_id@
    }

    /// Whether the challenge of algorithm `i` is among the active ones.
    pub open spec fn challenge_active(&self, i: int) -> bool {
        holds(self.active_challenge_ids@, self.challenge_of(i))
    }

    /// The place in the proof-of-work table of the player of entry `k` of the
    /// qualifiers of algorithm `i`.
    pub open spec fn qualifier_player(&self, i: int, k: int) -> int {
        index_of(
            self.active_opow.ids@,
            self.active_algorithms.rows@[i].block_data.num_qualifiers_by_player.ids@[k]@,
        )
    }

    /// All that the player of entry `k` of the qualifiers of algorithm `i`
    /// qualified with on that algorithm's challenge.
    pub open spec fn qualifier_total(&self, i: int, k: int) -> u32 {
        let by_challenge = self.active_opow.rows@[self.qualifier_player(i, k)].num_qualifiers_by_challenge;
        by_challenge.rows@[index_of(by_challenge.ids@, self.challenge_of(i))]
    }

    /// Whether entry `k` of the qualifiers of algorithm `i` names a player
    /// with proof-of-work data and a positive count on the challenge.
    pub open spec fn share_defined(&self, i: int, k: int) -> bool {
        let qualifiers = self.active_algorithms.rows@[i].block_data.num_qualifiers_by_player;
        &&& holds(self.active_opow.ids@, qualifiers.ids@[k]@)
        &&& holds(
            self.active_opow.rows@[self.qualifier_player(i, k)].num_qualifiers_by_challenge.ids@,
            self.challenge_of(i),
        )
        &&& self.qualifier_total(i, k) > 0
    }

    /// The cache is well formed, a round has blocks, the block has a
    /// successor and, where it ends its round, the round has one too, every
    /// open vote is decided in this round or later, and every qualifier of an
    /// algorithm on an active challenge leads to the player's proof-of-work
    /// data.
    pub open spec fn consistent(&self) -> bool {
        &&& self.wf()
        &&& self.config.rounds.blocks_per_round > 0
        &&& self.block_details.height < u32::MAX
        &&& self.round_ends() ==> self.block_details.round < u32::MAX
        &&& forall|a: int|
            0 <= a < self.voting_advances.count() ==> (
            #[trigger] self.voting_advances.rows@[a]).round_votes_tallied >= self.block_details.round
        &&& forall|i: int, k: int|
            0 <= i < self.active_algorithms.count() && self.challenge_active(i) && 0 <= k
                < self.active_algorithms.rows@[i].block_data.num_qualifiers_by_player.count()
                ==> #[trigger] self.share_defined(i, k)
    }

    // ----- votes -----

    /// The rounds left until the vote on voting advance `a` is decided.
    pub open spec fn rounds_to_tally(&self, a: int) -> int {
        self.voting_advances.rows@[a].round_votes_tallied - self.block_details.round
    }

    /// What player `p` adds to side `side` of the vote on voting advance `a`:
    /// the deposits that stay locked until the vote is decided, if the player
    /// voted that way, else nothing.
    pub open spec fn vote_weight(&self, p: int, a: int, side: bool) -> nat {
        let player = self.active_players.rows@[p];
        let advance_id = self.voting_advances.ids@[a]@;
        if holds(player.state.votes.ids@, advance_id) && player.state.votes.rows@[index_of(
            player.state.votes.ids@,
            advance_id,
        )] == side {
            sum_from(parts(player.block_data.deposit_by_locked_period@), self.rounds_to_tally(a))
        } else {
            0
        }
    }

    /// What each player adds to side `side` of the vote on voting advance `a`.
    pub open spec fn vote_weights(&self, a: int, side: bool) -> Seq<nat> {
        Seq::new(self.active_players.ids@.len(), |p: int| self.vote_weight(p, a, side))
    }

    /// The weighted votes on side `side` of voting advance `a`.
    pub open spec fn tally(&self, a: int, side: bool) -> nat {
        sum(self.vote_weights(a, side))
    }

    /// Every vote's two sides together fit in a number.
    pub open spec fn votes_in_range(&self) -> bool {
        forall|a: int|
            0 <= a < self.voting_advances.count() ==> #[trigger] self.tally(a, true) + self.tally(
                a,
                false,
            ) <= u128::MAX
    }

    /// Whether the vote on voting advance `a` passes: some vote was cast, and
    /// the share of yes votes reaches the configured minimum.
    pub open spec fn vote_passes(&self, a: int) -> bool {
        let yes = self.tally(a, true);
        let total = yes + self.tally(a, false);
        total != 0 && (yes * (PRECISION as nat)) / total >= self.config.advances.min_percent_yes_votes@
    }

    // ----- adoption -----

    /// The influence that entry `k` of the qualifiers of algorithm `i` brings
    /// to it: the player's influence, in proportion to the qualifiers found
    /// with this algorithm among all that the player found on the challenge.
    pub open spec fn share(&self, i: int, k: int) -> nat {
        let count = self.active_algorithms.rows@[i].block_data.num_qualifiers_by_player.rows@[k];
        let influence = self.active_opow.rows@[self.qualifier_player(i, k)].influence;
        (influence@ * (count as nat)) / (self.qualifier_total(i, k) as nat)
    }

    /// The shares of all entries of the qualifiers of algorithm `i`.
    pub open spec fn algorithm_shares(&self, i: int) -> Seq<nat> {
        Seq::new(
            self.active_algorithms.rows@[i].block_data.num_qualifiers_by_player.ids@.len(),
            |k: int| self.share(i, k),
        )
    }

    /// The weight of algorithm `i` before normalising.
    pub open spec fn weight(&self, i: int) -> nat {
        sum(self.algorithm_shares(i))
    }

    /// The weights of the algorithms of `challenge`, each at its algorithm's
    /// place, with zero at the places of other algorithms.
    pub open spec fn challenge_weights(&self, challenge: Seq<char>) -> Seq<nat> {
        Seq::new(
            self.active_algorithms.ids@.len(),
            |j: int|
                if self.challenge_of(j) == challenge {
                    self.weight(j)
                } else {
                    0
                },
        )
    }

    /// The weights of every active challenge together fit in a number.
    pub open spec fn weights_in_range(&self) -> bool {
        forall|c: int|
            0 <= c < self.active_challenge_ids@.len() ==> sum(
                self.challenge_weights(#[trigger] self.active_challenge_ids@[c]@),
            ) <= u128::MAX
    }

    /// The adoption of algorithm `i` after the update: its share of its
    /// challenge's weights where the challenge is active, else what it was.
    pub open spec fn new_adoption(&self, i: int) -> nat {
        if self.challenge_active(i) {
            normalised(self.challenge_weights(self.challenge_of(i)))[i]
        } else {
            self.active_algorithms.rows@[i].block_data.adoption@
        }
    }

    /// Whether algorithm `j` adds its adoption to advance `v`: its challenge
    /// is active and it builds on that advance.
    pub open spec fn builds_on(&self, j: int, v: int) -> bool {
        &&& self.challenge_active(j)
        &&& self.active_algorithms.rows@[j].details.advance_id matches Some(id)
        &&& id@ == self.active_advances.ids@[v]@
    }

    /// What each algorithm adds to the adoption of advance `v`.
    pub open spec fn gains(&self, v: int) -> Seq<nat> {
        Seq::new(
            self.active_algorithms.ids@.len(),
            |j: int|
                if self.builds_on(j, v) {
                    self.new_adoption(j)
                } else {
                    0
                },
        )
    }

    /// The adoption of advance `v` after the update: what it was, and the new
    /// adoption of every algorithm that builds on it.
    pub open spec fn new_advance_adoption(&self, v: int) -> nat {
        self.active_advances.rows@[v].block_data.adoption@ + sum(self.gains(v))
    }

    /// The adoption of every advance fits in a number.
    pub open spec fn advances_in_range(&self) -> bool {
        forall|v: int|
            0 <= v < self.active_advances.count() ==> #[trigger] self.new_advance_adoption(v)
                <= u128::MAX
    }

    /// All quantities of the update fit in a number.
    pub open spec fn in_range(&self) -> bool {
        &&& self.votes_in_range()
        &&& self.weights_in_range()
        &&& self.advances_in_range()
    }

    // ----- merge points and promotion -----

    /// Whether the block is the last of its round.
    pub open spec fn round_ends(&self) -> bool {
        (self.block_details.height + 1) % (self.config.rounds.blocks_per_round as int) == 0
    }

    /// The round that follows the block's round.
    pub open spec fn next_round(&self) -> u32 {
        (self.block_details.round + 1) as u32
    }

    /// The merge points of algorithm `i` after the update: one more, where
    /// it is not merged and its new adoption reaches the threshold.
    pub open spec fn new_algorithm_points(&self, i: int) -> u32 {
        let algorithm = self.active_algorithms.rows@[i];
        if algorithm.state.round_merged is None && self.new_adoption(i)
            >= self.config.algorithms.adoption_threshold@ {
            bumped(algorithm.block_data.merge_points)
        } else {
            algorithm.block_data.merge_points
        }
    }

    /// The merge points of advance `v` after the update.
    pub open spec fn new_advance_points(&self, v: int) -> u32 {
        let advance = self.active_advances.rows@[v];
        if advance.state.round_merged is None && self.new_advance_adoption(v)
            >= self.config.advances.adoption_threshold@ {
            bumped(advance.block_data.merge_points)
        } else {
            advance.block_data.merge_points
        }
    }

    /// Whether algorithm `i` leads its challenge: no algorithm of the same
    /// challenge has more merge points after the update, and none that comes
    /// before it in the table has as many.
    pub open spec fn leads(&self, i: int) -> bool {
        forall|j: int|
            0 <= j < self.active_algorithms.count() && #[trigger] self.challenge_of(j)
                == self.challenge_of(i) ==> {
                &&& j < i ==> self.new_algorithm_points(j) < self.new_algorithm_points(i)
                &&& j > i ==> self.new_algorithm_points(j) <= self.new_algorithm_points(i)
            }
    }

    /// The round of merging of algorithm `i` after the update: the next
    /// round, where the round ends, the algorithm is not merged, leads its
    /// challenge and has the merge points; else what it was.
    pub open spec fn new_algorithm_round_merged(&self, i: int) -> Option<u32> {
        let algorithm = self.active_algorithms.rows@[i];
        if self.round_ends() && algorithm.state.round_merged is None && self.leads(i)
            && self.new_algorithm_points(i) >= self.config.algorithms.merge_points_threshold {
            Some(self.next_round())
        } else {
            algorithm.state.round_merged
        }
    }

    /// The round of merging of advance `v` after the update: the next round,
    /// where the round ends, the advance is not merged and has the merge
    /// points; else what it was.
    pub open spec fn new_advance_round_merged(&self, v: int) -> Option<u32> {
        let advance = self.active_advances.rows@[v];
        if self.round_ends() && advance.state.round_merged is None && self.new_advance_points(v)
            >= self.config.advances.merge_points_threshold {
            Some(self.next_round())
        } else {
            advance.state.round_merged
        }
    }

    /// The round of activation of voting advance `a` after the update: the
    /// next round, where the round ends, the vote is decided in the next
    /// round and passes; else what it was.
    pub open spec fn new_round_active(&self, a: int) -> Option<u32> {
        let state = self.voting_advances.rows@[a];
        if self.round_ends() && state.round_votes_tallied == self.block_details.round + 1
            && self.vote_passes(a) {
            Some(self.next_round())
        } else {
            state.round_active
        }
    }

    // ----- the updated records -----

    /// Algorithm `i` after the update.
    pub open spec fn updated_algorithm(&self, i: int) -> Algorithm {
        let algorithm = self.active_algorithms.rows@[i];
        Algorithm {
            details: algorithm.details,
            state: AlgorithmState { round_merged: self.new_algorithm_round_merged(i) },
            block_data: AlgorithmBlockData {
                adoption: PreciseNumber { raw: self.new_adoption(i) as u128 },
                merge_points: self.new_algorithm_points(i),
                num_qualifiers_by_player: algorithm.block_data.num_qualifiers_by_player,
            },
        }
    }

    /// Advance `v` after the update.
    pub open spec fn updated_advance(&self, v: int) -> Advance {
        let advance = self.active_advances.rows@[v];
        Advance {
            state: AdvanceState {
                round_active: advance.state.round_active,
                round_merged: self.new_advance_round_merged(v),
                round_votes_tallied: advance.state.round_votes_tallied,
                votes_tally: advance.state.votes_tally,
            },
            block_data: AdvanceBlockData {
                adoption: PreciseNumber { raw: self.new_advance_adoption(v) as u128 },
                merge_points: self.new_advance_points(v),
            },
        }
    }

    /// Voting advance `a` after the update.
    pub open spec fn updated_voting_advance(&self, a: int) -> AdvanceState {
        let state = self.voting_advances.rows@[a];
        AdvanceState {
            round_active: self.new_round_active(a),
            round_merged: state.round_merged,
            round_votes_tallied: state.round_votes_tallied,
            votes_tally: VotesTally {
                yes: PreciseNumber { raw: self.tally(a, true) as u128 },
                no: PreciseNumber { raw: self.tally(a, false) as u128 },
            },
        }
    }

    /// Whether `self` is what the block update makes of `before`: the same
    /// configuration, block, challenges, players and proof-of-work data, the
    /// same identifiers in the same order, and every advance and algorithm
    /// updated.
    pub open spec fn is_update_of(&self, before: &AddBlockCache) -> bool {
        &&& self.config == before.config
        &&& self.block_details == before.block_details
        &&& self.active_challenge_ids == before.active_challenge_ids
        &&& self.active_players == before.active_players
        &&& self.active_opow == before.active_opow
        &&& self.active_algorithms.ids == before.active_algorithms.ids
        &&& self.active_advances.ids == before.active_advances.ids
        &&& self.voting_advances.ids == before.voting_advances.ids
        &&& self.active_algorithms.rows@.len() == before.active_algorithms.rows@.len()
        &&& self.active_advances.rows@.len() == before.active_advances.rows@.len()
        &&& self.voting_advances.rows@.len() == before.voting_advances.rows@.len()
        &&& forall|i: int|
            0 <= i < before.active_algorithms.rows@.len() ==> #[trigger] self.active_algorithms.rows@[i]
                == before.updated_algorithm(i)
        &&& forall|v: int|
            0 <= v < before.active_advances.rows@.len() ==> #[trigger] self.active_advances.rows@[v]
                == before.updated_advance(v)
        &&& forall|a: int|
            0 <= a < before.voting_advances.rows@.len() ==> #[trigger] self.voting_advances.rows@[a]
                == before.updated_voting_advance(a)
    }
}

} // verus!
