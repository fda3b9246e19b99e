//! Checks that a cache is fit for the block update.

use crate::cache::AddBlockCache;
use crate::table::find;
use vstd::prelude::*;

verus! {

impl AddBlockCache {
    /// Whether algorithm `i` is on an active challenge.
    pub fn is_challenge_active(&self, i: usize) -> (r: bool)
        requires
            i < self.active_algorithms.rows@.len(),
        ensures
            r == self.challenge_active(i as int),
    {
        find(&self.active_challenge_ids, &self.active_algorithms.rows[i].details.challenge_id).is_some()
    }

    /// Whether every table of the cache is well formed.
    pub fn is_well_formed(&self) -> (r: bool)
        ensures
            r == self.wf(),
    {
        if !(self.active_algorithms.is_well_formed() && self.active_advances.is_well_formed()
            && self.voting_advances.is_well_formed() && self.active_players.is_well_formed()
            && self.active_opow.is_well_formed()) {
            return false;
        }
        let mut i: usize = 0;
        while i < self.active_algorithms.rows.len()
            invariant
                i <= self.active_algorithms.rows@.len(),
                forall|j: int|
                    0 <= j < i ==> (
                    #[trigger] self.active_algorithms.rows@[j]).block_data.num_qualifiers_by_player.wf(),
            decreases self.active_algorithms.rows@.len() - i,
        {
            if !self.active_algorithms.rows[i].block_data.num_qualifiers_by_player.is_well_formed() {
                return false;
            }
            i = i + 1;
        }
        let mut p: usize = 0;
        while p < self.active_players.rows.len()
            invariant
                p <= self.active_players.rows@.len(),
                forall|j: int|
                    0 <= j < p ==> (#[trigger] self.active_players.rows@[j]).state.votes.wf(),
            decreases self.active_players.rows@.len() - p,
        {
            if !self.active_players.rows[p].state.votes.is_well_formed() {
                return false;
            }
            p = p + 1;
        }
        let mut o: usize = 0;
        while o < self.active_opow.rows.len()
            invariant
                o <= self.active_opow.rows@.len(),
                forall|j: int|
                    0 <= j < o ==> (#[trigger] self.active_opow.rows@[j]).num_qualifiers_by_challenge.wf(),
            decreases self.active_opow.rows@.len() - o,
        {
            if !self.active_opow.rows[o].num_qualifiers_by_challenge.is_well_formed() {
                return false;
            }
            o = o + 1;
        }
        true
    }

    /// Whether entry `k` of the qualifiers of algorithm `i` leads to the
    /// player's proof-of-work data and a positive count on the challenge.
    pub fn is_share_defined(&self, i: usize, k: usize) -> (r: bool)
        requires
            self.wf(),
            i < self.active_algorithms.count(),
            k < self.active_algorithms.rows@[i as int].block_data.num_qualifiers_by_player.count(),
        ensures
            r == self.share_defined(i as int, k as int),
    {
        let algorithm = &self.active_algorithms.rows[i];
        let player_id = &algorithm.block_data.num_qualifiers_by_player.ids[k];
        match self.active_opow.position(player_id) {
            None => false,
            Some(o) => {
                let by_challenge = &self.active_opow.rows[o].num_qualifiers_by_challenge;
                match by_challenge.position(&algorithm.details.challenge_id) {
                    None => false,
                    Some(c) => by_challenge.rows[c] > 0,
                }
            },
        }
    }

    /// Whether the cache is consistent: only then can the block be updated.
    pub fn is_consistent(&self) -> (r: bool)
        ensures
            r == self.consistent(),
    {
        if !self.is_well_formed() {
            return false;
        }
        if self.config.rounds.blocks_per_round == 0 || self.block_details.height == u32::MAX {
            return false;
        }
        if self.is_round_end() && self.block_details.round == u32::MAX {
            return false;
        }
        let mut a: usize = 0;
        while a < self.voting_advances.rows.len()
            invariant
                a <= self.voting_advances.rows@.len(),
                forall|b: int|
                    0 <= b < a ==> (#[trigger] self.voting_advances.rows@[b]).round_votes_tallied
                        >= self.block_details.round,
            decreases self.voting_advances.rows@.len() - a,
        {
            if self.voting_advances.rows[a].round_votes_tallied < self.block_details.round {
                return false;
            }
            a = a + 1;
        }
        let mut i: usize = 0;
        while i < self.active_algorithms.rows.len()
            invariant
                self.wf(),
                i <= self.active_algorithms.rows@.len(),
                forall|j: int, k: int|
                    0 <= j < i && self.challenge_active(j) && 0 <= k
                        < self.active_algorithms.rows@[j].block_data.num_qualifiers_by_player.count()
                        ==> #[trigger] self.share_defined(j, k),
            decreases self.active_algorithms.rows@.len() - i,
        {
            if self.is_challenge_active(i) {
                let entries = self.active_algorithms.rows[i].block_data.num_qualifiers_by_player.ids.len();
                let mut k: usize = 0;
                while k < entries
                    invariant
                        self.wf(),
                        i < self.active_algorithms.rows@.len(),
                        self.challenge_active(i as int),
                        entries
                            == self.active_algorithms.rows@[i as int].block_data.num_qualifiers_by_player.count(),
                        k <= entries,
                        forall|l: int| 0 <= l < k ==> #[trigger] self.share_defined(i as int, l),
                    decreases entries - k,
                {
                    if !self.is_share_defined(i, k) {
                        return false;
                    }
                    k = k + 1;
                }
            }
            i = i + 1;
        }
        true
    }
}

} // verus!
