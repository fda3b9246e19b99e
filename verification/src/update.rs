//! The block update: one pass over the cache of a block that tallies the
//! votes, computes adoption, awards merge points and, on the last block of a
//! round, merges and activates.
//!
//! The pass first computes every new value from the cache as it was loaded
//! and only then writes them, so a cache that cannot be updated is left as
//! it was.

use crate::cache::AddBlockCache;
use crate::laws::lemma_update_keeps_consistency;
use crate::number::PreciseNumber;
use crate::table::Table;
use crate::types::{Advance, AdvanceState, Algorithm, VotesTally};
use vstd::prelude::*;

verus! {

/// Why a block could not be updated.
#[derive(Clone, Copy, Debug, PartialEq, Eq, Structural)]
pub enum UpdateError {
    /// The cache is not consistent: a table is malformed, a round has no
    /// blocks, the block or the round it ends has no successor, an open vote
    /// was due before this round, or a qualifier does not lead to
    /// proof-of-work data.
    InconsistentState,
    /// Some tally, weight or adoption does not fit in a number.
    NumericOverflow,
}

/// Writes the new adoption, merge points and round of merging of every
/// algorithm.
fn store_algorithms(
    table: &mut Table<Algorithm>,
    adoptions: &Vec<PreciseNumber>,
    points: &Vec<u32>,
    merges: &Vec<Option<u32>>,
)
    requires
        old(table).ids@.len() == old(table).rows@.len(),
        adoptions@.len() == old(table).rows@.len(),
        points@.len() == old(table).rows@.len(),
        merges@.len() == old(table).rows@.len(),
    ensures
        final(table).ids == old(table).ids,
        final(table).rows@.len() == old(table).rows@.len(),
        forall|i: int|
            0 <= i < old(table).rows@.len() ==> {
                let now = #[trigger] final(table).rows@[i];
                let was = old(table).rows@[i];
                &&& now.details == was.details
                &&& now.state.round_merged == merges@[i]
                &&& now.block_data.adoption == adoptions@[i]
                &&& now.block_data.merge_points == points@[i]
                &&& now.block_data.num_qualifiers_by_player == was.block_data.num_qualifiers_by_player
            },
{
    let rows = table.rows.len();
    let mut i: usize = 0;
    while i < rows
        invariant
            rows == old(table).rows@.len(),
            table.ids == old(table).ids,
            table.rows@.len() == rows,
            adoptions@.len() == rows,
            points@.len() == rows,
            merges@.len() == rows,
            i <= rows,
            forall|j: int| i <= j < rows ==> #[trigger] table.rows@[j] == old(table).rows@[j],
            forall|j: int|
                0 <= j < i ==> {
                    let now = #[trigger] table.rows@[j];
                    let was = old(table).rows@[j];
                    &&& now.details == was.details
                    &&& now.state.round_merged == merges@[j]
                    &&& now.block_data.adoption == adoptions@[j]
                    &&& now.block_data.merge_points == points@[j]
                    &&& now.block_data.num_qualifiers_by_player
                        == was.block_data.num_qualifiers_by_player
                },
        decreases rows - i,
    {
        table.rows[i].block_data.adoption = adoptions[i];
        table.rows[i].block_data.merge_points = points[i];
        table.rows[i].state.round_merged = merges[i];
        i = i + 1;
    }
}

/// Writes the new adoption, merge points and round of merging of every
/// advance.
fn store_advances(
    table: &mut Table<Advance>,
    adoptions: &Vec<PreciseNumber>,
    points: &Vec<u32>,
    merges: &Vec<Option<u32>>,
)
    requires
        adoptions@.len() == old(table).rows@.len(),
        points@.len() == old(table).rows@.len(),
        merges@.len() == old(table).rows@.len(),
    ensures
        final(table).ids == old(table).ids,
        final(table).rows@.len() == old(table).rows@.len(),
        forall|v: int|
            0 <= v < old(table).rows@.len() ==> {
                let now = #[trigger] final(table).rows@[v];
                let was = old(table).rows@[v];
                &&& now.state.round_active == was.state.round_active
                &&& now.state.round_votes_tallied == was.state.round_votes_tallied
                &&& now.state.votes_tally == was.state.votes_tally
                &&& now.state.round_merged == merges@[v]
                &&& now.block_data.adoption == adoptions@[v]
                &&& now.block_data.merge_points == points@[v]
            },
{
    let rows = table.rows.len();
    let mut v: usize = 0;
    while v < rows
        invariant
            rows == old(table).rows@.len(),
            table.ids == old(table).ids,
            table.rows@.len() == rows,
            adoptions@.len() == rows,
            points@.len() == rows,
            merges@.len() == rows,
            v <= rows,
            forall|u: int| v <= u < rows ==> #[trigger] table.rows@[u] == old(table).rows@[u],
            forall|u: int|
                0 <= u < v ==> {
                    let now = #[trigger] table.rows@[u];
                    let was = old(table).rows@[u];
                    &&& now.state.round_active == was.state.round_active
                    &&& now.state.round_votes_tallied == was.state.round_votes_tallied
                    &&& now.state.votes_tally == was.state.votes_tally
                    &&& now.state.round_merged == merges@[u]
                    &&& now.block_data.adoption == adoptions@[u]
                    &&& now.block_data.merge_points == points@[u]
                },
        decreases rows - v,
    {
        table.rows[v].block_data.adoption = adoptions[v];
        table.rows[v].block_data.merge_points = points[v];
        table.rows[v].state.round_merged = merges[v];
        v = v + 1;
    }
}

/// Writes the new tally and round of activation of every voting advance.
fn store_votes(
    table: &mut Table<AdvanceState>,
    tallies: &Vec<VotesTally>,
    activations: &Vec<Option<u32>>,
)
    requires
        tallies@.len() == old(table).rows@.len(),
        activations@.len() == old(table).rows@.len(),
    ensures
        final(table).ids == old(table).ids,
        final(table).rows@.len() == old(table).rows@.len(),
        forall|a: int|
            0 <= a < old(table).rows@.len() ==> {
                let now = #[trigger] final(table).rows@[a];
                let was = old(table).rows@[a];
                &&& now.round_active == activations@[a]
                &&& now.round_merged == was.round_merged
                &&& now.round_votes_tallied == was.round_votes_tallied
                &&& now.votes_tally == tallies@[a]
            },
{
    let rows = table.rows.len();
    let mut a: usize = 0;
    while a < rows
        invariant
            rows == old(table).rows@.len(),
            table.ids == old(table).ids,
            table.rows@.len() == rows,
            tallies@.len() == rows,
            activations@.len() == rows,
            a <= rows,
            forall|b: int| a <= b < rows ==> #[trigger] table.rows@[b] == old(table).rows@[b],
            forall|b: int|
                0 <= b < a ==> {
                    let now = #[trigger] table.rows@[b];
                    let was = old(table).rows@[b];
                    &&& now.round_active == activations@[b]
                    &&& now.round_merged == was.round_merged
                    &&& now.round_votes_tallied == was.round_votes_tallied
                    &&& now.votes_tally == tallies@[b]
                },
        decreases rows - a,
    {
        table.rows[a].votes_tally = tallies[a];
        table.rows[a].round_active = activations[a];
        a = a + 1;
    }
}

/// Updates the cache of a block.
///
/// On a consistent cache whose quantities fit in a number the update
/// succeeds, and the cache becomes what `AddBlockCache::is_update_of`
/// describes. Otherwise the cache is left as it was, and the error says
/// which of the two failed.
pub fn update(cache: &mut AddBlockCache) -> (r: Result<(), UpdateError>)
    ensures
        match r {
            Ok(_) => {
                &&& old(cache).consistent()
                &&& old(cache).in_range()
                &&& final(cache).is_update_of(old(cache))
                &&& final(cache).consistent()
            },
            Err(UpdateError::InconsistentState) => {
                &&& !old(cache).consistent()
                &&& *final(cache) == *old(cache)
            },
            Err(UpdateError::NumericOverflow) => {
                &&& old(cache).consistent()
                &&& !old(cache).in_range()
                &&& *final(cache) == *old(cache)
            },
        },
{
    if !cache.is_consistent() {
        return Err(UpdateError::InconsistentState);
    }
    let tallies = match cache.vote_tallies() {
        Some(t) => t,
        None => {
            return Err(UpdateError::NumericOverflow);
        },
    };
    let adoptions = match cache.algorithm_adoptions() {
        Some(a) => a,
        None => {
            return Err(UpdateError::NumericOverflow);
        },
    };
    let advance_adoptions = match cache.advance_adoptions(&adoptions) {
        Some(a) => a,
        None => {
            return Err(UpdateError::NumericOverflow);
        },
    };
    let algorithm_points = cache.algorithm_points(&adoptions);
    let advance_points = cache.advance_points(&advance_adoptions);
    let algorithm_merges = cache.algorithm_merges(&algorithm_points);
    let advance_merges = cache.advance_merges(&advance_points);
    let activations = cache.activations(&tallies);
    store_votes(&mut cache.voting_advances, &tallies, &activations);
    store_algorithms(&mut cache.active_algorithms, &adoptions, &algorithm_points, &algorithm_merges);
    store_advances(&mut cache.active_advances, &advance_adoptions, &advance_points, &advance_merges);
    proof {
        lemma_update_keeps_consistency(*old(cache), *cache);
    }
    Ok(())
}

} // verus!
