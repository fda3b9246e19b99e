//! What holds of every block update.

use crate::cache::AddBlockCache;
use crate::number::{lemma_normalised_total, normalised, PRECISION};
use crate::sums::{lemma_share_bound, lemma_sum_bounds_item, lemma_sum_equal, positives, sum};
use vstd::prelude::*;

verus! {

/// The adoption that `after` holds for the algorithms of `challenge`, each
/// at its algorithm's place, with zero at the places of other algorithms.
pub open spec fn challenge_adoptions(
    before: AddBlockCache,
    after: AddBlockCache,
    challenge: Seq<char>,
) -> Seq<nat> {
    Seq::new(
        before.active_algorithms.ids@.len(),
        |j: int|
            if before.challenge_of(j) == challenge {
                after.active_algorithms.rows@[j].block_data.adoption@
            } else {
                0
            },
    )
}

/// After an update, the adoption of the algorithms of an active challenge
/// adds up to one, short of less than one part of 10^-18 per algorithm with
/// a weight, where the challenge's weights are not all zero; where they
/// are, every algorithm of the challenge has adoption zero.
pub proof fn lemma_adoption_sums_to_one(before: AddBlockCache, after: AddBlockCache, c: int)
    requires
        before.wf(),
        after.is_update_of(&before),
        0 <= c < before.active_challenge_ids@.len(),
    ensures
        ({
            let challenge = before.active_challenge_ids@[c]@;
            let total = sum(before.challenge_weights(challenge));
            let adoptions = challenge_adoptions(before, after, challenge);
            &&& total > 0 ==> PRECISION - positives(before.challenge_weights(challenge)) < sum(
                adoptions,
            ) <= PRECISION
            &&& positives(before.challenge_weights(challenge)) <= before.active_algorithms.count()
            &&& total == 0 ==> forall|j: int|
                0 <= j < before.active_algorithms.count() && before.challenge_of(j) == challenge
                    ==> after.active_algorithms.rows@[j].block_data.adoption@ == 0
        }),
{
    let challenge = before.active_challenge_ids@[c]@;
    let weights = before.challenge_weights(challenge);
    let adoptions = challenge_adoptions(before, after, challenge);
    let shares = normalised(weights);
    lemma_normalised_total(weights);
    assert forall|j: int| 0 <= j < adoptions.len() implies adoptions[j] == shares[j] by {
        if sum(weights) > 0 {
            lemma_sum_bounds_item(weights, j);
            lemma_share_bound(weights[j], PRECISION as nat, sum(weights));
        }
        if before.challenge_of(j) == challenge {
            assert(before.challenge_active(j));
            assert(after.active_algorithms.rows@[j] == before.updated_algorithm(j));
            assert(before.new_adoption(j) == shares[j]);
        } else {
            assert(weights[j] == 0);
            assert(0nat * (PRECISION as nat) == 0) by (nonlinear_arith);
        }
    }
    lemma_sum_equal(adoptions, shares);
    if sum(weights) == 0 {
        assert forall|j: int|
            0 <= j < before.active_algorithms.count() && before.challenge_of(j)
                == challenge implies after.active_algorithms.rows@[j].block_data.adoption@ == 0 by {
            assert(adoptions[j] == shares[j]);
        }
    }
}

/// An update never takes merge points away and gives at most one; an
/// algorithm or advance that is merged gets none.
pub proof fn lemma_merge_points_monotone(before: AddBlockCache, after: AddBlockCache)
    requires
        before.wf(),
        after.is_update_of(&before),
    ensures
        forall|i: int|
            0 <= i < before.active_algorithms.count() ==> {
                let was = before.active_algorithms.rows@[i];
                let now = #[trigger] after.active_algorithms.rows@[i];
                &&& was.block_data.merge_points <= now.block_data.merge_points
                    <= was.block_data.merge_points + 1
                &&& was.state.round_merged is Some ==> now.block_data.merge_points
                    == was.block_data.merge_points
            },
        forall|v: int|
            0 <= v < before.active_advances.count() ==> {
                let was = before.active_advances.rows@[v];
                let now = #[trigger] after.active_advances.rows@[v];
                &&& was.block_data.merge_points <= now.block_data.merge_points
                    <= was.block_data.merge_points + 1
                &&& was.state.round_merged is Some ==> now.block_data.merge_points
                    == was.block_data.merge_points
            },
{
    assert forall|i: int| 0 <= i < before.active_algorithms.count() implies {
        let was = before.active_algorithms.rows@[i];
        let now = #[trigger] after.active_algorithms.rows@[i];
        &&& was.block_data.merge_points <= now.block_data.merge_points <= was.block_data.merge_points
            + 1
        &&& was.state.round_merged is Some ==> now.block_data.merge_points
            == was.block_data.merge_points
    } by {
        assert(after.active_algorithms.rows@[i] == before.updated_algorithm(i));
    }
    assert forall|v: int| 0 <= v < before.active_advances.count() implies {
        let was = before.active_advances.rows@[v];
        let now = #[trigger] after.active_advances.rows@[v];
        &&& was.block_data.merge_points <= now.block_data.merge_points <= was.block_data.merge_points
            + 1
        &&& was.state.round_merged is Some ==> now.block_data.merge_points
            == was.block_data.merge_points
    } by {
        assert(after.active_advances.rows@[v] == before.updated_advance(v));
    }
}

/// An update leaves the round of merging of a merged algorithm or advance
/// as it is: the round is set once and never again.
pub proof fn lemma_merged_once(before: AddBlockCache, after: AddBlockCache)
    requires
        before.wf(),
        after.is_update_of(&before),
    ensures
        forall|i: int|
            0 <= i < before.active_algorithms.count()
                && before.active_algorithms.rows@[i].state.round_merged is Some ==> (
            #[trigger] after.active_algorithms.rows@[i]).state.round_merged
                == before.active_algorithms.rows@[i].state.round_merged,
        forall|v: int|
            0 <= v < before.active_advances.count()
                && before.active_advances.rows@[v].state.round_merged is Some ==> (
            #[trigger] after.active_advances.rows@[v]).state.round_merged
                == before.active_advances.rows@[v].state.round_merged,
        forall|a: int|
            0 <= a < before.voting_advances.count() ==> (
            #[trigger] after.voting_advances.rows@[a]).round_merged
                == before.voting_advances.rows@[a].round_merged,
{
    assert forall|i: int|
        0 <= i < before.active_algorithms.count()
            && before.active_algorithms.rows@[i].state.round_merged is Some implies (
    #[trigger] after.active_algorithms.rows@[i]).state.round_merged
        == before.active_algorithms.rows@[i].state.round_merged by {
        assert(after.active_algorithms.rows@[i] == before.updated_algorithm(i));
    }
    assert forall|v: int|
        0 <= v < before.active_advances.count()
            && before.active_advances.rows@[v].state.round_merged is Some implies (
    #[trigger] after.active_advances.rows@[v]).state.round_merged
        == before.active_advances.rows@[v].state.round_merged by {
        assert(after.active_advances.rows@[v] == before.updated_advance(v));
    }
    assert forall|a: int| 0 <= a < before.voting_advances.count() implies (
    #[trigger] after.voting_advances.rows@[a]).round_merged
        == before.voting_advances.rows@[a].round_merged by {
        assert(after.voting_advances.rows@[a] == before.updated_voting_advance(a));
    }
}

/// The tally of a vote depends on the players, the block's round, and the
/// advance's identifier and round of decision, and on nothing else: not on
/// the tally that the cache holds.
pub proof fn lemma_tally_ignores_stored(first: AddBlockCache, second: AddBlockCache, a: int, side: bool)
    requires
        first.active_players == second.active_players,
        first.block_details.round == second.block_details.round,
        first.voting_advances.ids == second.voting_advances.ids,
        0 <= a < first.voting_advances.ids@.len(),
        first.voting_advances.rows@[a].round_votes_tallied
            == second.voting_advances.rows@[a].round_votes_tallied,
    ensures
        first.tally(a, side) == second.tally(a, side),
{
    assert(first.vote_weights(a, side) =~= second.vote_weights(a, side));
}

/// Tallying is idempotent: counting the votes of an updated cache again
/// gives the tallies that the update stored.
pub proof fn lemma_tally_idempotent(before: AddBlockCache, after: AddBlockCache, a: int)
    requires
        before.wf(),
        before.votes_in_range(),
        after.is_update_of(&before),
        0 <= a < before.voting_advances.count(),
    ensures
        after.tally(a, true) == before.tally(a, true),
        after.tally(a, false) == before.tally(a, false),
        after.voting_advances.rows@[a].votes_tally.yes@ == after.tally(a, true),
        after.voting_advances.rows@[a].votes_tally.no@ == after.tally(a, false),
{
    assert(after.voting_advances.rows@[a] == before.updated_voting_advance(a));
    lemma_tally_ignores_stored(before, after, a, true);
    lemma_tally_ignores_stored(before, after, a, false);
    assert(before.tally(a, true) + before.tally(a, false) <= u128::MAX);
}

/// An update keeps a consistent cache consistent: the next block can be
/// updated from it.
pub proof fn lemma_update_keeps_consistency(before: AddBlockCache, after: AddBlockCache)
    requires
        before.consistent(),
        after.is_update_of(&before),
    ensures
        after.consistent(),
{
    assert forall|i: int| 0 <= i < after.active_algorithms.count() implies (
    #[trigger] after.active_algorithms.rows@[i]).block_data.num_qualifiers_by_player.wf() by {
        assert(after.active_algorithms.rows@[i] == before.updated_algorithm(i));
        assert(before.active_algorithms.rows@[i].block_data.num_qualifiers_by_player.wf());
    }
    assert forall|a: int| 0 <= a < after.voting_advances.count() implies (
    #[trigger] after.voting_advances.rows@[a]).round_votes_tallied >= after.block_details.round by {
        assert(after.voting_advances.rows@[a] == before.updated_voting_advance(a));
        assert(before.voting_advances.rows@[a].round_votes_tallied >= before.block_details.round);
    }
    assert forall|i: int, k: int|
        0 <= i < after.active_algorithms.count() && after.challenge_active(i) && 0 <= k
            < after.active_algorithms.rows@[i].block_data.num_qualifiers_by_player.count() implies
        #[trigger] after.share_defined(i, k) by {
        assert(after.active_algorithms.rows@[i] == before.updated_algorithm(i));
        assert(before.challenge_active(i));
        assert(before.share_defined(i, k));
    }
}

/// An update is determined by the cache it starts from: two caches that
/// are both updates of the same cache hold the same rows.
pub proof fn lemma_update_is_determined(before: AddBlockCache, first: AddBlockCache, second: AddBlockCache)
    requires
        first.is_update_of(&before),
        second.is_update_of(&before),
    ensures
        first.active_algorithms.rows@ == second.active_algorithms.rows@,
        first.active_advances.rows@ == second.active_advances.rows@,
        first.voting_advances.rows@ == second.voting_advances.rows@,
{
    assert(first.active_algorithms.rows@ =~= second.active_algorithms.rows@);
    assert(first.active_advances.rows@ =~= second.active_advances.rows@);
    assert(first.voting_advances.rows@ =~= second.voting_advances.rows@);
}

} // verus!
