use tig_protocol::cache::AddBlockCache;
use tig_protocol::number::{PreciseNumber, PRECISION};
use tig_protocol::table::Table;
use tig_protocol::types::{
    Advance, AdvanceBlockData, AdvanceState, AdvancesConfig, Algorithm, AlgorithmBlockData,
    AlgorithmDetails, AlgorithmState, AlgorithmsConfig, BlockDetails, OPoWBlockData, Player,
    PlayerBlockData, PlayerState, ProtocolConfig, RoundsConfig, VotesTally,
};
use tig_protocol::update::{update, UpdateError};

fn id(text: &str) -> String {
    String::from(text)
}

fn raw(value: u128) -> PreciseNumber {
    PreciseNumber { raw: value }
}

fn whole(value: u64) -> PreciseNumber {
    PreciseNumber::from(value)
}

/// Adoption thresholds of a quarter, merge points thresholds of two, a
/// minimum of half of the votes, ten blocks per round.
fn config() -> ProtocolConfig {
    ProtocolConfig {
        algorithms: AlgorithmsConfig {
            submission_fee: whole(1),
            adoption_threshold: raw(PRECISION / 4),
            merge_points_threshold: 2,
            push_delay_period: 1,
        },
        advances: AdvancesConfig {
            submission_fee: whole(2),
            adoption_threshold: raw(PRECISION / 4),
            merge_points_threshold: 2,
            vote_start_delay: 1,
            vote_period: 2,
            min_percent_yes_votes: raw(PRECISION / 2),
        },
        rounds: RoundsConfig { blocks_per_round: 10 },
    }
}

/// An empty cache in round 5. Height 48 is in the middle of a round, height
/// 49 is a round's last block.
fn cache_at(height: u32) -> AddBlockCache {
    AddBlockCache {
        config: config(),
        block_details: BlockDetails { height, round: 5 },
        active_challenge_ids: Vec::new(),
        active_algorithms: Table::new(),
        active_advances: Table::new(),
        voting_advances: Table::new(),
        active_players: Table::new(),
        active_opow: Table::new(),
    }
}

fn table<V: Clone>(entries: &[(&str, V)]) -> Table<V> {
    let mut table = Table::new();
    for (key, row) in entries {
        table.insert(id(key), row.clone());
    }
    table
}

fn player(votes: &[(&str, bool)], deposits: &[u64]) -> Player {
    Player {
        state: PlayerState { available_fee_balance: whole(0), votes: table(votes) },
        block_data: PlayerBlockData {
            deposit_by_locked_period: deposits.iter().map(|&deposit| whole(deposit)).collect(),
        },
    }
}

fn voting(round_votes_tallied: u32) -> AdvanceState {
    AdvanceState {
        round_active: None,
        round_merged: None,
        round_votes_tallied,
        votes_tally: VotesTally { yes: whole(77), no: whole(88) },
    }
}

fn advance(adoption: PreciseNumber, merge_points: u32, round_merged: Option<u32>) -> Advance {
    Advance {
        state: AdvanceState {
            round_active: Some(1),
            round_merged,
            round_votes_tallied: 1,
            votes_tally: VotesTally { yes: whole(0), no: whole(0) },
        },
        block_data: AdvanceBlockData { adoption, merge_points },
    }
}

fn algorithm(challenge: &str, advance: Option<&str>, qualifiers: &[(&str, u32)]) -> Algorithm {
    Algorithm {
        details: AlgorithmDetails {
            name: id("name"),
            challenge_id: id(challenge),
            player_id: id("author"),
            advance_id: advance.map(id),
            fee_paid: whole(1),
        },
        state: AlgorithmState { round_merged: None },
        block_data: AlgorithmBlockData {
            adoption: raw(123),
            merge_points: 0,
            num_qualifiers_by_player: table(qualifiers),
        },
    }
}

fn with_points(mut algorithm: Algorithm, merge_points: u32, round_merged: Option<u32>) -> Algorithm {
    algorithm.block_data.merge_points = merge_points;
    algorithm.state.round_merged = round_merged;
    algorithm
}

fn opow(influence: PreciseNumber, by_challenge: &[(&str, u32)]) -> OPoWBlockData {
    OPoWBlockData { influence, num_qualifiers_by_challenge: table(by_challenge) }
}

fn adoption_of(cache: &AddBlockCache, algorithm: &str) -> PreciseNumber {
    cache.active_algorithms.get(&id(algorithm)).unwrap().block_data.adoption
}

fn points_of(cache: &AddBlockCache, algorithm: &str) -> u32 {
    cache.active_algorithms.get(&id(algorithm)).unwrap().block_data.merge_points
}

fn merged_of(cache: &AddBlockCache, algorithm: &str) -> Option<u32> {
    cache.active_algorithms.get(&id(algorithm)).unwrap().state.round_merged
}

/// One challenge `c1` with algorithm `a`, which has all three qualifiers of
/// player `alice` (influence ten), and algorithm `b`, which has none.
fn two_algorithms(height: u32) -> AddBlockCache {
    let mut cache = cache_at(height);
    cache.active_challenge_ids = vec![id("c1")];
    cache.active_algorithms.insert(id("a"), algorithm("c1", None, &[("alice", 3)]));
    cache.active_algorithms.insert(id("b"), algorithm("c1", None, &[]));
    cache.active_opow.insert(id("alice"), opow(whole(10), &[("c1", 3)]));
    cache
}

#[test]
fn new_cache_is_empty_and_consistent() {
    let cache = AddBlockCache::new(config(), BlockDetails { height: 48, round: 5 });
    assert_eq!(cache, cache_at(48));
    assert!(cache.is_well_formed());
    assert!(cache.is_consistent());
    assert!(!cache.is_round_end());
    assert!(cache_at(49).is_round_end());
    assert!(cache_at(9).is_round_end());
    assert!(!cache_at(10).is_round_end());
}

#[test]
fn empty_cache_updates_to_itself() {
    let mut cache = cache_at(49);
    let before = cache.clone();
    assert_eq!(update(&mut cache), Ok(()));
    assert_eq!(cache, before);
}

#[test]
fn tally_counts_deposits_by_side() {
    // the vote is decided in the block's own round: every deposit counts
    let mut cache = cache_at(48);
    cache.voting_advances.insert(id("adv"), voting(5));
    cache.active_players.insert(id("alice"), player(&[("adv", true)], &[100]));
    cache.active_players.insert(id("bob"), player(&[("adv", false)], &[50]));
    assert_eq!(update(&mut cache), Ok(()));
    let state = cache.voting_advances.get(&id("adv")).unwrap();
    assert_eq!(state.votes_tally, VotesTally { yes: whole(100), no: whole(50) });
    assert_eq!(state.round_active, None);
}

#[test]
fn tally_of_two_thirds_passes_a_minimum_of_half() {
    let cache = cache_at(49);
    let tally = VotesTally { yes: whole(100), no: whole(50) };
    assert_eq!(whole(100).checked_div(whole(150)), Some(raw(666_666_666_666_666_666)));
    assert!(cache.passes(&tally));
    assert!(!cache.passes(&VotesTally { yes: whole(50), no: whole(100) }));
    assert!(cache.passes(&VotesTally { yes: whole(50), no: whole(50) }));
    assert!(!cache.passes(&VotesTally { yes: whole(0), no: whole(0) }));
}

#[test]
fn vote_decided_next_round_activates_at_round_end() {
    let mut cache = cache_at(49);
    cache.voting_advances.insert(id("adv"), voting(6));
    cache.active_players.insert(id("alice"), player(&[("adv", true)], &[7, 100]));
    cache.active_players.insert(id("bob"), player(&[("adv", false)], &[9, 50]));
    assert_eq!(update(&mut cache), Ok(()));
    let state = cache.voting_advances.get(&id("adv")).unwrap();
    // deposits that unlock before the vote is decided are left out
    assert_eq!(state.votes_tally, VotesTally { yes: whole(100), no: whole(50) });
    assert_eq!(state.round_active, Some(6));
    assert_eq!(state.round_merged, None);
    assert_eq!(state.round_votes_tallied, 6);
}

#[test]
fn vote_does_not_activate_in_the_middle_of_a_round() {
    let mut cache = cache_at(48);
    cache.voting_advances.insert(id("adv"), voting(6));
    cache.active_players.insert(id("alice"), player(&[("adv", true)], &[0, 100]));
    assert_eq!(update(&mut cache), Ok(()));
    let state = cache.voting_advances.get(&id("adv")).unwrap();
    assert_eq!(state.votes_tally, VotesTally { yes: whole(100), no: whole(0) });
    assert_eq!(state.round_active, None);
}

#[test]
fn vote_decided_later_does_not_activate_yet() {
    let mut cache = cache_at(49);
    cache.voting_advances.insert(id("adv"), voting(7));
    cache.active_players.insert(id("alice"), player(&[("adv", true)], &[1, 2, 4, 8]));
    assert_eq!(update(&mut cache), Ok(()));
    let state = cache.voting_advances.get(&id("adv")).unwrap();
    assert_eq!(state.votes_tally, VotesTally { yes: whole(12), no: whole(0) });
    assert_eq!(state.round_active, None);
}

#[test]
fn vote_without_votes_never_activates() {
    let mut cache = cache_at(49);
    cache.voting_advances.insert(id("adv"), voting(6));
    cache.active_players.insert(id("alice"), player(&[("other", true)], &[0, 100]));
    cache.active_players.insert(id("bob"), player(&[("adv", true)], &[100]));
    assert_eq!(update(&mut cache), Ok(()));
    let state = cache.voting_advances.get(&id("adv")).unwrap();
    assert_eq!(state.votes_tally, VotesTally { yes: whole(0), no: whole(0) });
    assert_eq!(state.round_active, None);
}

#[test]
fn vote_below_the_minimum_does_not_activate() {
    let mut cache = cache_at(49);
    cache.voting_advances.insert(id("adv"), voting(6));
    cache.active_players.insert(id("alice"), player(&[("adv", true)], &[0, 49]));
    cache.active_players.insert(id("bob"), player(&[("adv", false)], &[0, 51]));
    assert_eq!(update(&mut cache), Ok(()));
    let state = cache.voting_advances.get(&id("adv")).unwrap();
    assert_eq!(state.votes_tally, VotesTally { yes: whole(49), no: whole(51) });
    assert_eq!(state.round_active, None);
}

#[test]
fn tally_is_the_same_when_counted_again() {
    let mut cache = cache_at(48);
    cache.voting_advances.insert(id("adv"), voting(6));
    cache.voting_advances.insert(id("other"), voting(5));
    cache.active_players.insert(id("alice"), player(&[("adv", true), ("other", false)], &[3, 100]));
    cache.active_players.insert(id("bob"), player(&[("adv", false)], &[9, 50, 1]));
    assert_eq!(update(&mut cache), Ok(()));
    let first = cache.voting_advances.clone();
    assert_eq!(first.get(&id("adv")).unwrap().votes_tally, VotesTally { yes: whole(100), no: whole(51) });
    assert_eq!(first.get(&id("other")).unwrap().votes_tally, VotesTally { yes: whole(0), no: whole(103) });
    assert_eq!(update(&mut cache), Ok(()));
    assert_eq!(cache.voting_advances, first);
    assert_eq!(cache.vote_tallies(), Some(vec![
        VotesTally { yes: whole(100), no: whole(51) },
        VotesTally { yes: whole(0), no: whole(103) },
    ]));
}

#[test]
fn sole_qualifying_algorithm_has_all_adoption() {
    let mut cache = two_algorithms(48);
    assert_eq!(update(&mut cache), Ok(()));
    assert_eq!(adoption_of(&cache, "a"), whole(1));
    assert_eq!(adoption_of(&cache, "b"), whole(0));
}

#[test]
fn challenge_without_qualifiers_has_no_adoption() {
    let mut cache = cache_at(48);
    cache.active_challenge_ids = vec![id("c1")];
    cache.active_algorithms.insert(id("a"), algorithm("c1", None, &[]));
    cache.active_algorithms.insert(id("b"), algorithm("c1", None, &[]));
    assert_eq!(update(&mut cache), Ok(()));
    assert_eq!(adoption_of(&cache, "a"), whole(0));
    assert_eq!(adoption_of(&cache, "b"), whole(0));
    assert_eq!(points_of(&cache, "a"), 0);
}

#[test]
fn influence_is_split_by_qualifiers() {
    let mut cache = cache_at(48);
    cache.active_challenge_ids = vec![id("c1")];
    cache.active_algorithms.insert(id("a"), algorithm("c1", None, &[("alice", 1)]));
    cache.active_algorithms.insert(id("b"), algorithm("c1", None, &[("alice", 2)]));
    cache.active_opow.insert(id("alice"), opow(whole(1), &[("c1", 3)]));
    assert_eq!(cache.algorithm_weights(), Some(vec![
        raw(333_333_333_333_333_333),
        raw(666_666_666_666_666_666),
    ]));
    assert_eq!(update(&mut cache), Ok(()));
    assert_eq!(adoption_of(&cache, "a"), raw(333_333_333_333_333_333));
    assert_eq!(adoption_of(&cache, "b"), raw(666_666_666_666_666_666));
}

#[test]
fn adoption_adds_up_to_one_within_a_part_per_algorithm() {
    let mut cache = cache_at(48);
    cache.active_challenge_ids = vec![id("c1")];
    cache.active_algorithms.insert(id("a"), algorithm("c1", None, &[("alice", 2)]));
    cache.active_algorithms.insert(id("b"), algorithm("c1", None, &[("bob", 5)]));
    cache.active_algorithms.insert(id("c"), algorithm("c1", None, &[("carol", 1)]));
    cache.active_opow.insert(id("alice"), opow(raw(PRECISION / 5), &[("c1", 4)]));
    cache.active_opow.insert(id("bob"), opow(raw(3 * PRECISION / 10), &[("c1", 5)]));
    cache.active_opow.insert(id("carol"), opow(raw(PRECISION / 2), &[("c1", 3)]));
    assert_eq!(update(&mut cache), Ok(()));
    assert_eq!(adoption_of(&cache, "a"), raw(176_470_588_235_294_117));
    assert_eq!(adoption_of(&cache, "b"), raw(529_411_764_705_882_353));
    assert_eq!(adoption_of(&cache, "c"), raw(294_117_647_058_823_528));
    let total = adoption_of(&cache, "a").raw + adoption_of(&cache, "b").raw + adoption_of(&cache, "c").raw;
    assert_eq!(total, PRECISION - 2);
    assert!(total <= PRECISION && total + 3 > PRECISION);
}

#[test]
fn challenges_are_normalised_apart() {
    let mut cache = cache_at(48);
    cache.active_challenge_ids = vec![id("c1"), id("c2")];
    cache.active_algorithms.insert(id("a"), algorithm("c1", None, &[("alice", 1)]));
    cache.active_algorithms.insert(id("b"), algorithm("c2", None, &[("alice", 1)]));
    cache.active_algorithms.insert(id("c"), algorithm("c1", None, &[("bob", 2)]));
    cache.active_algorithms.insert(id("d"), algorithm("c2", None, &[("bob", 3)]));
    cache.active_opow.insert(id("alice"), opow(whole(1), &[("c1", 1), ("c2", 1)]));
    cache.active_opow.insert(id("bob"), opow(whole(3), &[("c2", 3), ("c1", 2)]));
    assert_eq!(update(&mut cache), Ok(()));
    assert_eq!(adoption_of(&cache, "a"), raw(PRECISION / 4));
    assert_eq!(adoption_of(&cache, "c"), raw(3 * PRECISION / 4));
    assert_eq!(adoption_of(&cache, "b"), raw(PRECISION / 4));
    assert_eq!(adoption_of(&cache, "d"), raw(3 * PRECISION / 4));
}

#[test]
fn algorithm_of_an_inactive_challenge_keeps_its_adoption() {
    let mut cache = two_algorithms(48);
    // the qualifier of `z` leads nowhere, which does not matter off the active challenges
    cache.active_algorithms.insert(id("z"), algorithm("c9", Some("adv"), &[("nobody", 1)]));
    cache.active_advances.insert(id("adv"), advance(whole(0), 0, None));
    assert_eq!(update(&mut cache), Ok(()));
    assert_eq!(adoption_of(&cache, "z"), raw(123));
    assert_eq!(points_of(&cache, "z"), 0);
    assert_eq!(cache.active_advances.get(&id("adv")).unwrap().block_data.adoption, whole(0));
}

#[test]
fn advance_gathers_the_adoption_of_its_algorithms() {
    let mut cache = cache_at(48);
    cache.active_challenge_ids = vec![id("c1"), id("c2")];
    cache.active_algorithms.insert(id("a"), algorithm("c1", Some("adv"), &[("alice", 1)]));
    cache.active_algorithms.insert(id("b"), algorithm("c2", Some("adv"), &[("alice", 1)]));
    cache.active_algorithms.insert(id("c"), algorithm("c2", Some("gone"), &[]));
    cache.active_algorithms.insert(id("d"), algorithm("c1", None, &[("alice", 3)]));
    cache.active_opow.insert(id("alice"), opow(whole(1), &[("c1", 4), ("c2", 1)]));
    cache.active_advances.insert(id("adv"), advance(raw(5), 0, None));
    cache.active_advances.insert(id("idle"), advance(raw(6), 0, None));
    assert_eq!(update(&mut cache), Ok(()));
    assert_eq!(adoption_of(&cache, "a"), raw(PRECISION / 4));
    assert_eq!(adoption_of(&cache, "b"), whole(1));
    let gathered = cache.active_advances.get(&id("adv")).unwrap();
    // a quarter and a whole, on top of what the advance had: more than one
    assert_eq!(gathered.block_data.adoption, raw(5 + PRECISION / 4 + PRECISION));
    assert_eq!(gathered.block_data.merge_points, 1);
    let idle = cache.active_advances.get(&id("idle")).unwrap();
    assert_eq!(idle.block_data.adoption, raw(6));
    assert_eq!(idle.block_data.merge_points, 0);
}

#[test]
fn merge_point_is_earned_at_the_threshold() {
    let mut cache = cache_at(48);
    cache.active_challenge_ids = vec![id("c1")];
    cache.active_algorithms.insert(id("a"), algorithm("c1", None, &[("alice", 1)]));
    cache.active_algorithms.insert(id("b"), algorithm("c1", None, &[("alice", 3)]));
    cache.active_algorithms.insert(id("c"), algorithm("c1", None, &[]));
    cache.active_opow.insert(id("alice"), opow(whole(8), &[("c1", 4)]));
    assert_eq!(update(&mut cache), Ok(()));
    // exactly a quarter reaches the threshold of a quarter
    assert_eq!(adoption_of(&cache, "a"), raw(PRECISION / 4));
    assert_eq!(points_of(&cache, "a"), 1);
    assert_eq!(points_of(&cache, "b"), 1);
    assert_eq!(points_of(&cache, "c"), 0);
    assert_eq!(update(&mut cache), Ok(()));
    assert_eq!(points_of(&cache, "a"), 2);
    assert_eq!(points_of(&cache, "c"), 0);
    assert_eq!(merged_of(&cache, "a"), None);
}

#[test]
fn merge_points_stay_when_adoption_drops() {
    let mut cache = two_algorithms(48);
    assert_eq!(update(&mut cache), Ok(()));
    assert_eq!(points_of(&cache, "a"), 1);
    // the player now qualifies with `b` alone
    cache.active_algorithms.rows[0].block_data.num_qualifiers_by_player = table(&[]);
    cache.active_algorithms.rows[1].block_data.num_qualifiers_by_player = table(&[("alice", 3)]);
    assert_eq!(update(&mut cache), Ok(()));
    assert_eq!(adoption_of(&cache, "a"), whole(0));
    assert_eq!(points_of(&cache, "a"), 1);
    assert_eq!(points_of(&cache, "b"), 1);
}

#[test]
fn merged_algorithm_earns_no_merge_points() {
    let mut cache = two_algorithms(48);
    cache.active_algorithms.rows[0] = with_points(algorithm("c1", None, &[("alice", 3)]), 4, Some(3));
    assert_eq!(update(&mut cache), Ok(()));
    assert_eq!(adoption_of(&cache, "a"), whole(1));
    assert_eq!(points_of(&cache, "a"), 4);
    assert_eq!(merged_of(&cache, "a"), Some(3));
}

#[test]
fn merge_points_stop_at_the_largest_value() {
    let mut cache = two_algorithms(48);
    cache.active_algorithms.rows[0].block_data.merge_points = u32::MAX;
    cache.active_algorithms.rows[0].details.advance_id = Some(id("adv"));
    cache.active_advances.insert(id("adv"), advance(whole(0), u32::MAX - 1, None));
    assert_eq!(update(&mut cache), Ok(()));
    assert_eq!(points_of(&cache, "a"), u32::MAX);
    assert_eq!(cache.active_advances.rows[0].block_data.merge_points, u32::MAX);
    assert_eq!(update(&mut cache), Ok(()));
    assert_eq!(cache.active_advances.rows[0].block_data.merge_points, u32::MAX);
}

#[test]
fn leader_with_enough_points_merges_at_round_end() {
    let mut cache = two_algorithms(49);
    cache.active_algorithms.rows[0].block_data.merge_points = 1;
    assert_eq!(update(&mut cache), Ok(()));
    // the point earned in this block counts
    assert_eq!(points_of(&cache, "a"), 2);
    assert_eq!(merged_of(&cache, "a"), Some(6));
    assert_eq!(merged_of(&cache, "b"), None);
}

#[test]
fn leader_does_not_merge_in_the_middle_of_a_round() {
    let mut cache = two_algorithms(48);
    cache.active_algorithms.rows[0].block_data.merge_points = 5;
    assert_eq!(update(&mut cache), Ok(()));
    assert_eq!(points_of(&cache, "a"), 6);
    assert_eq!(merged_of(&cache, "a"), None);
}

#[test]
fn leader_below_the_threshold_does_not_merge() {
    let mut cache = two_algorithms(49);
    assert_eq!(update(&mut cache), Ok(()));
    assert_eq!(points_of(&cache, "a"), 1);
    assert_eq!(merged_of(&cache, "a"), None);
}

#[test]
fn first_of_equal_leaders_merges() {
    let mut cache = cache_at(49);
    cache.active_algorithms.insert(id("x"), with_points(algorithm("c1", None, &[]), 3, None));
    cache.active_algorithms.insert(id("y"), with_points(algorithm("c1", None, &[]), 7, None));
    cache.active_algorithms.insert(id("z"), with_points(algorithm("c1", None, &[]), 7, None));
    cache.active_algorithms.insert(id("w"), with_points(algorithm("c2", None, &[]), 2, None));
    assert_eq!(update(&mut cache), Ok(()));
    assert_eq!(merged_of(&cache, "x"), None);
    assert_eq!(merged_of(&cache, "y"), Some(6));
    assert_eq!(merged_of(&cache, "z"), None);
    // each challenge has its own leader, whether or not the challenge is active
    assert_eq!(merged_of(&cache, "w"), Some(6));
}

#[test]
fn only_the_leader_merges() {
    let mut cache = cache_at(49);
    cache.active_algorithms.insert(id("x"), with_points(algorithm("c1", None, &[]), 5, None));
    cache.active_algorithms.insert(id("y"), with_points(algorithm("c1", None, &[]), 9, None));
    assert_eq!(update(&mut cache), Ok(()));
    assert_eq!(merged_of(&cache, "x"), None);
    assert_eq!(merged_of(&cache, "y"), Some(6));
}

#[test]
fn round_of_merging_is_set_once() {
    let mut cache = cache_at(49);
    cache.active_algorithms.insert(id("x"), with_points(algorithm("c1", None, &[]), 9, Some(2)));
    cache.active_algorithms.insert(id("y"), with_points(algorithm("c1", None, &[]), 5, None));
    cache.active_advances.insert(id("adv"), advance(whole(0), 9, Some(4)));
    assert_eq!(update(&mut cache), Ok(()));
    assert_eq!(merged_of(&cache, "x"), Some(2));
    // the merged leader keeps the lead: no other algorithm of the challenge merges
    assert_eq!(merged_of(&cache, "y"), None);
    assert_eq!(cache.active_advances.rows[0].state.round_merged, Some(4));
}

#[test]
fn advances_merge_on_their_own_points() {
    let mut cache = cache_at(49);
    cache.active_advances.insert(id("low"), advance(whole(0), 1, None));
    cache.active_advances.insert(id("high"), advance(whole(0), 2, None));
    cache.active_advances.insert(id("rising"), advance(raw(PRECISION / 4), 1, None));
    assert_eq!(update(&mut cache), Ok(()));
    assert_eq!(cache.active_advances.get(&id("low")).unwrap().state.round_merged, None);
    assert_eq!(cache.active_advances.get(&id("high")).unwrap().state.round_merged, Some(6));
    let rising = cache.active_advances.get(&id("rising")).unwrap();
    assert_eq!(rising.block_data.merge_points, 2);
    assert_eq!(rising.state.round_merged, Some(6));
    assert_eq!(rising.state.round_active, Some(1));
}

#[test]
fn advances_do_not_merge_in_the_middle_of_a_round() {
    let mut cache = cache_at(48);
    cache.active_advances.insert(id("high"), advance(whole(0), 2, None));
    assert_eq!(update(&mut cache), Ok(()));
    assert_eq!(cache.active_advances.rows[0].state.round_merged, None);
}

#[test]
fn update_leaves_the_rest_of_the_cache_alone() {
    let mut cache = two_algorithms(49);
    cache.active_players.insert(id("alice"), player(&[("adv", true)], &[0, 100]));
    cache.voting_advances.insert(id("adv"), voting(6));
    let before = cache.clone();
    assert_eq!(update(&mut cache), Ok(()));
    assert_eq!(cache.config, before.config);
    assert_eq!(cache.block_details, before.block_details);
    assert_eq!(cache.active_challenge_ids, before.active_challenge_ids);
    assert_eq!(cache.active_players, before.active_players);
    assert_eq!(cache.active_opow, before.active_opow);
    assert_eq!(cache.active_algorithms.ids, before.active_algorithms.ids);
    assert_eq!(cache.active_algorithms.rows[0].details, before.active_algorithms.rows[0].details);
    assert_eq!(
        cache.active_algorithms.rows[0].block_data.num_qualifiers_by_player,
        before.active_algorithms.rows[0].block_data.num_qualifiers_by_player
    );
    assert_eq!(cache.voting_advances.ids, before.voting_advances.ids);
}

#[test]
fn qualifier_without_proof_of_work_data_is_inconsistent() {
    let mut cache = two_algorithms(48);
    cache.active_algorithms.rows[1].block_data.num_qualifiers_by_player = table(&[("bob", 1)]);
    let before = cache.clone();
    assert!(!cache.is_consistent());
    assert_eq!(update(&mut cache), Err(UpdateError::InconsistentState));
    assert_eq!(cache, before);
}

#[test]
fn qualifier_without_a_total_on_the_challenge_is_inconsistent() {
    let mut cache = two_algorithms(48);
    cache.active_opow.rows[0].num_qualifiers_by_challenge = table(&[("c2", 3)]);
    assert_eq!(update(&mut cache), Err(UpdateError::InconsistentState));
    cache.active_opow.rows[0].num_qualifiers_by_challenge = table(&[("c1", 0)]);
    let before = cache.clone();
    assert_eq!(update(&mut cache), Err(UpdateError::InconsistentState));
    assert_eq!(cache, before);
}

#[test]
fn round_without_blocks_is_inconsistent() {
    let mut cache = two_algorithms(48);
    cache.config.rounds.blocks_per_round = 0;
    assert_eq!(update(&mut cache), Err(UpdateError::InconsistentState));
}

#[test]
fn block_without_a_successor_is_inconsistent() {
    let mut cache = cache_at(u32::MAX);
    assert_eq!(update(&mut cache), Err(UpdateError::InconsistentState));
    // the last round can go on, but not end
    let mut cache = cache_at(48);
    cache.block_details.round = u32::MAX;
    assert_eq!(update(&mut cache), Ok(()));
    let mut cache = cache_at(49);
    cache.block_details.round = u32::MAX;
    assert_eq!(update(&mut cache), Err(UpdateError::InconsistentState));
    let mut cache = cache_at(u32::MAX - 1);
    cache.block_details.round = u32::MAX - 1;
    assert_eq!(update(&mut cache), Ok(()));
}

#[test]
fn vote_that_was_due_is_inconsistent() {
    let mut cache = cache_at(48);
    cache.voting_advances.insert(id("adv"), voting(4));
    let before = cache.clone();
    assert_eq!(update(&mut cache), Err(UpdateError::InconsistentState));
    assert_eq!(cache, before);
}

#[test]
fn repeated_identifier_is_inconsistent() {
    let mut cache = two_algorithms(48);
    cache.active_algorithms.ids[1] = id("a");
    assert!(!cache.is_well_formed());
    assert_eq!(update(&mut cache), Err(UpdateError::InconsistentState));
    let mut cache = two_algorithms(48);
    cache.active_opow.ids.push(id("bob"));
    assert!(!cache.is_well_formed());
    assert_eq!(update(&mut cache), Err(UpdateError::InconsistentState));
    let mut cache = two_algorithms(48);
    cache.active_players.insert(id("alice"), player(&[("adv", true)], &[1]));
    cache.active_players.rows[0].state.votes.ids.push(id("adv"));
    cache.active_players.rows[0].state.votes.rows.push(false);
    assert_eq!(update(&mut cache), Err(UpdateError::InconsistentState));
}

#[test]
fn tally_beyond_the_range_is_an_overflow() {
    let mut cache = two_algorithms(48);
    cache.voting_advances.insert(id("adv"), voting(5));
    cache.active_players.insert(id("alice"), player(&[("adv", true)], &[1]));
    cache.active_players.insert(id("bob"), player(&[("adv", false)], &[1]));
    cache.active_players.rows[0].block_data.deposit_by_locked_period = vec![raw(u128::MAX)];
    let before = cache.clone();
    assert!(cache.is_consistent());
    // each side fits, the two together do not
    assert_eq!(cache.tally_side(0, true), Some(raw(u128::MAX)));
    assert_eq!(cache.tally_side(0, false), Some(whole(1)));
    assert_eq!(cache.vote_tallies(), None);
    assert_eq!(update(&mut cache), Err(UpdateError::NumericOverflow));
    assert_eq!(cache, before);
}

#[test]
fn weights_beyond_the_range_are_an_overflow() {
    let mut cache = two_algorithms(48);
    cache.active_opow.rows[0].influence = raw(u128::MAX);
    cache.active_algorithms.rows[1].block_data.num_qualifiers_by_player = table(&[("bob", 1)]);
    cache.active_opow.insert(id("bob"), opow(raw(1), &[("c1", 1)]));
    let before = cache.clone();
    assert_eq!(cache.algorithm_weight(0), Some(raw(u128::MAX)));
    assert_eq!(cache.algorithm_adoptions(), None);
    assert_eq!(update(&mut cache), Err(UpdateError::NumericOverflow));
    assert_eq!(cache, before);
    // more qualifiers on the algorithm than on the challenge: the share itself is too large
    let mut cache = two_algorithms(48);
    cache.active_opow.rows[0].influence = raw(u128::MAX);
    cache.active_algorithms.rows[0].block_data.num_qualifiers_by_player = table(&[("alice", 4)]);
    assert_eq!(cache.qualifier_share(0, 0), None);
    assert_eq!(update(&mut cache), Err(UpdateError::NumericOverflow));
}

#[test]
fn advance_adoption_beyond_the_range_is_an_overflow() {
    let mut cache = two_algorithms(48);
    cache.active_algorithms.rows[0].details.advance_id = Some(id("adv"));
    cache.active_advances.insert(id("adv"), advance(raw(u128::MAX - PRECISION + 1), 0, None));
    let before = cache.clone();
    assert_eq!(update(&mut cache), Err(UpdateError::NumericOverflow));
    assert_eq!(cache, before);
    cache.active_advances.rows[0].block_data.adoption = raw(u128::MAX - PRECISION);
    assert_eq!(update(&mut cache), Ok(()));
    assert_eq!(cache.active_advances.rows[0].block_data.adoption, raw(u128::MAX));
}

#[test]
fn largest_weights_still_normalise() {
    let mut cache = two_algorithms(48);
    cache.active_opow.rows[0].influence = raw(u128::MAX);
    assert_eq!(update(&mut cache), Ok(()));
    assert_eq!(adoption_of(&cache, "a"), whole(1));
    assert_eq!(adoption_of(&cache, "b"), whole(0));
}
