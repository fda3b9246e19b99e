//! The records of the ledger: configuration, block position, and the state
//! of players, challenges, advances, algorithms and binaries.

use crate::number::PreciseNumber;
use crate::table::Table;
use vstd::prelude::*;

verus! {

/// Rules for algorithms.
#[derive(Clone, Copy, Debug, PartialEq, Eq)]
pub struct AlgorithmsConfig {
    /// The fee a player must be able to pay to submit an algorithm.
    pub submission_fee: PreciseNumber,
    /// The adoption at or above which an algorithm earns a merge point.
    pub adoption_threshold: PreciseNumber,
    /// The merge points at or above which an algorithm can be merged.
    pub merge_points_threshold: u32,
    /// Rounds between an algorithm's submission and its push.
    pub push_delay_period: u32,
}

/// Rules for advances.
#[derive(Clone, Copy, Debug, PartialEq, Eq)]
pub struct AdvancesConfig {
    /// The fee a player must be able to pay to submit an advance.
    pub submission_fee: PreciseNumber,
    /// The adoption at or above which an advance earns a merge point.
    pub adoption_threshold: PreciseNumber,
    /// The merge points at or above which an advance is merged.
    pub merge_points_threshold: u32,
    /// Rounds between an advance's submission and the start of its vote.
    pub vote_start_delay: u32,
    /// Rounds that a vote lasts.
    pub vote_period: u32,
    /// The share of yes votes at or above which a vote passes.
    pub min_percent_yes_votes: PreciseNumber,
}

/// Rules for rounds.
#[derive(Clone, Copy, Debug, PartialEq, Eq)]
pub struct RoundsConfig {
    /// The number of blocks in a round.
    pub blocks_per_round: u32,
}

/// The configuration that the protocol reads.
#[derive(Clone, Copy, Debug, PartialEq, Eq)]
pub struct ProtocolConfig {
    pub algorithms: AlgorithmsConfig,
    pub advances: AdvancesConfig,
    pub rounds: RoundsConfig,
}

/// The position of a block in the chain.
#[derive(Clone, Copy, Debug, PartialEq, Eq)]
pub struct BlockDetails {
    pub height: u32,
    pub round: u32,
}

/// The state of a challenge.
#[derive(Clone, Copy, Debug, PartialEq, Eq)]
pub struct ChallengeState {
    /// The round from which the challenge is open.
    pub round_active: u32,
}

/// The state of a player.
#[derive(Clone, Debug, PartialEq, Eq)]
pub struct PlayerState {
    pub available_fee_balance: PreciseNumber,
    /// The player's votes, by advance: `true` is a yes.
    pub votes: Table<bool>,
}

/// What a block records of a player.
#[derive(Clone, Debug, PartialEq, Eq)]
pub struct PlayerBlockData {
    /// Deposits by the number of rounds they stay locked: item `k` is
    /// locked for `k` more rounds.
    pub deposit_by_locked_period: Vec<PreciseNumber>,
}

/// An active player.
#[derive(Clone, Debug, PartialEq, Eq)]
pub struct Player {
    pub state: PlayerState,
    pub block_data: PlayerBlockData,
}

/// The weighted votes cast on an advance.
#[derive(Clone, Copy, Debug, PartialEq, Eq)]
pub struct VotesTally {
    pub yes: PreciseNumber,
    pub no: PreciseNumber,
}

/// The state of an advance.
#[derive(Clone, Copy, Debug, PartialEq, Eq)]
pub struct AdvanceState {
    /// The round from which the advance is active, once its vote has passed.
    pub round_active: Option<u32>,
    /// The round from which the advance is merged, once it is.
    pub round_merged: Option<u32>,
    /// The round at which the vote on the advance is decided.
    pub round_votes_tallied: u32,
    pub votes_tally: VotesTally,
}

/// What a submission says of an advance.
#[derive(Clone, Debug, PartialEq, Eq)]
pub struct AdvanceDetails {
    pub name: String,
    pub challenge_id: String,
    pub player_id: String,
    pub fee_paid: PreciseNumber,
}

/// What a block records of an advance.
#[derive(Clone, Copy, Debug, PartialEq, Eq)]
pub struct AdvanceBlockData {
    /// The adoption of all algorithms built on the advance, added up.
    pub adoption: PreciseNumber,
    pub merge_points: u32,
}

/// An active advance.
#[derive(Clone, Copy, Debug, PartialEq, Eq)]
pub struct Advance {
    pub state: AdvanceState,
    pub block_data: AdvanceBlockData,
}

/// What a submission says of an algorithm.
#[derive(Clone, Debug, PartialEq, Eq)]
pub struct AlgorithmDetails {
    pub name: String,
    pub challenge_id: String,
    pub player_id: String,
    /// The advance that the algorithm builds on, if any.
    pub advance_id: Option<String>,
    pub fee_paid: PreciseNumber,
}

/// The state of an algorithm.
#[derive(Clone, Copy, Debug, PartialEq, Eq)]
pub struct AlgorithmState {
    /// The round from which the algorithm is merged, once it is.
    pub round_merged: Option<u32>,
}

/// What a block records of an algorithm.
#[derive(Clone, Debug, PartialEq, Eq)]
pub struct AlgorithmBlockData {
    /// The algorithm's share of its challenge's adoption.
    pub adoption: PreciseNumber,
    pub merge_points: u32,
    /// The qualifiers found with the algorithm, by player.
    pub num_qualifiers_by_player: Table<u32>,
}

/// An active algorithm.
#[derive(Clone, Debug, PartialEq, Eq)]
pub struct Algorithm {
    pub details: AlgorithmDetails,
    pub state: AlgorithmState,
    pub block_data: AlgorithmBlockData,
}

/// What the proof-of-work records of a player in a block.
#[derive(Clone, Debug, PartialEq, Eq)]
pub struct OPoWBlockData {
    pub influence: PreciseNumber,
    /// The qualifiers that the player found, by challenge.
    pub num_qualifiers_by_challenge: Table<u32>,
}

/// The outcome of compiling an algorithm.
#[derive(Clone, Debug, PartialEq, Eq)]
pub struct BinaryDetails {
    pub compile_success: bool,
    pub download_url: Option<String>,
}

} // verus!
