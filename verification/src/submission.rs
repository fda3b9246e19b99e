//! The submission gate: what must hold before an advance, an algorithm or a
//! binary is admitted to the mempool.
//!
//! Each function decides on the state that the caller has read from the last
//! committed block, and returns the record to enqueue. Nothing is deducted
//! from a balance here.

use crate::number::PreciseNumber;
use crate::types::{
    AdvanceDetails, AdvanceState, AlgorithmDetails, AlgorithmState, BinaryDetails, ChallengeState,
    PlayerState, ProtocolConfig,
};
use vstd::prelude::*;

verus! {

/// Why a submission is refused.
#[derive(Clone, Copy, Debug, PartialEq, Eq, Structural)]
pub enum SubmissionError {
    /// The challenge is unknown or not yet open.
    InvalidChallenge,
    /// The advance that an algorithm names is unknown.
    InvalidAdvance,
    /// The algorithm that a binary names is unknown.
    InvalidAlgorithm,
    /// The player is unknown or cannot pay the submission fee.
    InsufficientBalance,
    /// The algorithm has a binary already.
    DuplicateSubmission,
    /// The compilation succeeded, but no download URL is given.
    MissingDownloadUrl,
    /// The mempool could not store the record.
    StorageFailure,
}

/// Whether a challenge is open in round `latest_round + ahead`.
pub open spec fn challenge_open(challenge: Option<ChallengeState>, latest_round: u32, ahead: int) -> bool {
    challenge matches Some(state) && state.round_active <= latest_round + ahead
}

/// Whether a player can pay `fee`.
pub open spec fn can_pay(player: Option<&PlayerState>, fee: PreciseNumber) -> bool {
    player matches Some(state) && state.available_fee_balance@ >= fee@
}

/// The rounds by which algorithms are admitted ahead of their challenge: the
/// time that an advance takes from submission to the end of its vote, and an
/// algorithm from submission to its push.
pub open spec fn algorithm_lead(config: &ProtocolConfig) -> int {
    config.advances.vote_start_delay + config.advances.vote_period
        + config.algorithms.push_delay_period
}

fn is_challenge_open(challenge: Option<ChallengeState>, latest_round: u32, ahead: u64) -> (r: bool)
    requires
        ahead <= 3 * u32::MAX,
    ensures
        r == challenge_open(challenge, latest_round, ahead as int),
{
    match challenge {
        Some(state) => {
            let round_active: u64 = state.round_active as u64;
            let horizon: u64 = latest_round as u64 + ahead;
            round_active <= horizon
        },
        None => false,
    }
}

fn is_payable(player: Option<&PlayerState>, fee: PreciseNumber) -> (r: bool)
    ensures
        r == can_pay(player, fee),
{
    match player {
        Some(state) => state.available_fee_balance.ge(&fee),
        None => false,
    }
}

/// Decides on the submission of an advance.
///
/// `challenge` and `player` are the states of `challenge_id` and `player_id`
/// in the latest block, `None` where there is none, and `latest_round` is
/// that block's round. The checks are made in this order: the challenge must
/// be open in the latest round, and the player must be able to pay the fee
/// for advances. The record to enqueue is returned.
pub fn submit_advance(
    config: &ProtocolConfig,
    latest_round: u32,
    challenge: Option<ChallengeState>,
    player: Option<&PlayerState>,
    player_id: String,
    advance_name: String,
    challenge_id: String,
) -> (r: Result<AdvanceDetails, SubmissionError>)
    ensures
        match r {
            Ok(details) => {
                &&& challenge_open(challenge, latest_round, 0)
                &&& can_pay(player, config.advances.submission_fee)
                &&& details.name == advance_name
                &&& details.challenge_id == challenge_id
                &&& details.player_id == player_id
                &&& details.fee_paid == config.advances.submission_fee
            },
            Err(SubmissionError::InvalidChallenge) => !challenge_open(challenge, latest_round, 0),
            Err(SubmissionError::InsufficientBalance) => {
                &&& challenge_open(challenge, latest_round, 0)
                &&& !can_pay(player, config.advances.submission_fee)
            },
            Err(_) => false,
        },
{
    if !is_challenge_open(challenge, latest_round, 0) {
        return Err(SubmissionError::InvalidChallenge);
    }
    if !is_payable(player, config.advances.submission_fee) {
        return Err(SubmissionError::InsufficientBalance);
    }
    Ok(
        AdvanceDetails {
            name: advance_name,
            challenge_id,
            player_id,
            fee_paid: config.advances.submission_fee,
        },
    )
}

/// Decides on the submission of an algorithm.
///
/// `challenge` and `player` are the states of `challenge_id` and `player_id`
/// in the latest block, and `advance` that of `advance_id` where one is
/// given, each `None` where there is none. The checks are made in this
/// order: the challenge must be open by the time the algorithm could be
/// pushed, a named advance must exist, and the player must be able to pay
/// the fee for algorithms. Whether the algorithm has a binary plays no part.
/// The record to enqueue is returned.
pub fn submit_algorithm(
    config: &ProtocolConfig,
    latest_round: u32,
    challenge: Option<ChallengeState>,
    advance: Option<AdvanceState>,
    player: Option<&PlayerState>,
    player_id: String,
    algorithm_name: String,
    challenge_id: String,
    advance_id: Option<String>,
) -> (r: Result<AlgorithmDetails, SubmissionError>)
    ensures
        match r {
            Ok(details) => {
                &&& challenge_open(challenge, latest_round, algorithm_lead(config))
                &&& advance_id is Some ==> advance is Some
                &&& can_pay(player, config.algorithms.submission_fee)
                &&& details.name == algorithm_name
                &&& details.challenge_id == challenge_id
                &&& details.player_id == player_id
                &&& details.advance_id == advance_id
                &&& details.fee_paid == config.algorithms.submission_fee
            },
            Err(SubmissionError::InvalidChallenge) => !challenge_open(
                challenge,
                latest_round,
                algorithm_lead(config),
            ),
            Err(SubmissionError::InvalidAdvance) => {
                &&& challenge_open(challenge, latest_round, algorithm_lead(config))
                &&& advance_id is Some
                &&& advance is None
            },
            Err(SubmissionError::InsufficientBalance) => {
                &&& challenge_open(challenge, latest_round, algorithm_lead(config))
                &&& advance_id is Some ==> advance is Some
                &&& !can_pay(player, config.algorithms.submission_fee)
            },
            Err(_) => false,
        },
{
    let lead: u64 = config.advances.vote_start_delay as u64 + config.advances.vote_period as u64
        + config.algorithms.push_delay_period as u64;
    if !is_challenge_open(challenge, latest_round, lead) {
        return Err(SubmissionError::InvalidChallenge);
    }
    if advance_id.is_some() && advance.is_none() {
        return Err(SubmissionError::InvalidAdvance);
    }
    if !is_payable(player, config.algorithms.submission_fee) {
        return Err(SubmissionError::InsufficientBalance);
    }
    Ok(
        AlgorithmDetails {
            name: algorithm_name,
            challenge_id,
            player_id,
            advance_id,
            fee_paid: config.algorithms.submission_fee,
        },
    )
}

/// Decides on the submission of the binary of an algorithm.
///
/// `algorithm` is the state of the algorithm in the latest block and
/// `existing` the binary recorded for it, each `None` where there is none.
/// The checks are made in this order: the algorithm must exist, it must have
/// no binary yet, and a successful compilation must come with a download
/// URL. The record to enqueue is returned.
pub fn submit_binary(
    algorithm: Option<AlgorithmState>,
    existing: Option<&BinaryDetails>,
    compile_success: bool,
    download_url: Option<String>,
) -> (r: Result<BinaryDetails, SubmissionError>)
    ensures
        match r {
            Ok(details) => {
                &&& algorithm is Some
                &&& existing is None
                &&& compile_success ==> download_url is Some
                &&& details.compile_success == compile_success
                &&& details.download_url == download_url
            },
            Err(SubmissionError::InvalidAlgorithm) => algorithm is None,
            Err(SubmissionError::DuplicateSubmission) => algorithm is Some && existing is Some,
            Err(SubmissionError::MissingDownloadUrl) => {
                &&& algorithm is Some
                &&& existing is None
                &&& compile_success
                &&& download_url is None
            },
            Err(_) => false,
        },
{
    if algorithm.is_none() {
        return Err(SubmissionError::InvalidAlgorithm);
    }
    if existing.is_some() {
        return Err(SubmissionError::DuplicateSubmission);
    }
    if compile_success && download_url.is_none() {
        return Err(SubmissionError::MissingDownloadUrl);
    }
    Ok(BinaryDetails { compile_success, download_url })
}

/// The outcome of a submission once the mempool has answered: the
/// identifier that it gave, or a storage failure where it gave none.
pub fn stored(identifier: Option<String>) -> (r: Result<String, SubmissionError>)
    ensures
        match identifier {
            Some(id) => r == Ok::<String, SubmissionError>(id),
            None => r == Err::<String, SubmissionError>(SubmissionError::StorageFailure),
        },
{
    match identifier {
        Some(id) => Ok(id),
        None => Err(SubmissionError::StorageFailure),
    }
}

} // verus!
