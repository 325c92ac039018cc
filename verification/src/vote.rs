//! Votes and effective vote weight.
//!
//! A vote records who voted, what they chose, when, and how many times
//! they have revised their choice.  Its effective weight combines the
//! decay curve with a quadratic revision penalty, floored at 0.1.

use vstd::prelude::*;

verus! {

use crate::decay::{decay_weight, lemma_decay_weight_range, weight_calc, DecayModel};
use crate::window::MAX_TIME;
use vstd::string::StringExecFns;
use vstd::arithmetic::div_mod::{lemma_div_basics, lemma_div_is_ordered,
    lemma_div_is_ordered_by_denominator, lemma_div_pos_is_pos};
use vstd::arithmetic::mul::{lemma_mul_inequality, lemma_mul_strictly_positive,
    lemma_mul_upper_bound};

/// The choice a validator records on a proposal.
#[derive(Clone, Copy, Debug, PartialEq, Eq, Structural)]
pub enum VoteChoice {
    /// In favour of the proposal.
    Yes,
    /// Against the proposal.
    No,
    /// Counted toward neither side of the approval ratio.
    Abstain,
}

/// One vote record.  A changed vote is a new record with a higher
/// revision count, never a mutation of an earlier one.
#[derive(Clone, Debug)]
pub struct Vote {
    /// Identifier of the validator casting the vote.
    pub validator_id: u128,
    /// The recorded choice.
    pub choice: VoteChoice,
    /// When the vote was cast, in seconds since the epoch.
    pub timestamp: i64,
    /// How many times this validator has changed this vote (0 = first cast).
    pub revision: u64,
    /// Optional free-text reason.
    pub reason: Option<String>,
}

/// Seconds between the start of voting and the vote; a vote stamped
/// before the start collapses to zero (full weight).
pub open spec fn vote_elapsed(v: Vote, start: int) -> int {
    if v.timestamp >= start {
        v.timestamp - start
    } else {
        0
    }
}

/// The effective weight of a vote, in ppm: the decay curve value divided
/// by `(1 + revision)^2`, floored at 100_000.
pub open spec fn vote_weight(v: Vote, start: int, total: int, model: DecayModel) -> int {
    let base = decay_weight(model, vote_elapsed(v, start), total);
    let penalty = (1 + v.revision) * (1 + v.revision);
    let penalized = base / penalty;
    if penalized < 100000 {
        100000
    } else {
        penalized
    }
}

/// Effective vote weights always land in `[0.1, 1.0]` ppm.
pub proof fn lemma_vote_weight_range(v: Vote, start: int, total: int, model: DecayModel)
    requires
        model is Linear ==> 0 < total,
        model matches DecayModel::Exponential(rate) ==> rate >= 0,
    ensures
        100000 <= vote_weight(v, start, total, model) <= 1000000,
{
    lemma_decay_weight_range(model, vote_elapsed(v, start), total);
    let base = decay_weight(model, vote_elapsed(v, start), total);
    let penalty = (1 + v.revision) * (1 + v.revision);
    lemma_mul_strictly_positive(1 + v.revision, 1 + v.revision);
    lemma_div_is_ordered_by_denominator(base, 1, penalty);
    lemma_div_basics(base);
}

/// How the revision penalty acts on the decay value: a first cast keeps
/// the raw decay weight, one revision quarters it before flooring, and
/// from three revisions on the floor always wins.
pub proof fn lemma_vote_weight_revision_penalty(v: Vote, start: int, total: int,
    model: DecayModel)
    requires
        model is Linear ==> 0 < total,
        model matches DecayModel::Exponential(rate) ==> rate >= 0,
    ensures
        v.revision == 0 ==> vote_weight(v, start, total, model) == decay_weight(model,
            vote_elapsed(v, start), total),
        v.revision == 1 ==> {
            let quartered = decay_weight(model, vote_elapsed(v, start), total) / 4;
            vote_weight(v, start, total, model) == (if quartered < 100000 {
                100000int
            } else {
                quartered
            })
        },
        v.revision >= 3 ==> vote_weight(v, start, total, model) == 100000,
{
    lemma_decay_weight_range(model, vote_elapsed(v, start), total);
    let base = decay_weight(model, vote_elapsed(v, start), total);
    if v.revision == 0 {
        lemma_div_basics(base);
    } else if v.revision >= 3 {
        let penalty = (1 + v.revision) * (1 + v.revision);
        lemma_mul_inequality(4, 1 + v.revision, 1 + v.revision);
        lemma_div_pos_is_pos(base, penalty);
        lemma_div_is_ordered_by_denominator(base, 16, penalty);
        lemma_div_is_ordered(base, 1000000, 16);
        assert(1000000int / 16int == 62500int);
    }
}

/// Parses a lowercase vote choice; any text but `yes`, `no` or
/// `abstain` is rejected.
pub fn choice_from_text(s: &str) -> (r: Option<VoteChoice>)
    ensures
        r == (if s@ == "yes"@ {
            Some(VoteChoice::Yes)
        } else if s@ == "no"@ {
            Some(VoteChoice::No)
        } else if s@ == "abstain"@ {
            Some(VoteChoice::Abstain)
        } else {
            None::<VoteChoice>
        }),
{
    let owned: String = s.to_owned();
    if owned == String::from_str("yes") {
        Some(VoteChoice::Yes)
    } else if owned == String::from_str("no") {
        Some(VoteChoice::No)
    } else if owned == String::from_str("abstain") {
        Some(VoteChoice::Abstain)
    } else {
        None
    }
}

/// Calculates the effective weight, in ppm, of `vote` on a proposal whose
/// voting started at `proposal_start` and runs `total_time` seconds.
pub fn calculate_vote_weight(vote: &Vote, proposal_start: i64, total_time: u64,
    decay_model: &DecayModel) -> (w: u64)
    requires
        -MAX_TIME <= proposal_start <= MAX_TIME,
        -MAX_TIME <= vote.timestamp <= MAX_TIME,
        decay_model is Linear ==> 0 < total_time,
        decay_model matches DecayModel::Exponential(rate) ==> rate >= 0,
    ensures
        w as int == vote_weight(*vote, proposal_start as int, total_time as int, *decay_model),
        100000 <= w <= 1000000,
{
    proof {
        lemma_vote_weight_range(*vote, proposal_start as int, total_time as int, *decay_model);
    }
    let time_elapsed: u64 = if vote.timestamp >= proposal_start {
        (vote.timestamp - proposal_start) as u64
    } else {
        0
    };
    let base_weight: u64 = weight_calc(decay_model, time_elapsed, total_time);
    if vote.revision >= 3 {
        proof {
            lemma_vote_weight_revision_penalty(*vote, proposal_start as int,
                total_time as int, *decay_model);
        }
        100000
    } else {
        proof {
            lemma_mul_upper_bound(1 + vote.revision as int, 3, 1 + vote.revision as int, 3);
            lemma_mul_strictly_positive(1 + vote.revision as int, 1 + vote.revision as int);
        }
        let penalty: u64 = (1 + vote.revision) * (1 + vote.revision);
        let penalized: u64 = base_weight / penalty;
        if penalized < 100000 {
            100000
        } else {
            penalized
        }
    }
}

} // verus!
