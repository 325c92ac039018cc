//! Proposals and their evaluation state machine.
//!
//! A proposal owns a voting window, a decay model, a threshold model and
//! an ordered list of votes.  Its status starts `Pending` and moves at
//! most once, to `Accepted`, `Rejected` or `Expired`; the terminal states
//! are never left.

use vstd::prelude::*;

verus! {

use crate::decay::DecayModel;
use crate::threshold::{threshold_calc, threshold_value, ThresholdModel};
use crate::vote::{calculate_vote_weight, vote_weight, Vote, VoteChoice};
use crate::window::{VotingWindow, MAX_DURATION, MAX_TIME};
use vstd::arithmetic::div_mod::{lemma_div_is_ordered, lemma_div_multiples_vanish,
    lemma_div_pos_is_pos};
use vstd::arithmetic::mul::{lemma_mul_is_commutative, lemma_mul_nonnegative,
    lemma_mul_upper_bound};

/// Grace period, in seconds, granted to every newly created proposal.
pub const NEW_PROPOSAL_GRACE_SECONDS: u64 = 30;

/// Lifecycle status of a proposal.  `Pending` is the only state with
/// outgoing transitions.
#[derive(Clone, Copy, Debug, PartialEq, Eq, Structural)]
pub enum ProposalStatus {
    /// Actively accepting votes.
    Pending,
    /// Met the approval threshold inside the voting window.
    Accepted,
    /// Reached the end of the window without meeting the threshold.
    Rejected,
    /// Ran past the grace period without resolution.
    Expired,
}

/// A governance proposal with its voting configuration and state.
#[derive(Clone, Debug)]
pub struct Proposal {
    /// Unique identifier (assumed globally unique, e.g. a random
    /// 128-bit value).
    pub id: u128,
    /// Human-readable title.
    pub title: String,
    /// Detailed description.
    pub description: String,
    /// Creation timestamp, in seconds since the epoch.
    pub created_at: i64,
    /// All votes cast, in arrival order; never deduplicated.
    pub votes: Vec<Vote>,
    /// Current lifecycle status.
    pub status: ProposalStatus,
    /// Timing state of the voting period.
    pub voting_window: VotingWindow,
    /// How vote weights decay over time.
    pub decay_model: DecayModel,
    /// How the approval threshold grows over time.
    pub threshold_model: ThresholdModel,
}

/// Combined ppm weight of the `Yes` votes in `votes`.
pub open spec fn yes_weight_sum(votes: Seq<Vote>, start: int, total: int,
    model: DecayModel) -> int
    decreases votes.len(),
{
    if votes.len() == 0 {
        0
    } else {
        yes_weight_sum(votes.drop_last(), start, total, model) + (
        if votes.last().choice is Yes {
            vote_weight(votes.last(), start, total, model)
        } else {
            0
        })
    }
}

/// Combined ppm weight of the `Yes` and `No` votes in `votes`; abstain
/// counts toward neither side.
pub open spec fn counted_weight_sum(votes: Seq<Vote>, start: int, total: int,
    model: DecayModel) -> int
    decreases votes.len(),
{
    if votes.len() == 0 {
        0
    } else {
        counted_weight_sum(votes.drop_last(), start, total, model) + (
        if votes.last().choice is Yes || votes.last().choice is No {
            vote_weight(votes.last(), start, total, model)
        } else {
            0
        })
    }
}

impl Proposal {
    /// Field bounds and model preconditions under which evaluation is
    /// exact: window fields and vote timestamps in range, a non-negative
    /// exponential decay rate, and a positive effective duration for the
    /// models that divide by it.
    pub open spec fn wf(self) -> bool {
        &&& self.voting_window.wf()
        &&& forall|i: int|
            0 <= i < self.votes@.len() ==> -MAX_TIME <= (#[trigger] self.votes@[i]).timestamp
                <= MAX_TIME
        &&& (self.decay_model matches DecayModel::Exponential(rate) ==> rate >= 0)
        &&& ((self.decay_model is Linear || self.threshold_model is Sigmoid)
            ==> self.voting_window.spec_total() > 0)
    }

    /// The weighted approval ratio in ppm: yes weight over yes-plus-no
    /// weight, or zero when no `Yes` or `No` vote has been cast.
    pub open spec fn spec_ratio(self) -> int {
        let start = self.voting_window.start_time as int;
        let total = self.voting_window.spec_total();
        let yes = yes_weight_sum(self.votes@, start, total, self.decay_model);
        let counted = counted_weight_sum(self.votes@, start, total, self.decay_model);
        if counted > 0 {
            yes * 1000000 / counted
        } else {
            0
        }
    }

    /// The status a pending proposal moves to when evaluated at `now`:
    /// expiry past the grace cutoff wins over everything, acceptance
    /// requires the ratio to meet the threshold strictly inside the
    /// window, and reaching the end of the window otherwise rejects.
    pub open spec fn next_status(self, now: int) -> ProposalStatus {
        let e = self.voting_window.spec_elapsed(now);
        let total = self.voting_window.spec_total();
        if e >= total + self.voting_window.grace_period {
            ProposalStatus::Expired
        } else if e < total && self.spec_ratio() >= threshold_value(self.threshold_model, e,
            total) {
            ProposalStatus::Accepted
        } else if e >= total {
            ProposalStatus::Rejected
        } else {
            ProposalStatus::Pending
        }
    }

    /// The proposal after one `evaluate` call at `now`: only a pending
    /// proposal changes, and only its status.
    pub open spec fn evaluated(self, now: int) -> Proposal {
        if self.status is Pending {
            Proposal { status: self.next_status(now), ..self }
        } else {
            self
        }
    }

    /// Whether a pending proposal earns an extension at `now`: its ratio
    /// reaches `threshold_proximity` (ppm) of the threshold and its
    /// elapsed time reaches `time_proximity` (ppm) of the total.
    pub open spec fn extension_granted(self, now: int, threshold_proximity: int,
        time_proximity: int) -> bool {
        let e = self.voting_window.spec_elapsed(now);
        let total = self.voting_window.spec_total();
        let th = threshold_value(self.threshold_model, e, total);
        &&& self.spec_ratio() * 1000000 >= th * threshold_proximity
        &&& e * 1000000 >= total * time_proximity
    }

    /// The proposal after one `extend_window` call: at most the
    /// accumulated extension grows; the status never changes.
    pub open spec fn extended(self, now: int, extension_seconds: int,
        threshold_proximity: int, time_proximity: int) -> Proposal {
        if self.status is Pending && self.extension_granted(now, threshold_proximity,
            time_proximity) {
            Proposal {
                voting_window: VotingWindow {
                    extended_by: (self.voting_window.extended_by + extension_seconds) as u64,
                    ..self.voting_window
                },
                ..self
            }
        } else {
            self
        }
    }

    /// Creates a pending proposal whose voting window starts now and
    /// runs for `duration` seconds, with the standard grace period.
    pub fn new(title: String, description: String, duration: u64, decay_model: DecayModel,
        threshold_model: ThresholdModel) -> (p: Proposal)
        requires
            duration <= MAX_DURATION,
            decay_model is Linear ==> duration > 0,
            threshold_model is Sigmoid ==> duration > 0,
            decay_model matches DecayModel::Exponential(rate) ==> rate >= 0,
        ensures
            p.wf(),
            p.title == title,
            p.description == description,
            p.status is Pending,
            p.votes@.len() == 0,
            p.voting_window.start_time == p.created_at,
            0 <= p.created_at <= MAX_TIME,
            p.voting_window.duration == duration,
            p.voting_window.grace_period == NEW_PROPOSAL_GRACE_SECONDS,
            p.voting_window.extended_by == 0,
            p.decay_model == decay_model,
            p.threshold_model == threshold_model,
    {
        let t = now_seconds();
        let now: i64 = if t < 0 {
            0
        } else if t > MAX_TIME {
            MAX_TIME
        } else {
            t
        };
        Proposal {
            id: fresh_id(),
            title,
            description,
            created_at: now,
            votes: Vec::new(),
            status: ProposalStatus::Pending,
            voting_window: VotingWindow::new(now, duration, NEW_PROPOSAL_GRACE_SECONDS),
            decay_model,
            threshold_model,
        }
    }

    /// Appends a vote; every entry is kept and counted, revisions
    /// included.
    pub fn add_vote(&mut self, vote: Vote)
        requires
            old(self).wf(),
            -MAX_TIME <= vote.timestamp <= MAX_TIME,
        ensures
            final(self).votes@ == old(self).votes@.push(vote),
            final(self).id == old(self).id,
            final(self).title == old(self).title,
            final(self).description == old(self).description,
            final(self).created_at == old(self).created_at,
            final(self).status == old(self).status,
            final(self).voting_window == old(self).voting_window,
            final(self).decay_model == old(self).decay_model,
            final(self).threshold_model == old(self).threshold_model,
            final(self).wf(),
    {
        self.votes.push(vote);
    }

    /// Calculates the weighted approval ratio, in ppm.
    pub fn current_approval_ratio(&self) -> (r: u64)
        requires
            self.wf(),
        ensures
            r as int == self.spec_ratio(),
            r <= 1000000,
    {
        let ghost start: int = self.voting_window.start_time as int;
        let ghost gtotal: int = self.voting_window.spec_total();
        let mut yes_weight: u128 = 0;
        let mut total_weight: u128 = 0;
        let total = self.voting_window.total_duration();
        let n = self.votes.len();
        let mut i: usize = 0;
        while i < n
            invariant
                0 <= i <= n,
                n == self.votes.len(),
                self.wf(),
                start == self.voting_window.start_time as int,
                gtotal == self.voting_window.spec_total(),
                total as int == gtotal,
                yes_weight as int == yes_weight_sum(self.votes@.take(i as int), start, gtotal,
                    self.decay_model),
                total_weight as int == counted_weight_sum(self.votes@.take(i as int), start,
                    gtotal, self.decay_model),
                yes_weight <= total_weight,
                total_weight as int <= i * 1000000,
            decreases n - i,
        {
            let v: &Vote = &self.votes[i];
            let w = calculate_vote_weight(v, self.voting_window.start_time, total,
                &self.decay_model);
            proof {
                assert(self.votes@.take(i + 1 as int).drop_last() =~= self.votes@.take(
                    i as int));
                assert(self.votes@.take(i + 1 as int).last() == self.votes@[i as int]);
            }
            match v.choice {
                VoteChoice::Yes => {
                    yes_weight = yes_weight + w as u128;
                    total_weight = total_weight + w as u128;
                },
                VoteChoice::No => {
                    total_weight = total_weight + w as u128;
                },
                VoteChoice::Abstain => {},
            }
            i = i + 1;
        }
        proof {
            assert(self.votes@.take(n as int) =~= self.votes@);
        }
        if total_weight > 0 {
            proof {
                lemma_div_pos_is_pos((yes_weight as int) * 1000000, total_weight as int);
                lemma_mul_is_commutative(total_weight as int, 1000000);
                lemma_div_is_ordered((yes_weight as int) * 1000000,
                    (total_weight as int) * 1000000, total_weight as int);
                lemma_div_multiples_vanish(1000000, total_weight as int);
            }
            ((yes_weight * 1000000) / total_weight) as u64
        } else {
            0
        }
    }

    /// Evaluates the proposal at `now` and applies the status transition;
    /// a proposal that has already left `Pending` is untouched.
    pub fn evaluate(&mut self, now: i64)
        requires
            old(self).wf(),
            -MAX_TIME <= now <= MAX_TIME,
        ensures
            *final(self) == old(self).evaluated(now as int),
            final(self).wf(),
    {
        if self.status != ProposalStatus::Pending {
            return;
        }
        let elapsed = self.voting_window.elapsed(now);
        let total = self.voting_window.total_duration();
        let grace_cutoff = total + self.voting_window.grace_period;
        if elapsed >= grace_cutoff {
            self.status = ProposalStatus::Expired;
            return;
        }
        let threshold = threshold_calc(&self.threshold_model, elapsed, total);
        let approval_ratio = self.current_approval_ratio();
        if elapsed < total && approval_ratio >= threshold {
            self.status = ProposalStatus::Accepted;
        } else if elapsed >= total {
            self.status = ProposalStatus::Rejected;
        }
    }

    /// Extends the voting window by `extension_seconds` if the proposal
    /// is pending and close enough to both the threshold and the time
    /// limit; the status itself never changes here.
    pub fn extend_window(&mut self, now: i64, extension_seconds: u64,
        threshold_proximity: u64, time_proximity: u64)
        requires
            old(self).wf(),
            -MAX_TIME <= now <= MAX_TIME,
            old(self).voting_window.extended_by + extension_seconds <= MAX_DURATION,
        ensures
            *final(self) == old(self).extended(now as int, extension_seconds as int,
                threshold_proximity as int, time_proximity as int),
            final(self).wf(),
    {
        if self.status != ProposalStatus::Pending {
            return;
        }
        let elapsed = self.voting_window.elapsed(now);
        let total = self.voting_window.total_duration();
        let threshold = threshold_calc(&self.threshold_model, elapsed, total);
        let approval_ratio = self.current_approval_ratio();
        proof {
            lemma_mul_upper_bound(approval_ratio as int, 1000000, 1000000, 1000000);
            lemma_mul_upper_bound(threshold as int, 1000000,
                threshold_proximity as int, 0xFFFFFFFFFFFFFFFF);
            lemma_mul_upper_bound(elapsed as int, 0xFFFFFFFFFFFFFFFF, 1000000, 1000000);
            lemma_mul_upper_bound(total as int, 0xFFFFFFFFFFFFFFFF, time_proximity as int,
                0xFFFFFFFFFFFFFFFF);
            lemma_mul_nonnegative(threshold as int, threshold_proximity as int);
            lemma_mul_nonnegative(total as int, time_proximity as int);
        }
        let near_threshold = (approval_ratio as u128) * 1000000 >= (threshold as u128)
            * (threshold_proximity as u128);
        let near_expiry = (elapsed as u128) * 1000000 >= (total as u128)
            * (time_proximity as u128);
        if near_threshold && near_expiry {
            self.voting_window.extend(extension_seconds);
        }
    }
}

/// Terminal states are stable: once a proposal has left `Pending`,
/// neither evaluation nor window extension changes it at all, and an
/// extension never changes any proposal's status.
pub proof fn lemma_terminal_status_stable(p: Proposal, now: int, extension_seconds: int,
    threshold_proximity: int, time_proximity: int)
    ensures
        !(p.status is Pending) ==> p.evaluated(now) == p,
        !(p.status is Pending) ==> p.extended(now, extension_seconds, threshold_proximity,
            time_proximity) == p,
        p.extended(now, extension_seconds, threshold_proximity, time_proximity).status
            == p.status,
        p.evaluated(now).status is Pending ==> p.status is Pending,
{
}

/// Relies on chrono's `Utc::now`: the wall-clock time now, as whole
/// seconds since the Unix epoch.  Nothing is assumed of the value.
#[verifier::external_body]
fn now_seconds() -> i64 {
    chrono::Utc::now().timestamp()
}

/// Relies on uuid's `Uuid::new_v4`: a freshly drawn random identifier,
/// carried as its 128-bit value.  Nothing is assumed of the value.
#[verifier::external_body]
fn fresh_id() -> u128 {
    uuid::Uuid::new_v4().as_u128()
}

} // verus!
