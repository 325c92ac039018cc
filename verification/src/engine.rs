//! The registry that coordinates many proposals.
//!
//! A thin fan-out over an ordered collection: votes are routed to the
//! first proposal with a matching identifier, and evaluation or
//! extension sweeps apply the per-proposal transition to every entry.

use vstd::prelude::*;

verus! {

use crate::proposal::{Proposal, ProposalStatus};
use crate::vote::Vote;
use crate::window::{MAX_DURATION, MAX_TIME};

/// Index of the first proposal with identifier `id`, or `-1` when none
/// matches.
pub open spec fn find_index(s: Seq<Proposal>, id: u128) -> int
    decreases s.len(),
{
    if s.len() == 0 {
        -1
    } else if s[0].id == id {
        0
    } else {
        let rest = find_index(s.drop_first(), id);
        if rest == -1 {
            -1
        } else {
            rest + 1
        }
    }
}

/// What `find_index` returns: either no entry matches, or the result is
/// the position of the first matching entry.
pub proof fn lemma_find_index_props(s: Seq<Proposal>, id: u128)
    ensures
        find_index(s, id) == -1 ==> forall|j: int|
            0 <= j < s.len() ==> (#[trigger] s[j]).id != id,
        find_index(s, id) != -1 ==> 0 <= find_index(s, id) < s.len() && s[find_index(s,
            id)].id == id && forall|j: int|
            0 <= j < find_index(s, id) ==> (#[trigger] s[j]).id != id,
    decreases s.len(),
{
    if s.len() > 0 && s[0].id != id {
        lemma_find_index_props(s.drop_first(), id);
        assert(forall|j: int|
            1 <= j < s.len() ==> #[trigger] s[j] == s.drop_first()[j - 1]);
    }
}

/// The proposals that are still pending, in registry order.
pub open spec fn pending_subseq(s: Seq<Proposal>) -> Seq<Proposal>
    decreases s.len(),
{
    if s.len() == 0 {
        Seq::empty()
    } else {
        let rest = pending_subseq(s.drop_last());
        if s.last().status is Pending {
            rest.push(s.last())
        } else {
            rest
        }
    }
}

/// The proposals that have reached a terminal state, in registry order.
pub open spec fn finalized_subseq(s: Seq<Proposal>) -> Seq<Proposal>
    decreases s.len(),
{
    if s.len() == 0 {
        Seq::empty()
    } else {
        let rest = finalized_subseq(s.drop_last());
        if s.last().status is Pending {
            rest
        } else {
            rest.push(s.last())
        }
    }
}

/// The registry of proposals under evaluation.
pub struct Engine {
    /// All proposals, in insertion order.
    pub proposals: Vec<Proposal>,
}

impl Default for Engine {
    fn default() -> (e: Engine)
        ensures
            e.proposals@.len() == 0,
            e.wf(),
    {
        Engine::new()
    }
}

impl Engine {
    /// Every stored proposal satisfies its well-formedness bounds.
    pub open spec fn wf(self) -> bool {
        forall|i: int| 0 <= i < self.proposals@.len() ==> (#[trigger] self.proposals@[i]).wf()
    }

    /// An empty registry.
    pub fn new() -> (e: Engine)
        ensures
            e.proposals@.len() == 0,
            e.wf(),
    {
        Engine { proposals: Vec::new() }
    }

    /// Stores one more proposal at the end of the registry.
    pub fn add_proposal(&mut self, proposal: Proposal)
        requires
            old(self).wf(),
            proposal.wf(),
        ensures
            final(self).proposals@ == old(self).proposals@.push(proposal),
            final(self).wf(),
    {
        self.proposals.push(proposal);
    }

    /// Routes a vote to the first proposal with identifier
    /// `proposal_id`.  Returns `false`, leaving the registry untouched,
    /// when no proposal matches or the matching one is no longer
    /// pending.
    pub fn cast_vote(&mut self, proposal_id: u128, vote: Vote) -> (ok: bool)
        requires
            old(self).wf(),
            -MAX_TIME <= vote.timestamp <= MAX_TIME,
        ensures
            final(self).wf(),
            ({
                let fi = find_index(old(self).proposals@, proposal_id);
                &&& ok == (fi != -1 && old(self).proposals@[fi].status is Pending)
                &&& !ok ==> final(self).proposals@ == old(self).proposals@
                &&& ok ==> {
                    &&& final(self).proposals@.len() == old(self).proposals@.len()
                    &&& final(self).proposals@[fi].votes@ == old(self).proposals@[fi].votes@
                        .push(vote)
                    &&& final(self).proposals@[fi].id == old(self).proposals@[fi].id
                    &&& final(self).proposals@[fi].status == old(self).proposals@[fi].status
                    &&& final(self).proposals@[fi].voting_window == old(self).proposals@[fi]
                        .voting_window
                    &&& final(self).proposals@[fi].decay_model == old(self).proposals@[fi]
                        .decay_model
                    &&& final(self).proposals@[fi].threshold_model == old(self)
                        .proposals@[fi].threshold_model
                    &&& forall|j: int|
                        0 <= j < old(self).proposals@.len() && j != fi
                            ==> final(self).proposals@[j] == old(self).proposals@[j]
                }
            }),
    {
        proof {
            lemma_find_index_props(self.proposals@, proposal_id);
        }
        let ghost s0 = self.proposals@;
        let n = self.proposals.len();
        let mut i: usize = 0;
        while i < n
            invariant
                0 <= i <= n,
                n == self.proposals@.len(),
                self.proposals@ == s0,
                old(self).proposals@ == s0,
                -MAX_TIME <= vote.timestamp <= MAX_TIME,
                forall|j: int| 0 <= j < n ==> (#[trigger] s0[j]).wf(),
                forall|j: int| 0 <= j < i ==> (#[trigger] s0[j]).id != proposal_id,
            decreases n - i,
        {
            if self.proposals[i].id == proposal_id {
                proof {
                    lemma_find_index_props(s0, proposal_id);
                }
                if self.proposals[i].status == ProposalStatus::Pending {
                    let mut p = self.proposals.remove(i);
                    p.add_vote(vote);
                    self.proposals.insert(i, p);
                    proof {
                        assert(self.proposals@ =~= s0.update(i as int,
                            self.proposals@[i as int]));
                    }
                    return true;
                } else {
                    return false;
                }
            }
            i = i + 1;
        }
        proof {
            lemma_find_index_props(s0, proposal_id);
        }
        false
    }

    /// Evaluates every proposal at `now`.
    pub fn evaluate_all(&mut self, now: i64)
        requires
            old(self).wf(),
            -MAX_TIME <= now <= MAX_TIME,
        ensures
            final(self).wf(),
            final(self).proposals@.len() == old(self).proposals@.len(),
            forall|j: int|
                0 <= j < old(self).proposals@.len() ==> final(self).proposals@[j] == (
                #[trigger] old(self).proposals@[j]).evaluated(now as int),
    {
        let ghost s0 = self.proposals@;
        let n = self.proposals.len();
        let mut i: usize = 0;
        while i < n
            invariant
                0 <= i <= n,
                n == s0.len(),
                old(self).proposals@ == s0,
                self.proposals@.len() == n,
                -MAX_TIME <= now <= MAX_TIME,
                forall|j: int|
                    0 <= j < i ==> self.proposals@[j] == (#[trigger] s0[j]).evaluated(
                        now as int),
                forall|j: int| i <= j < n ==> #[trigger] self.proposals@[j] == s0[j],
                forall|j: int| 0 <= j < n ==> (#[trigger] self.proposals@[j]).wf(),
            decreases n - i,
        {
            let ghost pre = self.proposals@;
            let mut p = self.proposals.remove(i);
            p.evaluate(now);
            self.proposals.insert(i, p);
            proof {
                assert(self.proposals@ =~= pre.update(i as int, self.proposals@[i as int]));
            }
            i = i + 1;
        }
    }

    /// Tries to extend every proposal's window at `now` with the given
    /// proximity factors (in ppm).
    pub fn maybe_extend_all(&mut self, now: i64, extension_seconds: u64,
        threshold_proximity: u64, time_proximity: u64)
        requires
            old(self).wf(),
            -MAX_TIME <= now <= MAX_TIME,
            forall|j: int|
                0 <= j < old(self).proposals@.len() ==> (#[trigger] old(self).proposals@[j])
                    .voting_window.extended_by + extension_seconds <= MAX_DURATION,
        ensures
            final(self).wf(),
            final(self).proposals@.len() == old(self).proposals@.len(),
            forall|j: int|
                0 <= j < old(self).proposals@.len() ==> final(self).proposals@[j] == (
                #[trigger] old(self).proposals@[j]).extended(now as int,
                    extension_seconds as int, threshold_proximity as int,
                    time_proximity as int),
    {
        let ghost s0 = self.proposals@;
        let n = self.proposals.len();
        let mut i: usize = 0;
        while i < n
            invariant
                0 <= i <= n,
                n == s0.len(),
                old(self).proposals@ == s0,
                self.proposals@.len() == n,
                -MAX_TIME <= now <= MAX_TIME,
                forall|j: int|
                    0 <= j < n ==> (#[trigger] s0[j]).voting_window.extended_by
                        + extension_seconds <= MAX_DURATION,
                forall|j: int|
                    0 <= j < i ==> self.proposals@[j] == (#[trigger] s0[j]).extended(
                        now as int, extension_seconds as int, threshold_proximity as int,
                        time_proximity as int),
                forall|j: int| i <= j < n ==> #[trigger] self.proposals@[j] == s0[j],
                forall|j: int| 0 <= j < n ==> (#[trigger] self.proposals@[j]).wf(),
            decreases n - i,
        {
            let ghost pre = self.proposals@;
            let mut p = self.proposals.remove(i);
            p.extend_window(now, extension_seconds, threshold_proximity, time_proximity);
            self.proposals.insert(i, p);
            proof {
                assert(self.proposals@ =~= pre.update(i as int, self.proposals@[i as int]));
            }
            i = i + 1;
        }
    }

    /// The proposals still accepting votes, in registry order.
    pub fn get_active_proposals(&self) -> (r: Vec<&Proposal>)
        ensures
            r@.len() == pending_subseq(self.proposals@).len(),
            forall|k: int|
                0 <= k < r@.len() ==> *(#[trigger] r@[k]) == pending_subseq(
                    self.proposals@)[k],
    {
        let mut r: Vec<&Proposal> = Vec::new();
        let n = self.proposals.len();
        let mut i: usize = 0;
        while i < n
            invariant
                0 <= i <= n,
                n == self.proposals@.len(),
                r@.len() == pending_subseq(self.proposals@.take(i as int)).len(),
                forall|k: int|
                    0 <= k < r@.len() ==> *(#[trigger] r@[k]) == pending_subseq(
                        self.proposals@.take(i as int))[k],
            decreases n - i,
        {
            proof {
                assert(self.proposals@.take(i + 1 as int).drop_last() =~= self.proposals@
                    .take(i as int));
            }
            if self.proposals[i].status == ProposalStatus::Pending {
                r.push(&self.proposals[i]);
            }
            i = i + 1;
        }
        proof {
            assert(self.proposals@.take(n as int) =~= self.proposals@);
        }
        r
    }

    /// The proposals that have reached a terminal state, in registry
    /// order.
    pub fn get_finalized(&self) -> (r: Vec<&Proposal>)
        ensures
            r@.len() == finalized_subseq(self.proposals@).len(),
            forall|k: int|
                0 <= k < r@.len() ==> *(#[trigger] r@[k]) == finalized_subseq(
                    self.proposals@)[k],
    {
        let mut r: Vec<&Proposal> = Vec::new();
        let n = self.proposals.len();
        let mut i: usize = 0;
        while i < n
            invariant
                0 <= i <= n,
                n == self.proposals@.len(),
                r@.len() == finalized_subseq(self.proposals@.take(i as int)).len(),
                forall|k: int|
                    0 <= k < r@.len() ==> *(#[trigger] r@[k]) == finalized_subseq(
                        self.proposals@.take(i as int))[k],
            decreases n - i,
        {
            proof {
                assert(self.proposals@.take(i + 1 as int).drop_last() =~= self.proposals@
                    .take(i as int));
            }
            let keep = match self.proposals[i].status {
                ProposalStatus::Accepted => true,
                ProposalStatus::Rejected => true,
                ProposalStatus::Expired => true,
                ProposalStatus::Pending => false,
            };
            if keep {
                r.push(&self.proposals[i]);
            }
            i = i + 1;
        }
        proof {
            assert(self.proposals@.take(n as int) =~= self.proposals@);
        }
        r
    }

    /// The first proposal with identifier `proposal_id`, if any.
    pub fn get_proposal(&self, proposal_id: u128) -> (r: Option<&Proposal>)
        ensures
            ({
                let fi = find_index(self.proposals@, proposal_id);
                match r {
                    Some(p) => fi != -1 && *p == self.proposals@[fi],
                    None => fi == -1,
                }
            }),
    {
        proof {
            lemma_find_index_props(self.proposals@, proposal_id);
        }
        let n = self.proposals.len();
        let mut i: usize = 0;
        while i < n
            invariant
                0 <= i <= n,
                n == self.proposals@.len(),
                forall|j: int|
                    0 <= j < i ==> (#[trigger] self.proposals@[j]).id != proposal_id,
            decreases n - i,
        {
            if self.proposals[i].id == proposal_id {
                proof {
                    lemma_find_index_props(self.proposals@, proposal_id);
                }
                return Some(&self.proposals[i]);
            }
            i = i + 1;
        }
        None
    }
}

} // verus!
