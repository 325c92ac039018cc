use uuid::Uuid;
use verdyce::decay::DecayModel;
use verdyce::proposal::{Proposal, ProposalStatus};
use verdyce::threshold::ThresholdModel;
use verdyce::vote::{Vote, VoteChoice};

fn now_seconds() -> i64 {
    chrono::Utc::now().timestamp()
}

fn dummy_vote(choice: VoteChoice, timestamp_offset_secs: i64, revision: u64) -> Vote {
    Vote {
        validator_id: Uuid::new_v4().as_u128(),
        choice,
        timestamp: now_seconds() - timestamp_offset_secs,
        revision,
        reason: None,
    }
}

#[test]
fn test_proposal_accepts_with_enough_yes_votes() {
    let now = now_seconds();

    let mut proposal = Proposal::new(
        "Test".to_string(),
        "Desc".to_string(),
        600,
        DecayModel::Linear,
        ThresholdModel::Linear(0, 500000),
    );

    proposal.add_vote(dummy_vote(VoteChoice::Yes, 0, 0));
    proposal.add_vote(dummy_vote(VoteChoice::Yes, 0, 0));
    proposal.add_vote(dummy_vote(VoteChoice::No, 0, 0));

    proposal.evaluate(now + 60);

    assert_eq!(proposal.status, ProposalStatus::Accepted);
}

#[test]
fn test_proposal_expires_if_not_enough_votes() {
    let now = now_seconds();

    let mut proposal = Proposal::new(
        "Test".to_string(),
        "Desc".to_string(),
        300,
        DecayModel::Linear,
        ThresholdModel::Linear(0, 700000),
    );

    proposal.voting_window.start_time = now - 600;

    proposal.add_vote(dummy_vote(VoteChoice::Yes, 0, 0));
    proposal.add_vote(dummy_vote(VoteChoice::No, 0, 0));

    proposal.evaluate(now);

    assert_eq!(proposal.status, ProposalStatus::Expired);
}

#[test]
fn test_proposal_stays_pending_if_not_enough_yes_yet() {
    let now = now_seconds();

    let mut proposal = Proposal::new(
        "Test".to_string(),
        "Desc".to_string(),
        500,
        DecayModel::Linear,
        ThresholdModel::Linear(10000, 500000),
    );

    proposal.add_vote(dummy_vote(VoteChoice::Yes, 0, 0));
    proposal.add_vote(dummy_vote(VoteChoice::No, 0, 0));

    proposal.evaluate(now + 100);

    assert_eq!(proposal.status, ProposalStatus::Pending);
}

#[test]
fn test_extend_when_near_threshold_and_time() {
    let now = now_seconds();
    let mut proposal = Proposal::new(
        "Extend?".into(),
        "testing...".into(),
        100,
        DecayModel::Linear,
        ThresholdModel::Linear(0, 600000),
    );

    proposal.voting_window.start_time = now - 91;
    proposal.add_vote(Vote {
        validator_id: Uuid::new_v4().as_u128(),
        choice: VoteChoice::Yes,
        timestamp: now,
        revision: 0,
        reason: None,
    });

    proposal.extend_window(now, 30, 900000, 900000);
    assert_eq!(proposal.voting_window.extended_by, 30);
}

#[test]
fn test_rejected_at_window_end() {
    // Exactly at the end of the window an unmet threshold rejects:
    // acceptance needs strictly less than the total.
    let now = now_seconds();
    let mut proposal = Proposal::new(
        "Test".to_string(),
        "Desc".to_string(),
        300,
        DecayModel::Linear,
        ThresholdModel::Linear(0, 700000),
    );
    proposal.voting_window.start_time = now - 300;
    proposal.add_vote(dummy_vote(VoteChoice::Yes, 0, 0));
    proposal.add_vote(dummy_vote(VoteChoice::No, 0, 0));
    proposal.evaluate(now);
    assert_eq!(proposal.status, ProposalStatus::Rejected);
}

#[test]
fn test_terminal_status_never_changes() {
    // Once accepted, later evaluations and extensions are no-ops.
    let now = now_seconds();
    let mut proposal = Proposal::new(
        "Test".to_string(),
        "Desc".to_string(),
        600,
        DecayModel::Linear,
        ThresholdModel::Linear(0, 500000),
    );
    proposal.add_vote(dummy_vote(VoteChoice::Yes, 0, 0));
    proposal.evaluate(now + 60);
    assert_eq!(proposal.status, ProposalStatus::Accepted);

    proposal.evaluate(now + 100000);
    assert_eq!(proposal.status, ProposalStatus::Accepted);
    proposal.extend_window(now + 599, 30, 0, 0);
    assert_eq!(proposal.voting_window.extended_by, 0);
    assert_eq!(proposal.status, ProposalStatus::Accepted);
}

#[test]
fn test_extension_needs_both_conditions() {
    // Near the threshold but early in the window: no extension.
    let now = now_seconds();
    let mut proposal = Proposal::new(
        "Test".to_string(),
        "Desc".to_string(),
        100,
        DecayModel::Linear,
        ThresholdModel::Linear(0, 600000),
    );
    proposal.voting_window.start_time = now - 10;
    proposal.add_vote(Vote {
        validator_id: Uuid::new_v4().as_u128(),
        choice: VoteChoice::Yes,
        timestamp: now,
        revision: 0,
        reason: None,
    });
    proposal.extend_window(now, 30, 900000, 900000);
    assert_eq!(proposal.voting_window.extended_by, 0);
}

#[test]
fn test_ratio_counts_every_entry_and_skips_abstain() {
    // Two entries by one validator both count; abstain counts nowhere.
    let now = now_seconds();
    let mut proposal = Proposal::new(
        "Test".to_string(),
        "Desc".to_string(),
        600,
        DecayModel::Linear,
        ThresholdModel::Linear(0, 500000),
    );
    let shared = Uuid::new_v4().as_u128();
    let start = proposal.voting_window.start_time;
    let vote = |choice: VoteChoice, revision: u64| Vote {
        validator_id: shared,
        choice,
        timestamp: start,
        revision,
        reason: None,
    };
    proposal.add_vote(vote(VoteChoice::Yes, 0));
    proposal.add_vote(vote(VoteChoice::No, 1));
    proposal.add_vote(vote(VoteChoice::Abstain, 0));
    // Yes at weight 1.0, the revised No at 0.25, abstain ignored:
    // 1.0 / 1.25 = 0.8.
    assert_eq!(proposal.current_approval_ratio(), 800000);
}
