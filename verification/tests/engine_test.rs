use uuid::Uuid;
use verdyce::decay::DecayModel;
use verdyce::engine::Engine;
use verdyce::proposal::{Proposal, ProposalStatus};
use verdyce::threshold::ThresholdModel;
use verdyce::vote::{Vote, VoteChoice};

fn now_seconds() -> i64 {
    chrono::Utc::now().timestamp()
}

fn sample_proposal() -> Proposal {
    Proposal::new(
        "Test Proposal".into(),
        "Description".into(),
        60,
        DecayModel::Linear,
        ThresholdModel::Linear(500000, 0),
    )
}

fn sample_vote(choice: VoteChoice, seconds_ago: i64, revision: u64) -> Vote {
    Vote {
        validator_id: Uuid::new_v4().as_u128(),
        choice,
        timestamp: now_seconds() - seconds_ago,
        revision,
        reason: Some("test".into()),
    }
}

#[test]
fn test_add_and_get_proposal() {
    let mut engine = Engine::new();
    let proposal = sample_proposal();
    let id = proposal.id;

    engine.add_proposal(proposal);
    let retrieved = engine.get_proposal(id);

    assert!(retrieved.is_some());
    assert_eq!(retrieved.unwrap().id, id);
}

#[test]
fn test_cast_vote_success() {
    let mut engine = Engine::new();
    let proposal = sample_proposal();
    let id = proposal.id;
    engine.add_proposal(proposal);

    let vote = sample_vote(VoteChoice::Yes, 10, 0);
    let success = engine.cast_vote(id, vote);

    assert!(success);
    assert_eq!(engine.get_proposal(id).unwrap().votes.len(), 1);
}

#[test]
fn test_cast_vote_failure_invalid_id() {
    let mut engine = Engine::new();
    let vote = sample_vote(VoteChoice::Yes, 10, 0);

    let fake_id = Uuid::new_v4().as_u128();
    let result = engine.cast_vote(fake_id, vote);

    assert!(!result);
}

#[test]
fn test_evaluate_accept_proposal() {
    let mut engine = Engine::new();
    let mut proposal = sample_proposal();
    let id = proposal.id;

    let vote = sample_vote(VoteChoice::Yes, 5, 0);
    proposal.add_vote(vote);
    engine.add_proposal(proposal);

    let now = now_seconds();
    engine.evaluate_all(now);

    let status = engine.get_proposal(id).unwrap().status;
    assert_eq!(status, ProposalStatus::Accepted);
}

#[test]
fn test_evaluate_expired_proposal() {
    let mut engine = Engine::new();
    let mut proposal = sample_proposal();
    proposal.voting_window.start_time = now_seconds() - 120;
    let id = proposal.id;

    engine.add_proposal(proposal);
    engine.evaluate_all(now_seconds());

    let status = engine.get_proposal(id).unwrap().status;
    assert_eq!(status, ProposalStatus::Expired);
}

#[test]
fn test_maybe_extend_all() {
    let mut engine = Engine::new();
    let mut proposal = Proposal::new(
        "Test".into(),
        "Should Extend".into(),
        100,
        DecayModel::Linear,
        ThresholdModel::Linear(0, 600000),
    );

    proposal.voting_window.start_time = now_seconds() - 91;
    proposal.add_vote(Vote {
        validator_id: Uuid::new_v4().as_u128(),
        choice: VoteChoice::Yes,
        timestamp: now_seconds(),
        revision: 0,
        reason: None,
    });

    let id = proposal.id;
    engine.add_proposal(proposal);
    engine.maybe_extend_all(now_seconds(), 30, 900000, 900000);

    let proposal = engine.get_proposal(id).unwrap();
    assert_eq!(proposal.voting_window.extended_by, 30);
}

#[test]
fn test_cast_vote_rejected_when_not_pending() {
    // A vote on a proposal that already left Pending is silently refused.
    let mut engine = Engine::new();
    let mut proposal = sample_proposal();
    proposal.voting_window.start_time = now_seconds() - 120;
    let id = proposal.id;
    engine.add_proposal(proposal);
    engine.evaluate_all(now_seconds());
    assert_eq!(engine.get_proposal(id).unwrap().status, ProposalStatus::Expired);

    let vote = sample_vote(VoteChoice::Yes, 0, 0);
    assert!(!engine.cast_vote(id, vote));
    assert_eq!(engine.get_proposal(id).unwrap().votes.len(), 0);
}

#[test]
fn test_active_and_finalized_filters() {
    let mut engine = Engine::new();
    let open = sample_proposal();
    let open_id = open.id;
    let mut done = sample_proposal();
    done.voting_window.start_time = now_seconds() - 120;
    let done_id = done.id;

    engine.add_proposal(open);
    engine.add_proposal(done);
    engine.evaluate_all(now_seconds());

    let active = engine.get_active_proposals();
    assert_eq!(active.len(), 1);
    assert_eq!(active[0].id, open_id);

    let finalized = engine.get_finalized();
    assert_eq!(finalized.len(), 1);
    assert_eq!(finalized[0].id, done_id);
}

#[test]
fn test_get_proposal_first_match_wins() {
    let mut engine = Engine::new();
    let first = sample_proposal();
    let id = first.id;
    let mut second = sample_proposal();
    second.id = id;
    second.title = "Shadowed".into();

    engine.add_proposal(first);
    engine.add_proposal(second);

    assert_eq!(engine.get_proposal(id).unwrap().title, "Test Proposal");
}
