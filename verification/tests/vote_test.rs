use uuid::Uuid;
use verdyce::decay::DecayModel;
use verdyce::vote::{calculate_vote_weight, choice_from_text, Vote, VoteChoice};

fn now_seconds() -> i64 {
    chrono::Utc::now().timestamp()
}

#[test]
fn test_vote_at_start_no_revision() {
    let now = now_seconds();
    let vote = Vote {
        validator_id: Uuid::new_v4().as_u128(),
        choice: VoteChoice::Yes,
        timestamp: now,
        revision: 0,
        reason: None,
    };

    let model = DecayModel::Linear;
    let weight = calculate_vote_weight(&vote, now, 1800, &model);
    assert!((weight as i64 - 1000000).abs() < 10000);
}

#[test]
fn test_vote_halfway_with_revision() {
    let now = now_seconds();
    let timestamp = now + 900; // 900s = halfway
    let vote = Vote {
        validator_id: Uuid::new_v4().as_u128(),
        choice: VoteChoice::No,
        timestamp,
        revision: 1,
        reason: Some("Changed mind".to_string()),
    };
    let model = DecayModel::Linear;
    let weight = calculate_vote_weight(&vote, now, 1800, &model);
    // Without penalty: 0.5, penalty: /4 => 0.125
    assert!((weight as i64 - 125000).abs() < 10000);
}

#[test]
fn test_vote_near_expiry_high_revision() {
    let now = now_seconds();
    let timestamp = now - 1700; // near end
    let vote = Vote {
        validator_id: Uuid::new_v4().as_u128(),
        choice: VoteChoice::Abstain,
        timestamp,
        revision: 3,
        reason: Some("Unstable".to_string()),
    };

    let model = DecayModel::Linear;
    let weight = calculate_vote_weight(&vote, now, 1800, &model);
    // The quadratic penalty drives the weight to the 0.1 floor.
    assert!((weight as i64 - 100000).abs() < 1000);
}

#[test]
fn test_revision_penalty_meets_floor() {
    // Near the end of the window the decay curve has already floored the
    // base at 0.1; three revisions would push it to about 0.006, so the
    // floor wins again and the weight stays 0.1.
    let start: i64 = 1000;
    let vote = Vote {
        validator_id: 7,
        choice: VoteChoice::Yes,
        timestamp: start + 1700,
        revision: 3,
        reason: None,
    };
    let base = calculate_vote_weight(
        &Vote { revision: 0, ..vote.clone() },
        start,
        1800,
        &DecayModel::Linear,
    );
    assert_eq!(base, 100000);
    let weight = calculate_vote_weight(&vote, start, 1800, &DecayModel::Linear);
    assert_eq!(weight, 100000);
}

#[test]
fn test_revision_zero_and_one_against_raw_decay() {
    // Revision 0 reproduces the raw decay value; revision 1 quarters it.
    let start: i64 = 0;
    let raw = Vote {
        validator_id: 1,
        choice: VoteChoice::Yes,
        timestamp: 900,
        revision: 0,
        reason: None,
    };
    let revised = Vote { revision: 1, ..raw.clone() };
    let w0 = calculate_vote_weight(&raw, start, 1800, &DecayModel::Linear);
    let w1 = calculate_vote_weight(&revised, start, 1800, &DecayModel::Linear);
    assert_eq!(w0, 500000);
    assert_eq!(w1, 125000);
}

#[test]
fn test_early_timestamp_collapses_to_full_weight() {
    // A vote stamped before the voting window began reads as elapsed 0.
    let start: i64 = 5000;
    let vote = Vote {
        validator_id: 2,
        choice: VoteChoice::Yes,
        timestamp: start - 900,
        revision: 0,
        reason: None,
    };
    let weight = calculate_vote_weight(&vote, start, 1800, &DecayModel::Linear);
    assert_eq!(weight, 1000000);
}

#[test]
fn test_choice_from_text() {
    assert_eq!(choice_from_text("yes"), Some(VoteChoice::Yes));
    assert_eq!(choice_from_text("no"), Some(VoteChoice::No));
    assert_eq!(choice_from_text("abstain"), Some(VoteChoice::Abstain));
    assert_eq!(choice_from_text("maybe"), None);
    assert_eq!(choice_from_text(""), None);
}
