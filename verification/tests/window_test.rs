use verdyce::window::{VotingPhase, VotingWindow, WindowState};

fn now_seconds() -> i64 {
    chrono::Utc::now().timestamp()
}

#[test]
fn test_not_started_state() {
    let future_time = now_seconds() + 60;
    let window = VotingWindow::new(future_time, 120, 30);
    assert_eq!(window.state(now_seconds()), WindowState::NotStarted);
}

#[test]
fn test_open_state() {
    let start = now_seconds() - 10;
    let window = VotingWindow::new(start, 60, 30);
    assert_eq!(window.state(now_seconds()), WindowState::Open);
}

#[test]
fn test_expired_state() {
    let start = now_seconds() - 130;
    let window = VotingWindow::new(start, 60, 50);
    assert_eq!(window.state(now_seconds()), WindowState::Expired);
}

#[test]
fn test_extended_and_grace_states() {
    let start: i64 = 1000000;
    let mut window = VotingWindow::new(start, 60, 30);
    window.extend(40);
    assert_eq!(window.extended_by, 40);
    assert_eq!(window.total_duration(), 100);
    assert_eq!(window.state(start + 80), WindowState::Extended);
    assert_eq!(window.state(start + 101), WindowState::GracePeriod);
    assert_eq!(window.state(start + 130), WindowState::GracePeriod);
    assert_eq!(window.state(start + 131), WindowState::Expired);
}

#[test]
fn test_elapsed_clamps_before_start() {
    let window = VotingWindow::new(5000, 60, 30);
    assert_eq!(window.elapsed(4000), 0);
    assert_eq!(window.elapsed(5007), 7);
}

#[test]
fn test_phase_thirds() {
    let start: i64 = 0;
    let window = VotingWindow::new(start, 90, 0);
    assert_eq!(window.phase(30), VotingPhase::Early);
    assert_eq!(window.phase(31), VotingPhase::Mid);
    assert_eq!(window.phase(60), VotingPhase::Mid);
    assert_eq!(window.phase(61), VotingPhase::Late);
    assert_eq!(window.phase(5000), VotingPhase::Late);
}
