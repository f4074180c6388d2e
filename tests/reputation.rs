use escrow_market::reputation::{ContractError, Feedback, ReputationContract, ReputationScore};

fn s(x: &str) -> String {
    x.to_string()
}

fn contract() -> ReputationContract {
    let mut c = ReputationContract::new();
    c.initialize(s("admin"), 200, 86400, 3600, 50).unwrap();
    c
}

/// Feedback from `from` to `to` at `now`, applied to the receiver's records.
fn feedback(
    c: &ReputationContract,
    received: &mut Vec<Feedback>,
    rep: &mut ReputationScore,
    from: &str,
    to: &str,
    is_positive: bool,
    weight: u32,
    reason: u32,
    now: u64,
) -> Result<(), ContractError> {
    let (record, updated) = c.record_feedback(&s(from), &s(to), is_positive, weight, reason, now, received, rep)?;
    received.push(record);
    *rep = updated;
    Ok(())
}

fn quest(c: &ReputationContract, rep: &mut ReputationScore, bits: &mut u32, points: u32, now: u64) {
    *rep = ReputationContract::record_quest_completion(rep, points, now);
    *bits = c.check_milestones(*bits, rep.total_score);
}

#[test]
fn test_initialization() {
    let c = contract();
    let reputation = c.get_reputation(&ReputationScore::new(0), 0);
    assert_eq!(reputation.total_score, 0);
}

#[test]
fn test_double_initialization() {
    let mut c = contract();
    assert_eq!(c.initialize(s("admin"), 200, 86400, 3600, 50), Err(ContractError::AlreadyInitialized));
}

#[test]
fn test_feedback_recording() {
    let c = contract();
    let mut received = Vec::new();
    let mut rep = ReputationScore::new(0);
    feedback(&c, &mut received, &mut rep, "player1", "player2", true, 10, 1, 0).unwrap();
    let reputation = c.get_reputation(&rep, 0);
    assert_eq!(reputation.positive_feedback, 1);
    assert_eq!(reputation.total_score, 10);
}

#[test]
fn test_self_feedback_prevention() {
    let c = contract();
    let mut received = Vec::new();
    let mut rep = ReputationScore::new(0);
    assert_eq!(
        feedback(&c, &mut received, &mut rep, "player1", "player1", true, 10, 1, 0),
        Err(ContractError::SelfFeedback)
    );
}

#[test]
fn test_rate_limiting() {
    let c = contract();
    let mut received = Vec::new();
    let mut rep = ReputationScore::new(0);
    feedback(&c, &mut received, &mut rep, "player1", "player2", true, 10, 1, 0).unwrap();
    assert_eq!(
        feedback(&c, &mut received, &mut rep, "player1", "player2", true, 10, 1, 0),
        Err(ContractError::RateLimitExceeded)
    );
    assert_eq!(feedback(&c, &mut received, &mut rep, "player1", "player2", true, 10, 1, 3600), Ok(()));
}

#[test]
fn test_reputation_calculation() {
    let c = contract();
    let mut rep = ReputationScore::new(0);
    let mut bits = 0;
    quest(&c, &mut rep, &mut bits, 100, 0);
    rep = ReputationContract::record_contribution(&rep, 50, 0);
    let score = c.calculate_score(&rep, 0);
    assert!(score > 0);
    assert_eq!(score, 30 + 10 + 10);
    let reputation = c.get_reputation(&rep, 0);
    assert_eq!(reputation.quests_completed, 100);
    assert_eq!(reputation.contributions, 50);
}

#[test]
fn test_milestone_achievement() {
    let c = contract();
    let mut rep = ReputationScore::new(0);
    let mut bits = 0;
    for _ in 0..10 {
        quest(&c, &mut rep, &mut bits, 15, 0);
    }
    assert!(ReputationContract::has_milestone(bits, 1));
    quest(&c, &mut rep, &mut bits, 200, 0);
    assert!(ReputationContract::has_milestone(bits, 2));
    assert!(!ReputationContract::has_milestone(bits, 3));
    assert!(!ReputationContract::has_milestone(bits, 0));
    assert!(!ReputationContract::has_milestone(u32::MAX, 33));
}

#[test]
fn test_reputation_decay() {
    let c = contract();
    let mut rep = ReputationScore::new(0);
    let mut bits = 0;
    quest(&c, &mut rep, &mut bits, 100, 0);
    let initial_score = c.get_reputation(&rep, 0).total_score;
    let decayed = c.get_reputation(&rep, 86400 * 2);
    assert!(decayed.total_score < initial_score);
    assert_eq!(decayed.total_score, 97);
    assert_eq!(decayed.last_activity, 86400 * 2);
}

#[test]
fn test_reputation_recovery() {
    let c = contract();
    let mut received = Vec::new();
    let mut rep = ReputationScore::new(0);
    feedback(&c, &mut received, &mut rep, "player2", "player1", false, 20, 1, 0).unwrap();
    let before = c.get_reputation(&rep, 0);
    let after = c.request_recovery(&before, 30, 0).unwrap();
    assert!(after.total_score > before.total_score);
    assert!(after.negative_feedback < before.negative_feedback);
}

#[test]
fn test_reputation_recovery_cap() {
    let c = contract();
    let initial = c.get_reputation(&ReputationScore::new(0), 0);
    let recovered = c.request_recovery(&initial, 100, 0).unwrap();
    assert_eq!(recovered.total_score, initial.total_score + 50);
}

#[test]
fn test_negative_feedback_impact() {
    let c = contract();
    let mut received = Vec::new();
    let mut rep = ReputationScore::new(0);
    let mut bits = 0;
    quest(&c, &mut rep, &mut bits, 100, 0);
    let before = c.get_reputation(&rep, 0);
    feedback(&c, &mut received, &mut rep, "player2", "player1", false, 30, 2, 0).unwrap();
    let after = c.get_reputation(&rep, 0);
    assert_eq!(after.negative_feedback, 1);
    assert!(after.total_score < before.total_score);
    assert_eq!(after.total_score, 70);
}

#[test]
fn uninitialized_ledger_refuses() {
    let c = ReputationContract::new();
    assert_eq!(c.get_config(), Err(ContractError::NotInitialized));
    assert_eq!(c.request_recovery(&ReputationScore::new(0), 5, 0), Err(ContractError::NotInitialized));
    assert_eq!(c.check_feedback_rate_limit(&Vec::new(), &s("a"), 0), Err(ContractError::NotInitialized));
}
