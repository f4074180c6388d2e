use escrow_market::daily_rewards::{DailyRewardsContract, UserStreak, DAY_IN_LEDGERS, GRACE_PERIOD_LEDGERS};

fn claim(data: &mut UserStreak, ledger: u32) -> u32 {
    assert!(DailyRewardsContract::can_claim(data, ledger), "Already claimed today");
    let (next, reward) = DailyRewardsContract::claim_daily(data, ledger, 0);
    *data = next;
    reward
}

#[test]
fn test_initialize() {
    let data = UserStreak::new();
    assert_eq!(data.current_streak, 0);
    assert_eq!(data.total_logins, 0);
}

#[test]
fn test_first_login() {
    let mut data = UserStreak::new();
    let reward = claim(&mut data, 0);
    assert_eq!(reward, 100);
    assert_eq!(data.current_streak, 1);
    assert_eq!(data.total_logins, 1);
}

#[test]
fn test_consecutive_days_streak() {
    let mut data = UserStreak::new();
    let reward1 = claim(&mut data, 0);
    assert_eq!(reward1, 100);
    let reward2 = claim(&mut data, DAY_IN_LEDGERS);
    assert_eq!(reward2, 150);
    assert_eq!(data.current_streak, 2);
}

#[test]
fn test_week_milestone_bonus() {
    let mut data = UserStreak::new();
    let mut ledger: u32 = 0;
    for day in 0..7 {
        if day > 0 {
            ledger += DAY_IN_LEDGERS;
        }
        let reward = claim(&mut data, ledger);
        if day == 6 {
            assert_eq!(reward, 400 + 500);
        }
    }
    assert_eq!(data.current_streak, 7);
}

#[test]
fn test_grace_period_maintains_streak() {
    let mut data = UserStreak::new();
    claim(&mut data, 0);
    let ledger = DAY_IN_LEDGERS + 4000;
    assert!(DailyRewardsContract::is_in_grace_period(&data, ledger));
    claim(&mut data, ledger);
    assert_eq!(data.current_streak, 2);
}

#[test]
fn test_streak_reset_after_grace_period() {
    let mut data = UserStreak::new();
    claim(&mut data, 0);
    claim(&mut data, DAY_IN_LEDGERS + GRACE_PERIOD_LEDGERS + 100);
    assert_eq!(data.current_streak, 1);
}

#[test]
fn test_can_claim_check() {
    let mut data = UserStreak::new();
    assert!(DailyRewardsContract::can_claim(&data, 0));
    claim(&mut data, 0);
    assert!(!DailyRewardsContract::can_claim(&data, 0));
    assert!(DailyRewardsContract::can_claim(&data, DAY_IN_LEDGERS));
}

#[test]
fn test_preview_next_reward() {
    let mut data = UserStreak::new();
    claim(&mut data, 0);
    let preview = DailyRewardsContract::preview_next_reward(&data, DAY_IN_LEDGERS);
    assert_eq!(preview, 150);
}

#[test]
fn streak_is_capped_at_thirty_days() {
    let mut data = UserStreak::new();
    let mut ledger: u32 = 1;
    for _ in 0..31 {
        claim(&mut data, ledger);
        ledger += DAY_IN_LEDGERS;
    }
    assert_eq!(data.current_streak, 30);
    assert_eq!(data.total_logins, 31);
}

#[test]
fn reward_table() {
    let expected: [(u32, u32); 10] = [
        (0, 2175),
        (1, 100),
        (6, 350),
        (7, 900),
        (8, 450),
        (14, 1750),
        (15, 825),
        (21, 2775),
        (30, 5175),
        (31, 2175),
    ];
    for (streak, reward) in expected {
        assert_eq!(DailyRewardsContract::calculate_reward(streak), reward);
    }
}

#[test]
fn ledger_hash_wraps() {
    assert_eq!(DailyRewardsContract::get_ledger_hash(3, 7), 21);
    assert_eq!(DailyRewardsContract::get_ledger_hash(2, u64::MAX), u64::MAX - 1);
}

#[test]
#[should_panic(expected = "Already claimed today")]
fn test_prevent_double_claim_same_day() {
    let mut data = UserStreak::new();
    claim(&mut data, 0);
    claim(&mut data, 0);
}
