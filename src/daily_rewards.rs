//! Daily login rewards: a claim streak that grows by one per day, survives a
//! grace period, resets after it, and is capped; the reward grows with the
//! streak and pays extra at weekly and monthly milestones.
//!
//! Time is counted in ledgers. The host keeps one `UserStreak` per user and
//! hands it in together with the current ledger sequence.
use vstd::prelude::*;

verus! {

/// Ledgers in one day (about 5 s each).
pub const DAY_IN_LEDGERS: u32 = 17280;

/// Ledgers past a full day in which a claim still continues the streak.
pub const GRACE_PERIOD_LEDGERS: u32 = 8640;

/// The streak never counts more days than this.
pub const MAX_STREAK_DAYS: u32 = 30;

#[derive(Clone, Copy, Debug, PartialEq, Eq, Structural)]
pub struct UserStreak {
    pub current_streak: u32,
    pub last_claim_ledger: u32,
    /// Number of claims so far; 0 for a user who never claimed.
    pub total_logins: u32,
    pub last_claim_hash: u64,
}

/// The entry points of the rewards ledger.
pub struct DailyRewardsContract;

/// Base reward for a streak of `streak` days.
pub open spec fn base_reward(streak: u32) -> int {
    if streak <= 1 {
        if streak == 1 { 100 } else { 2175 }
    } else if streak <= 7 {
        100 + (streak - 1) * 50
    } else if streak <= 14 {
        400 + (streak - 7) * 50
    } else if streak <= 21 {
        750 + (streak - 14) * 75
    } else if streak <= 30 {
        1275 + (streak - 21) * 100
    } else {
        2175
    }
}

/// Extra reward on the day a milestone streak is reached.
pub open spec fn milestone_bonus(streak: u32) -> int {
    if streak == 7 {
        500
    } else if streak == 14 {
        1000
    } else if streak == 21 {
        1500
    } else if streak == 30 {
        3000
    } else {
        0
    }
}

/// Ledgers since the last claim, zero if the clock reads earlier.
pub open spec fn elapsed(data: UserStreak, current_ledger: u32) -> int {
    if current_ledger >= data.last_claim_ledger {
        current_ledger - data.last_claim_ledger
    } else {
        0
    }
}

/// The streak after one more consecutive day, capped.
pub open spec fn next_streak(streak: u32) -> u32 {
    if streak >= MAX_STREAK_DAYS { MAX_STREAK_DAYS } else { (streak + 1) as u32 }
}

pub open spec fn can_claim_spec(data: UserStreak, current_ledger: u32) -> bool {
    data.total_logins == 0 || elapsed(data, current_ledger) >= DAY_IN_LEDGERS
}

pub open spec fn continues_streak(data: UserStreak, current_ledger: u32) -> bool {
    elapsed(data, current_ledger) <= DAY_IN_LEDGERS + GRACE_PERIOD_LEDGERS
}

impl UserStreak {
    /// The record of a user who never claimed.
    pub fn new() -> (r: UserStreak)
        ensures
            r == (UserStreak { current_streak: 0, last_claim_ledger: 0, total_logins: 0, last_claim_hash: 0 }),
    {
        UserStreak { current_streak: 0, last_claim_ledger: 0, total_logins: 0, last_claim_hash: 0 }
    }
}

impl DailyRewardsContract {
    /// Reward for a claim that brings the streak to `streak` days: the base
    /// reward of the streak plus its milestone bonus.
    pub fn calculate_reward(streak: u32) -> (r: u32)
        ensures
            r == base_reward(streak) + milestone_bonus(streak),
    {
        let base_reward: u32 = if streak == 0 {
            2175
        } else if streak <= 7 {
            100 + (streak - 1) * 50
        } else if streak <= 14 {
            400 + (streak - 7) * 50
        } else if streak <= 21 {
            750 + (streak - 14) * 75
        } else if streak <= 30 {
            1275 + (streak - 21) * 100
        } else {
            2175
        };
        let milestone_bonus: u32 = if streak == 7 {
            500
        } else if streak == 14 {
            1000
        } else if streak == 21 {
            1500
        } else if streak == 30 {
            3000
        } else {
            0
        };
        base_reward + milestone_bonus
    }

    fn ledgers_since(data: &UserStreak, current_ledger: u32) -> (r: u32)
        ensures
            r == elapsed(*data, current_ledger),
    {
        current_ledger.saturating_sub(data.last_claim_ledger)
    }

    fn advance(streak: u32) -> (r: u32)
        ensures
            r == next_streak(streak),
    {
        if streak >= MAX_STREAK_DAYS {
            MAX_STREAK_DAYS
        } else {
            streak + 1
        }
    }

    /// Whether the user may claim at `current_ledger`: a first claim always,
    /// otherwise once a full day has passed since the last one.
    pub fn can_claim(data: &UserStreak, current_ledger: u32) -> (r: bool)
        ensures
            r == can_claim_spec(*data, current_ledger),
    {
        if data.total_logins == 0 {
            return true;
        }
        Self::ledgers_since(data, current_ledger) >= DAY_IN_LEDGERS
    }

    /// Whether more than a day but no more than a day and the grace period
    /// have passed since the last claim.
    pub fn is_in_grace_period(data: &UserStreak, current_ledger: u32) -> (r: bool)
        ensures
            r == (data.total_logins != 0 && elapsed(*data, current_ledger) > DAY_IN_LEDGERS
                && continues_streak(*data, current_ledger)),
    {
        if data.total_logins == 0 {
            return false;
        }
        let since = Self::ledgers_since(data, current_ledger);
        since > DAY_IN_LEDGERS && since <= DAY_IN_LEDGERS + GRACE_PERIOD_LEDGERS
    }

    /// The reward a claim at `current_ledger` would pay, without claiming.
    pub fn preview_next_reward(data: &UserStreak, current_ledger: u32) -> (r: u32)
        ensures
            ({
                let streak = if continues_streak(*data, current_ledger) {
                    next_streak(data.current_streak)
                } else {
                    1
                };
                r == base_reward(streak) + milestone_bonus(streak)
            }),
    {
        let next = if Self::ledgers_since(data, current_ledger) <= DAY_IN_LEDGERS + GRACE_PERIOD_LEDGERS {
            Self::advance(data.current_streak)
        } else {
            1
        };
        Self::calculate_reward(next)
    }

    /// Anti-cheat fingerprint of a ledger: its sequence times its timestamp,
    /// wrapping.
    pub fn get_ledger_hash(sequence: u32, timestamp: u64) -> (r: u64)
        ensures
            r == ((sequence as int * timestamp as int) % 0x1_0000_0000_0000_0000) as u64,
    {
        (sequence as u64).wrapping_mul(timestamp)
    }

    /// Records a claim at `current_ledger` and returns the updated record and
    /// the reward. A first claim starts a streak of one. A later claim needs a
    /// full day to have passed; it continues the streak (capped) within the
    /// grace period and restarts it at one after.
    pub fn claim_daily(data: &UserStreak, current_ledger: u32, current_hash: u64) -> (r: (UserStreak, u32))
        requires
            can_claim_spec(*data, current_ledger),
            data.total_logins < u32::MAX,
        ensures
            ({
                let streak = if data.total_logins == 0 {
                    1
                } else if continues_streak(*data, current_ledger) {
                    next_streak(data.current_streak)
                } else {
                    1
                };
                &&& r.0.current_streak == streak
                &&& r.0.last_claim_ledger == current_ledger
                &&& r.0.total_logins == data.total_logins + 1
                &&& r.0.last_claim_hash == current_hash
                &&& r.1 == base_reward(streak) + milestone_bonus(streak)
            }),
    {
        if data.total_logins == 0 {
            let fresh = UserStreak {
                current_streak: 1,
                last_claim_ledger: current_ledger,
                total_logins: 1,
                last_claim_hash: current_hash,
            };
            return (fresh, Self::calculate_reward(1));
        }
        let since = Self::ledgers_since(data, current_ledger);
        let streak = if since <= DAY_IN_LEDGERS + GRACE_PERIOD_LEDGERS {
            Self::advance(data.current_streak)
        } else {
            1
        };
        let updated = UserStreak {
            current_streak: streak,
            last_claim_ledger: current_ledger,
            total_logins: data.total_logins + 1,
            last_claim_hash: current_hash,
        };
        (updated, Self::calculate_reward(streak))
    }
}

} // verus!
