//! Player reputation: weighted feedback with a rate limit, quest and
//! contribution points, periodic decay of the total, capped recovery, and
//! milestone badges kept as a bitfield.
//!
//! The host keeps one `ReputationScore`, one milestone bitfield and the list
//! of received `Feedback` per player, and hands them in with the current time.
use vstd::prelude::*;

verus! {

#[derive(Clone, Copy, Debug, PartialEq, Eq, Structural)]
pub enum ContractError {
    NotInitialized,
    AlreadyInitialized,
    SelfFeedback,
    RateLimitExceeded,
    Unauthorized,
}

#[derive(Clone, Debug, PartialEq, Eq)]
pub struct Config {
    pub admin: String,
    /// Share of the total lost per decay period, in basis points.
    pub decay_rate: u32,
    pub decay_period: u64,
    /// Least time between two feedbacks of one giver to one receiver.
    pub min_feedback_gap: u64,
    /// Most points one recovery request can restore.
    pub recovery_cap: u32,
}

#[derive(Clone, Copy, Debug, PartialEq, Eq, Structural)]
pub struct ReputationScore {
    pub total_score: u32,
    pub positive_feedback: u32,
    pub negative_feedback: u32,
    pub quests_completed: u32,
    pub contributions: u32,
    pub last_activity: u64,
    pub created_at: u64,
}

#[derive(Clone, Debug, PartialEq, Eq)]
pub struct Feedback {
    pub from: String,
    pub to: String,
    pub is_positive: bool,
    pub weight: u32,
    pub timestamp: u64,
    pub reason: u32,
}

#[derive(Clone, Copy, Debug, PartialEq, Eq, Structural)]
pub struct Milestone {
    pub level: u32,
    pub score_required: u32,
    pub badge_id: u32,
    pub features_unlocked: u32,
}

/// Time within which a player counts as recently active: seven days.
pub const ACTIVITY_WINDOW: u64 = 604800;

/// The total after one decay period at `rate` basis points.
pub open spec fn decay_step(total: u32, rate: u32) -> u32 {
    let cut = (total as int * rate as int) / 10000;
    if cut >= total { 0 } else { (total - cut) as u32 }
}

/// The total after `n` decay periods.
pub open spec fn decay_times(total: u32, rate: u32, n: nat) -> u32
    decreases n,
{
    if n == 0 { total } else { decay_step(decay_times(total, rate, (n - 1) as nat), rate) }
}

/// Time since `since`, zero if the clock reads earlier.
pub open spec fn time_since(now: u64, since: u64) -> int {
    if now >= since { now - since } else { 0 }
}

/// The score after the decay owed at `now`: one step per whole period since
/// the last activity, which then moves to `now`.
pub open spec fn decayed(rep: ReputationScore, c: Option<Config>, now: u64) -> ReputationScore {
    match c {
        Some(c) => if c.decay_period > 0 && time_since(now, rep.last_activity) >= c.decay_period {
            ReputationScore {
                total_score: decay_times(
                    rep.total_score,
                    c.decay_rate,
                    (time_since(now, rep.last_activity) / c.decay_period as int) as nat,
                ),
                last_activity: now,
                ..rep
            }
        } else {
            rep
        },
        None => rep,
    }
}

pub open spec fn activity_score(rep: ReputationScore, now: u64) -> int {
    if time_since(now, rep.last_activity) < ACTIVITY_WINDOW { 100 } else { 50 }
}

/// Weighted score: 40% of positive feedback, 30% of quest points, 20% of
/// contribution points and 10% of activity, each share rounded down.
pub open spec fn weighted_score(rep: ReputationScore, now: u64) -> int {
    rep.positive_feedback as int * 40 / 100 + rep.quests_completed as int * 30 / 100
        + rep.contributions as int * 20 / 100 + activity_score(rep, now) * 10 / 100
}

pub open spec fn sat_add(a: u32, b: u32) -> u32 {
    if a as int + b as int > u32::MAX { u32::MAX } else { (a + b) as u32 }
}

pub open spec fn sat_sub(a: u32, b: u32) -> u32 {
    if a >= b { (a - b) as u32 } else { 0 }
}

pub open spec fn min_u32(a: u32, b: u32) -> u32 {
    if a <= b { a } else { b }
}

/// The milestone bitfield once every milestone of `ms` that `total` reaches is set.
pub open spec fn milestone_bits(bits: u32, total: u32, ms: Seq<Milestone>) -> u32
    decreases ms.len(),
{
    if ms.len() == 0 {
        bits
    } else {
        let b = milestone_bits(bits, total, ms.drop_last());
        let m = ms.last();
        if 1 <= m.level <= 32 && total >= m.score_required {
            b | (1u32 << ((m.level - 1) as u32))
        } else {
            b
        }
    }
}

/// Whether `giver` gave feedback in `received` less than `gap` ago.
pub open spec fn too_recent(received: Seq<Feedback>, giver: Seq<char>, now: u64, gap: u64) -> bool {
    exists|i: int|
        0 <= i < received.len() && (#[trigger] received[i]).from@ == giver && now - received[i].timestamp < gap
}

impl ReputationScore {
    /// The record of a player first seen at `now`.
    pub fn new(now: u64) -> (r: ReputationScore)
        ensures
            r == (ReputationScore {
                total_score: 0,
                positive_feedback: 0,
                negative_feedback: 0,
                quests_completed: 0,
                contributions: 0,
                last_activity: now,
                created_at: now,
            }),
    {
        ReputationScore {
            total_score: 0,
            positive_feedback: 0,
            negative_feedback: 0,
            quests_completed: 0,
            contributions: 0,
            last_activity: now,
            created_at: now,
        }
    }
}

/// The standard milestone table.
pub open spec fn default_milestones() -> Seq<Milestone> {
    seq![
        Milestone { level: 1, score_required: 100, badge_id: 1, features_unlocked: 1 },
        Milestone { level: 2, score_required: 300, badge_id: 2, features_unlocked: 3 },
        Milestone { level: 3, score_required: 600, badge_id: 3, features_unlocked: 7 },
        Milestone { level: 4, score_required: 850, badge_id: 4, features_unlocked: 15 },
    ]
}

/// Configuration and milestone table of the reputation ledger.
pub struct ReputationContract {
    config: Option<Config>,
    milestones: Vec<Milestone>,
}

impl ReputationContract {
    pub closed spec fn config_spec(&self) -> Option<Config> {
        self.config
    }

    pub closed spec fn milestones_spec(&self) -> Seq<Milestone> {
        self.milestones@
    }

    /// A ledger with no configuration and no milestones.
    pub fn new() -> (r: Self)
        ensures
            r.config_spec() is None,
            r.milestones_spec().len() == 0,
    {
        ReputationContract { config: None, milestones: Vec::new() }
    }

    /// Rebuilds the ledger from its stored configuration and milestones.
    pub fn from_parts(config: Option<Config>, milestones: Vec<Milestone>) -> (r: Self)
        ensures
            r.config_spec() == config,
            r.milestones_spec() == milestones@,
    {
        ReputationContract { config, milestones }
    }

    /// The stored configuration and milestones, for the host to persist.
    pub fn into_parts(self) -> (r: (Option<Config>, Vec<Milestone>))
        ensures
            r.0 == self.config_spec(),
            r.1@ == self.milestones_spec(),
    {
        (self.config, self.milestones)
    }

    /// The four standard milestones: 100, 300, 600 and 850 points.
    pub fn set_default_milestones() -> (r: Vec<Milestone>)
        ensures
            r@ == default_milestones(),
    {
        let mut v: Vec<Milestone> = Vec::new();
        v.push(Milestone { level: 1, score_required: 100, badge_id: 1, features_unlocked: 1 });
        v.push(Milestone { level: 2, score_required: 300, badge_id: 2, features_unlocked: 3 });
        v.push(Milestone { level: 3, score_required: 600, badge_id: 3, features_unlocked: 7 });
        v.push(Milestone { level: 4, score_required: 850, badge_id: 4, features_unlocked: 15 });
        assert(v@ =~= default_milestones());
        v
    }

    /// Stores the configuration and the standard milestones; fails with
    /// `AlreadyInitialized` the second time.
    pub fn initialize(
        &mut self,
        admin: String,
        decay_rate: u32,
        decay_period: u64,
        min_feedback_gap: u64,
        recovery_cap: u32,
    ) -> (r: Result<(), ContractError>)
        ensures
            old(self).config_spec() is Some ==> r == Err::<(), ContractError>(ContractError::AlreadyInitialized)
                && *final(self) == *old(self),
            old(self).config_spec() is None ==> r is Ok && final(self).config_spec() == Some(
                Config { admin, decay_rate, decay_period, min_feedback_gap, recovery_cap },
            ) && final(self).milestones_spec() == default_milestones(),
    {
        if self.config.is_some() {
            return Err(ContractError::AlreadyInitialized);
        }
        self.config = Some(Config { admin, decay_rate, decay_period, min_feedback_gap, recovery_cap });
        self.milestones = Self::set_default_milestones();
        Ok(())
    }

    /// The configuration, or `NotInitialized`.
    pub fn get_config(&self) -> (r: Result<Config, ContractError>)
        ensures
            r == match self.config_spec() {
                Some(c) => Ok::<Config, ContractError>(c),
                None => Err(ContractError::NotInitialized),
            },
    {
        match &self.config {
            Some(c) => Ok(
                Config {
                    admin: c.admin.clone(),
                    decay_rate: c.decay_rate,
                    decay_period: c.decay_period,
                    min_feedback_gap: c.min_feedback_gap,
                    recovery_cap: c.recovery_cap,
                },
            ),
            None => Err(ContractError::NotInitialized),
        }
    }

    /// Fails with `RateLimitExceeded` when `from` already gave the receiver
    /// feedback less than the configured gap ago.
    pub fn check_feedback_rate_limit(&self, received: &Vec<Feedback>, from: &String, now: u64) -> (r: Result<
        (),
        ContractError,
    >)
        requires
            forall|i: int| 0 <= i < received@.len() ==> (#[trigger] received@[i]).timestamp <= now,
        ensures
            r == match self.config_spec() {
                None => Err::<(), ContractError>(ContractError::NotInitialized),
                Some(c) => if too_recent(received@, from@, now, c.min_feedback_gap) {
                    Err(ContractError::RateLimitExceeded)
                } else {
                    Ok(())
                },
            },
    {
        let gap = match &self.config {
            None => return Err(ContractError::NotInitialized),
            Some(c) => c.min_feedback_gap,
        };
        let mut i: usize = 0;
        while i < received.len()
            invariant
                i <= received@.len(),
                self.config_spec() matches Some(c) && c.min_feedback_gap == gap,
                forall|j: int| 0 <= j < received@.len() ==> (#[trigger] received@[j]).timestamp <= now,
                forall|j: int|
                    0 <= j < i ==> !((#[trigger] received@[j]).from@ == from@ && now - received@[j].timestamp < gap),
            decreases received@.len() - i,
        {
            if received[i].from == *from && now - received[i].timestamp < gap {
                return Err(ContractError::RateLimitExceeded);
            }
            i = i + 1;
        }
        Ok(())
    }

    /// The receiver's record after one feedback of `weight`: positive feedback
    /// adds the weight, negative feedback takes it away (not below zero).
    pub fn update_reputation(rep: &ReputationScore, is_positive: bool, weight: u32, now: u64) -> (r: ReputationScore)
        requires
            is_positive ==> rep.positive_feedback < u32::MAX && rep.total_score + weight <= u32::MAX,
            !is_positive ==> rep.negative_feedback < u32::MAX,
        ensures
            r == if is_positive {
                ReputationScore {
                    positive_feedback: (rep.positive_feedback + 1) as u32,
                    total_score: (rep.total_score + weight) as u32,
                    last_activity: now,
                    ..*rep
                }
            } else {
                ReputationScore {
                    negative_feedback: (rep.negative_feedback + 1) as u32,
                    total_score: sat_sub(rep.total_score, weight),
                    last_activity: now,
                    ..*rep
                }
            },
    {
        let mut r = *rep;
        if is_positive {
            r.positive_feedback = r.positive_feedback + 1;
            r.total_score = r.total_score + weight;
        } else {
            r.negative_feedback = r.negative_feedback + 1;
            r.total_score = r.total_score.saturating_sub(weight);
        }
        r.last_activity = now;
        r
    }

    /// `from` rates `to`. Fails with `SelfFeedback` when they are the same
    /// player, then as `check_feedback_rate_limit` does. On success returns the
    /// feedback record to store and the receiver's updated reputation.
    pub fn record_feedback(
        &self,
        from: &String,
        to: &String,
        is_positive: bool,
        weight: u32,
        reason: u32,
        now: u64,
        received: &Vec<Feedback>,
        rep: &ReputationScore,
    ) -> (r: Result<(Feedback, ReputationScore), ContractError>)
        requires
            forall|i: int| 0 <= i < received@.len() ==> (#[trigger] received@[i]).timestamp <= now,
            is_positive ==> rep.positive_feedback < u32::MAX && rep.total_score + weight <= u32::MAX,
            !is_positive ==> rep.negative_feedback < u32::MAX,
        ensures
            from@ == to@ ==> r == Err::<(Feedback, ReputationScore), ContractError>(ContractError::SelfFeedback),
            from@ != to@ ==> match self.config_spec() {
                None => r == Err::<(Feedback, ReputationScore), ContractError>(ContractError::NotInitialized),
                Some(c) => if too_recent(received@, from@, now, c.min_feedback_gap) {
                    r == Err::<(Feedback, ReputationScore), ContractError>(ContractError::RateLimitExceeded)
                } else {
                    r == Ok::<(Feedback, ReputationScore), ContractError>(
                        (
                            Feedback { from: *from, to: *to, is_positive, weight, timestamp: now, reason },
                            if is_positive {
                                ReputationScore {
                                    positive_feedback: (rep.positive_feedback + 1) as u32,
                                    total_score: (rep.total_score + weight) as u32,
                                    last_activity: now,
                                    ..*rep
                                }
                            } else {
                                ReputationScore {
                                    negative_feedback: (rep.negative_feedback + 1) as u32,
                                    total_score: sat_sub(rep.total_score, weight),
                                    last_activity: now,
                                    ..*rep
                                }
                            },
                        ),
                    )
                },
            },
    {
        if *from == *to {
            return Err(ContractError::SelfFeedback);
        }
        match self.check_feedback_rate_limit(received, from, now) {
            Err(e) => return Err(e),
            Ok(()) => {},
        }
        let feedback = Feedback { from: from.clone(), to: to.clone(), is_positive, weight, timestamp: now, reason };
        Ok((feedback, Self::update_reputation(rep, is_positive, weight, now)))
    }

    fn decay_once(total: u32, rate: u32) -> (r: u32)
        ensures
            r == decay_step(total, rate),
    {
        assert((total as int) * (rate as int) <= u64::MAX) by (nonlinear_arith)
            requires
                total <= u32::MAX,
                rate <= u32::MAX,
        ;
        let cut = (total as u64) * (rate as u64) / 10000;
        if cut >= total as u64 {
            0
        } else {
            total - cut as u32
        }
    }

    /// Applies the decay owed at `now` (none before `initialize`).
    pub fn apply_decay(&self, rep: &mut ReputationScore, now: u64)
        ensures
            *final(rep) == decayed(*old(rep), self.config_spec(), now),
    {
        let (rate, period) = match &self.config {
            None => return,
            Some(c) => (c.decay_rate, c.decay_period),
        };
        let since = now.saturating_sub(rep.last_activity);
        if period > 0 && since >= period {
            let periods = since / period;
            let ghost start = rep.total_score;
            let mut k: u64 = 0;
            while k < periods
                invariant
                    k <= periods,
                    rep.total_score == decay_times(start, rate, k as nat),
                    rep.last_activity == old(rep).last_activity,
                    *rep == (ReputationScore { total_score: rep.total_score, ..*old(rep) }),
                decreases periods - k,
            {
                rep.total_score = Self::decay_once(rep.total_score, rate);
                k = k + 1;
            }
            rep.last_activity = now;
        }
    }

    /// The player's record with the decay owed at `now` applied.
    pub fn get_reputation(&self, rep: &ReputationScore, now: u64) -> (r: ReputationScore)
        ensures
            r == decayed(*rep, self.config_spec(), now),
    {
        let mut r = *rep;
        self.apply_decay(&mut r, now);
        r
    }

    /// 100 for a player active within the last seven days, 50 otherwise.
    pub fn calculate_activity_score(rep: &ReputationScore, now: u64) -> (r: u32)
        ensures
            r == activity_score(*rep, now),
    {
        if now.saturating_sub(rep.last_activity) < ACTIVITY_WINDOW {
            100
        } else {
            50
        }
    }

    /// The weighted score of the player's decayed record.
    pub fn calculate_score(&self, rep: &ReputationScore, now: u64) -> (r: u32)
        ensures
            r == weighted_score(decayed(*rep, self.config_spec(), now), now),
    {
        let current = self.get_reputation(rep, now);
        let activity = Self::calculate_activity_score(&current, now);
        let a = current.positive_feedback as u64 * 40 / 100;
        let b = current.quests_completed as u64 * 30 / 100;
        let c = current.contributions as u64 * 20 / 100;
        let d = activity as u64 * 10 / 100;
        assert(a + b + c + d <= u32::MAX) by (nonlinear_arith)
            requires
                a == current.positive_feedback as int * 40 / 100,
                b == current.quests_completed as int * 30 / 100,
                c == current.contributions as int * 20 / 100,
                d <= 10,
                current.positive_feedback <= u32::MAX,
                current.quests_completed <= u32::MAX,
                current.contributions <= u32::MAX,
        ;
        (a + b + c + d) as u32
    }

    /// Adds quest points (saturating) and marks the player active.
    pub fn record_quest_completion(rep: &ReputationScore, points: u32, now: u64) -> (r: ReputationScore)
        ensures
            r == (ReputationScore {
                quests_completed: sat_add(rep.quests_completed, points),
                total_score: sat_add(rep.total_score, points),
                last_activity: now,
                ..*rep
            }),
    {
        let mut r = *rep;
        r.quests_completed = r.quests_completed.saturating_add(points);
        r.total_score = r.total_score.saturating_add(points);
        r.last_activity = now;
        r
    }

    /// Adds contribution points (saturating) and marks the player active.
    pub fn record_contribution(rep: &ReputationScore, points: u32, now: u64) -> (r: ReputationScore)
        ensures
            r == (ReputationScore {
                contributions: sat_add(rep.contributions, points),
                total_score: sat_add(rep.total_score, points),
                last_activity: now,
                ..*rep
            }),
    {
        let mut r = *rep;
        r.contributions = r.contributions.saturating_add(points);
        r.total_score = r.total_score.saturating_add(points);
        r.last_activity = now;
        r
    }

    /// Sets the bit of every milestone that `total_score` reaches.
    pub fn check_milestones(&self, bits: u32, total_score: u32) -> (r: u32)
        ensures
            r == milestone_bits(bits, total_score, self.milestones_spec()),
    {
        let mut b = bits;
        let mut i: usize = 0;
        proof {
            assert(self.milestones@.take(0) =~= Seq::<Milestone>::empty());
        }
        while i < self.milestones.len()
            invariant
                i <= self.milestones@.len(),
                b == milestone_bits(bits, total_score, self.milestones@.take(i as int)),
            decreases self.milestones@.len() - i,
        {
            proof {
                assert(self.milestones@.take(i + 1).drop_last() =~= self.milestones@.take(i as int));
                assert(self.milestones@.take(i + 1).last() == self.milestones@[i as int]);
            }
            let m = self.milestones[i];
            if 1 <= m.level && m.level <= 32 && total_score >= m.score_required {
                b = b | (1u32 << (m.level - 1));
            }
            i = i + 1;
        }
        proof {
            assert(self.milestones@.take(i as int) =~= self.milestones@);
        }
        b
    }

    /// Whether bit `level - 1` of the bitfield is set, for levels 1 to 32.
    pub fn has_milestone(milestones: u32, level: u32) -> (r: bool)
        ensures
            r == (1 <= level <= 32 && (milestones & (1u32 << ((level - 1) as u32))) != 0),
    {
        if level > 0 && level <= 32 {
            (milestones & (1u32 << (level - 1))) != 0
        } else {
            false
        }
    }

    /// Restores up to the configured cap of points and forgives one negative
    /// feedback per ten points restored.
    pub fn request_recovery(&self, rep: &ReputationScore, points: u32, now: u64) -> (r: Result<
        ReputationScore,
        ContractError,
    >)
        ensures
            r == match self.config_spec() {
                None => Err::<ReputationScore, ContractError>(ContractError::NotInitialized),
                Some(c) => {
                    let recovered = min_u32(points, c.recovery_cap);
                    Ok(
                        ReputationScore {
                            total_score: sat_add(rep.total_score, recovered),
                            negative_feedback: sat_sub(
                                rep.negative_feedback,
                                min_u32((recovered / 10) as u32, rep.negative_feedback),
                            ),
                            last_activity: now,
                            ..*rep
                        },
                    )
                },
            },
    {
        let cap = match &self.config {
            None => return Err(ContractError::NotInitialized),
            Some(c) => c.recovery_cap,
        };
        let recovered = if points <= cap {
            points
        } else {
            cap
        };
        let mut r = *rep;
        r.total_score = r.total_score.saturating_add(recovered);
        if r.negative_feedback > 0 {
            let tenth = recovered / 10;
            let reduction = if tenth <= r.negative_feedback {
                tenth
            } else {
                r.negative_feedback
            };
            r.negative_feedback = r.negative_feedback.saturating_sub(reduction);
        }
        r.last_activity = now;
        Ok(r)
    }
}

} // verus!
