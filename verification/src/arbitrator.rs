//! Arbitrators of the dispute resolution contract.

use vstd::prelude::*;
use crate::address::Address;

verus! {

/// The reputation that a new arbitrator starts with.
pub const INITIAL_REPUTATION: u32 = 100;

/// The highest reputation score.
pub const MAX_REPUTATION: u32 = 1000;

/// Whether an arbitrator takes cases.
#[derive(Clone, Copy, Debug, PartialEq, Eq, Structural)]
pub enum ArbitratorStatus {
    Active,
    Inactive,
    Suspended,
}

/// How experienced an arbitrator is, by the number of cases handled.
#[derive(Clone, Copy, Debug, PartialEq, Eq, Structural)]
pub enum ExperienceLevel {
    Novice,
    Intermediate,
    Experienced,
    Expert,
}

/// What can go wrong with an arbitrator.
#[derive(Clone, Copy, Debug, PartialEq, Eq, Structural)]
pub enum ArbitratorError {
    ArbitratorNotFound,
    ArbitratorAlreadyRegistered,
    ArbitratorSuspended,
    InsufficientReputation,
    UnauthorizedAction,
}

/// The record of one arbitrator.
#[derive(Debug, PartialEq, Eq)]
pub struct ArbitratorProfile {
    pub address: Address,
    pub status: ArbitratorStatus,
    pub cases_handled: u32,
    pub reputation_score: u32,
    pub registered_at: u64,
    pub last_active: u64,
}

/// The experience level that goes with a number of handled cases: up to 4
/// a novice, up to 19 intermediate, up to 49 experienced, an expert from 50.
pub open spec fn experience_for(cases: u32) -> ExperienceLevel {
    if cases <= 4 {
        ExperienceLevel::Novice
    } else if cases <= 19 {
        ExperienceLevel::Intermediate
    } else if cases <= 49 {
        ExperienceLevel::Experienced
    } else {
        ExperienceLevel::Expert
    }
}

impl ArbitratorProfile {
    /// The profile of an arbitrator that registers at `registered_at`:
    /// active, without cases, with the initial reputation.
    pub fn new(address: Address, registered_at: u64) -> (profile: ArbitratorProfile)
        ensures
            profile == (ArbitratorProfile {
                address,
                status: ArbitratorStatus::Active,
                cases_handled: 0,
                reputation_score: INITIAL_REPUTATION,
                registered_at,
                last_active: registered_at,
            }),
    {
        ArbitratorProfile {
            address,
            status: ArbitratorStatus::Active,
            cases_handled: 0,
            reputation_score: INITIAL_REPUTATION,
            registered_at,
            last_active: registered_at,
        }
    }

    /// Whether the arbitrator is active and can take cases.
    pub fn is_available(&self) -> (available: bool)
        ensures
            available == (self.status == ArbitratorStatus::Active),
    {
        match self.status {
            ArbitratorStatus::Active => true,
            _ => false,
        }
    }

    /// Whether the arbitrator is suspended.
    pub fn is_suspended(&self) -> (suspended: bool)
        ensures
            suspended == (self.status == ArbitratorStatus::Suspended),
    {
        match self.status {
            ArbitratorStatus::Suspended => true,
            _ => false,
        }
    }

    /// Records that the arbitrator was active at `timestamp`.
    pub fn update_last_active(&mut self, timestamp: u64)
        ensures
            *final(self) == (ArbitratorProfile { last_active: timestamp, ..*old(self) }),
    {
        self.last_active = timestamp;
    }

    /// Counts one more handled case.
    pub fn increment_cases(&mut self)
        requires
            old(self).cases_handled < u32::MAX,
        ensures
            *final(self) == (ArbitratorProfile {
                cases_handled: (old(self).cases_handled + 1) as u32,
                ..*old(self)
            }),
    {
        self.cases_handled = self.cases_handled + 1;
    }

    /// Sets the reputation score, capped at [`MAX_REPUTATION`].
    pub fn update_reputation(&mut self, new_score: u32)
        ensures
            *final(self) == (ArbitratorProfile {
                reputation_score: if new_score > MAX_REPUTATION {
                    MAX_REPUTATION
                } else {
                    new_score
                },
                ..*old(self)
            }),
    {
        self.reputation_score = if new_score > MAX_REPUTATION {
            MAX_REPUTATION
        } else {
            new_score
        };
    }

    /// Whether the reputation score is at least `threshold`.
    pub fn meets_reputation_threshold(&self, threshold: u32) -> (meets: bool)
        ensures
            meets == (self.reputation_score >= threshold),
    {
        self.reputation_score >= threshold
    }

    /// The experience level of the arbitrator.
    pub fn get_experience_level(&self) -> (level: ExperienceLevel)
        ensures
            level == experience_for(self.cases_handled),
    {
        if self.cases_handled <= 4 {
            ExperienceLevel::Novice
        } else if self.cases_handled <= 19 {
            ExperienceLevel::Intermediate
        } else if self.cases_handled <= 49 {
            ExperienceLevel::Experienced
        } else {
            ExperienceLevel::Expert
        }
    }
}

} // verus!
