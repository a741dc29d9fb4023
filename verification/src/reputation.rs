//! The records of the reputation ledger.

use vstd::prelude::*;

use crate::ledger::Address;
use crate::model;
use crate::model::{copied_list, Bytes, Modeled};

verus! {

/// What is known of an address: its score and what the score rests on.
#[derive(Debug, Clone, Copy, PartialEq, Eq, Structural)]
pub struct ReputationData {
    pub score: u32,
    pub total_transactions: u32,
    pub successful_transactions: u32,
    pub failed_transactions: u32,
    pub total_credentials: u32,
    pub valid_credentials: u32,
    pub invalid_credentials: u32,
    pub last_updated: u64,
    pub volume: u64,
}

impl Modeled for ReputationData {
    type M = ReputationData;

    open spec fn model(&self) -> ReputationData {
        *self
    }

    fn copied(&self) -> (copy: ReputationData) {
        *self
    }
}

/// A score that an address had, and the event that led to it.
#[derive(Debug, Clone, PartialEq, Eq)]
pub struct ReputationHistoryEntry {
    pub timestamp: u64,
    pub score: u32,
    pub event: Bytes,
}

/// What an entry of a history means.
#[verifier::ext_equal]
pub struct HistoryModel {
    pub timestamp: u64,
    pub score: u32,
    pub event: Seq<u8>,
}

impl Modeled for ReputationHistoryEntry {
    type M = HistoryModel;

    open spec fn model(&self) -> HistoryModel {
        HistoryModel { timestamp: self.timestamp, score: self.score, event: self.event@ }
    }

    fn copied(&self) -> (copy: ReputationHistoryEntry) {
        ReputationHistoryEntry {
            timestamp: self.timestamp,
            score: self.score,
            event: self.event.copied(),
        }
    }
}

impl Modeled for Vec<ReputationHistoryEntry> {
    type M = Seq<HistoryModel>;

    open spec fn model(&self) -> Seq<HistoryModel> {
        model::models(self@)
    }

    fn copied(&self) -> (copy: Vec<ReputationHistoryEntry>) {
        copied_list(self)
    }
}

/// The word of one address for another.
#[derive(Debug, Clone, PartialEq, Eq)]
pub struct TrustAttestation {
    pub truster: Address,
    pub subject: Address,
    pub weight: u32,
    pub reason: Bytes,
    pub timestamp: u64,
}

/// What an attestation means.
#[verifier::ext_equal]
pub struct AttestationModel {
    pub truster: Seq<u8>,
    pub subject: Seq<u8>,
    pub weight: u32,
    pub reason: Seq<u8>,
    pub timestamp: u64,
}

impl Modeled for TrustAttestation {
    type M = AttestationModel;

    open spec fn model(&self) -> AttestationModel {
        AttestationModel {
            truster: self.truster.model(),
            subject: self.subject.model(),
            weight: self.weight,
            reason: self.reason@,
            timestamp: self.timestamp,
        }
    }

    fn copied(&self) -> (copy: TrustAttestation) {
        TrustAttestation {
            truster: self.truster.copied(),
            subject: self.subject.copied(),
            weight: self.weight,
            reason: self.reason.copied(),
            timestamp: self.timestamp,
        }
    }
}

impl Modeled for Vec<TrustAttestation> {
    type M = Seq<AttestationModel>;

    open spec fn model(&self) -> Seq<AttestationModel> {
        model::models(self@)
    }

    fn copied(&self) -> (copy: Vec<TrustAttestation>) {
        copied_list(self)
    }
}

/// Why a request was refused.
#[derive(Copy, Clone, Debug, PartialEq, Eq, PartialOrd, Ord, Structural)]
pub enum ReputationScoreError {
    NotInitialized,
    NotAdmin,
    InvalidScore,
}

impl ReputationScoreError {
    /// The number under which callers know the error.
    pub open spec fn number(self) -> u32 {
        match self {
            ReputationScoreError::NotInitialized => 1,
            ReputationScoreError::NotAdmin => 2,
            ReputationScoreError::InvalidScore => 3,
        }
    }

    /// The number under which callers know the error.
    pub fn code(self) -> (code: u32)
        ensures
            code == self.number(),
    {
        match self {
            ReputationScoreError::NotInitialized => 1,
            ReputationScoreError::NotAdmin => 2,
            ReputationScoreError::InvalidScore => 3,
        }
    }
}

/// What the reputation ledger can announce.
#[derive(Debug, Clone, PartialEq, Eq)]
pub enum ReputationScoreEvent {
    ReputationScoreUpdated(Address, u32, Bytes),
}

/// The highest score, and by how much events raise or lower a score.
#[derive(Debug, Clone, Copy, PartialEq, Eq, Structural)]
pub struct Config {
    pub max_score: u32,
    pub transaction_success_weight: u32,
    pub transaction_failure_weight: u32,
    pub credential_valid_weight: u32,
    pub credential_invalid_weight: u32,
}

/// The places of the reputation ledger.
#[derive(Debug, Clone, PartialEq, Eq)]
pub enum DataKey {
    Config,
    Admin,
    Score(Address),
    Profile(Address),
    Working(Address),
    History(Address),
    Trust(Address),
    Population,
}

/// One page of a history.
#[derive(Debug, Clone, PartialEq, Eq)]
pub struct PaginatedReputationHistory {
    pub data: Vec<ReputationHistoryEntry>,
    pub page: u32,
    pub total: u32,
    pub has_more: bool,
}

} // verus!
