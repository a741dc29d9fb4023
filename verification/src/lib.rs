//! Verifiable credentials and reputation scores on a ledger.

pub mod digest;
pub mod batch_effects;
pub mod batch_revocation;
pub mod credential;
pub mod credential_effects;
pub mod credential_issuer;
pub mod credential_laws;
pub mod credential_runs;
pub mod credential_soundness;
pub mod credential_store;
pub mod decimal;
pub mod delegation;
pub mod ids;
pub mod ledger;
pub mod model;
pub mod paging;
pub mod record_laws;
pub mod reputation;
pub mod reputation_effects;
pub mod reputation_laws;
pub mod reputation_runs;
pub mod reputation_score;
pub mod reputation_store;
pub mod revocation;
pub mod table;
