//! Reputation scores: how events move them, their history, and how addresses
//! compare.

use vstd::prelude::*;

use crate::ledger::{Address, Invocation};
use crate::model::{Bytes, Modeled};
use crate::paging;
use crate::paging::{page_of, slice_of};
use crate::reputation::{
    AttestationModel, Config, DataKey, HistoryModel, PaginatedReputationHistory, ReputationData,
    ReputationHistoryEntry, ReputationScoreError, TrustAttestation,
};
use crate::reputation_store::{ReputationState, ReputationStore};

verus! {

/// How many units of score make a point.
pub const SCORE_SCALE: u32 = 10;

/// The score of an address to begin with: eighty points.
pub const BASE_SCORE: u32 = 800;

/// The length at which histories are cut off.
pub const MAX_HISTORY_POINTS: usize = 120;

/// The greatest weight of an attestation.
pub const MAX_TRUST_WEIGHT: u32 = 1000;

/// The operations of the reputation ledger.
#[derive(Debug, Clone, Copy, PartialEq, Eq)]
pub struct ReputationScore;

/// A score raised or lowered by a weight, as far as the range of scores goes.
pub open spec fn moved(score: u32, up: bool, gain: u32, loss: u32) -> u32 {
    if up {
        if score + gain <= u32::MAX {
            (score + gain) as u32
        } else {
            u32::MAX
        }
    } else {
        if score >= loss {
            (score - loss) as u32
        } else {
            0
        }
    }
}

/// A score brought down to the highest score where it is above.
pub open spec fn capped(score: u32, max_score: u32) -> u32 {
    if score > max_score {
        max_score
    } else {
        score
    }
}

/// A working score after an event. One that is not above the highest score is
/// capped like any score. One that is above, as that of an address which begins
/// above the highest score, moves freely until it is no longer above.
pub open spec fn reworked(working: u32, up: bool, gain: u32, loss: u32, max_score: u32) -> u32 {
    if working <= max_score {
        capped(moved(working, up, gain, loss), max_score)
    } else {
        moved(working, up, gain, loss)
    }
}

/// What an amount adds to a volume: its size, in the lowest 64 bits.
pub open spec fn amount_size(amount: i128) -> int {
    (if amount >= 0 {
        amount as int
    } else {
        -(amount as int)
    }) % 0x1_0000_0000_0000_0000
}

/// A volume with an amount added, as far as the range of volumes goes.
pub open spec fn grown_volume(volume: u64, amount: i128) -> u64 {
    if volume + amount_size(amount) <= u64::MAX {
        (volume + amount_size(amount)) as u64
    } else {
        u64::MAX
    }
}

/// The profile of an address after a transaction.
pub open spec fn after_transaction(
    profile: ReputationData,
    config: Config,
    success: bool,
    amount: i128,
    now: u64,
) -> ReputationData {
    ReputationData {
        score: capped(
            moved(
                profile.score,
                success,
                config.transaction_success_weight,
                config.transaction_failure_weight,
            ),
            config.max_score,
        ),
        total_transactions: (profile.total_transactions + 1) as u32,
        successful_transactions: if success {
            (profile.successful_transactions + 1) as u32
        } else {
            profile.successful_transactions
        },
        failed_transactions: if success {
            profile.failed_transactions
        } else {
            (profile.failed_transactions + 1) as u32
        },
        last_updated: now,
        volume: grown_volume(profile.volume, amount),
        ..profile
    }
}

/// The profile of an address after a credential of its was checked.
pub open spec fn after_credential(
    profile: ReputationData,
    config: Config,
    valid: bool,
    now: u64,
) -> ReputationData {
    ReputationData {
        score: capped(
            moved(
                profile.score,
                valid,
                config.credential_valid_weight,
                config.credential_invalid_weight,
            ),
            config.max_score,
        ),
        total_credentials: (profile.total_credentials + 1) as u32,
        valid_credentials: if valid {
            (profile.valid_credentials + 1) as u32
        } else {
            profile.valid_credentials
        },
        invalid_credentials: if valid {
            profile.invalid_credentials
        } else {
            (profile.invalid_credentials + 1) as u32
        },
        last_updated: now,
        ..profile
    }
}

/// The last `n` items, or all of them where there are fewer.
pub open spec fn last_items<T>(items: Seq<T>, n: nat) -> Seq<T> {
    if items.len() > n {
        items.skip(items.len() - n)
    } else {
        items
    }
}

/// The profile of an address to begin with.
pub open spec fn base_profile(now: u64) -> ReputationData {
    ReputationData {
        score: BASE_SCORE,
        total_transactions: 0,
        successful_transactions: 0,
        failed_transactions: 0,
        total_credentials: 0,
        valid_credentials: 0,
        invalid_credentials: 0,
        last_updated: now,
        volume: 0,
    }
}

/// `tx_success` or `tx_failure`, as text.
pub open spec fn transaction_text(success: bool) -> Seq<u8> {
    if success {
        seq![116u8, 120u8, 95u8, 115u8, 117u8, 99u8, 99u8, 101u8, 115u8, 115u8]
    } else {
        seq![116u8, 120u8, 95u8, 102u8, 97u8, 105u8, 108u8, 117u8, 114u8, 101u8]
    }
}

/// How many of the addresses have a profile with a score of at most `score`.
pub open spec fn count_up_to(
    profiles: Map<Seq<u8>, ReputationData>,
    addresses: Seq<Seq<u8>>,
    score: u32,
) -> nat
    decreases addresses.len(),
{
    if addresses.len() == 0 {
        0
    } else {
        let rest = count_up_to(profiles, addresses.drop_last(), score);
        if profiles.contains_key(addresses.last()) && profiles[addresses.last()].score <= score {
            rest + 1
        } else {
            rest
        }
    }
}

impl ReputationState {
    /// The ledger with an address taken up.
    pub open spec fn take_up(self, address: Seq<u8>, now: u64) -> ReputationState {
        ReputationState {
            profiles: self.profiles.insert(address, base_profile(now)),
            scores: self.scores.insert(address, BASE_SCORE),
            population: self.population.push(address),
            ..self
        }
    }

    /// The ledger with one more entry in the history of an address, of which
    /// only the latest are kept.
    pub open spec fn log(self, address: Seq<u8>, entry: HistoryModel) -> ReputationState {
        ReputationState {
            histories: self.histories.insert(
                address,
                last_items(self.history(address).push(entry), MAX_HISTORY_POINTS as nat),
            ),
            ..self
        }
    }

    /// The ledger after an event that gives an address a new profile and a new
    /// working score.
    pub open spec fn record(
        self,
        address: Seq<u8>,
        profile: ReputationData,
        working: u32,
        event: Seq<u8>,
    ) -> ReputationState {
        ReputationState {
            profiles: self.profiles.insert(address, profile),
            scores: self.scores.insert(address, profile.score),
            working: self.working.insert(address, working),
            ..self
        }.log(
            address,
            HistoryModel { timestamp: profile.last_updated, score: profile.score, event },
        )
    }

    /// How many out of a hundred addresses score at most as high as `score`.
    pub open spec fn percentile(self, score: u32) -> nat {
        if self.population.len() == 0 {
            0
        } else {
            count_up_to(self.profiles, self.population, score) * 100 / self.population.len()
        }
    }
}

/// The ledger after a request to take up an address: as it was where the address
/// was taken up before.
pub open spec fn take_up_outcome(
    state: ReputationState,
    address: Seq<u8>,
    now: u64,
) -> ReputationState {
    if state.scores.contains_key(address) {
        state
    } else {
        state.take_up(address, now)
    }
}

/// The ledger after a transaction of an address, and the result: the new
/// working score.
pub open spec fn transaction_outcome(
    state: ReputationState,
    address: Seq<u8>,
    success: bool,
    amount: i128,
    now: u64,
) -> (ReputationState, Result<u32, ReputationScoreError>) {
    if state.profiles.contains_key(address) {
        let config = state.config->0;
        let working = reworked(
            state.working_score(address),
            success,
            config.transaction_success_weight,
            config.transaction_failure_weight,
            config.max_score,
        );
        let profile = after_transaction(state.profiles[address], config, success, amount, now);
        (state.record(address, profile, working, transaction_text(success)), Ok(working))
    } else {
        (state, Err(ReputationScoreError::NotInitialized))
    }
}

/// The ledger after the check of a credential of an address, and the result:
/// the new working score.
pub open spec fn credential_outcome(
    state: ReputationState,
    address: Seq<u8>,
    valid: bool,
    credential_type: Seq<u8>,
    now: u64,
) -> (ReputationState, Result<u32, ReputationScoreError>) {
    if state.profiles.contains_key(address) {
        let config = state.config->0;
        let working = reworked(
            state.working_score(address),
            valid,
            config.credential_valid_weight,
            config.credential_invalid_weight,
            config.max_score,
        );
        let profile = after_credential(state.profiles[address], config, valid, now);
        (state.record(address, profile, working, credential_type), Ok(working))
    } else {
        (state, Err(ReputationScoreError::NotInitialized))
    }
}

/// The counters of a transaction have room for one more.
pub open spec fn transaction_countable(profile: ReputationData, success: bool) -> bool {
    &&& profile.total_transactions < u32::MAX
    &&& success ==> profile.successful_transactions < u32::MAX
    &&& !success ==> profile.failed_transactions < u32::MAX
}

/// The counters of credentials have room for one more.
pub open spec fn credential_countable(profile: ReputationData, valid: bool) -> bool {
    &&& profile.total_credentials < u32::MAX
    &&& valid ==> profile.valid_credentials < u32::MAX
    &&& !valid ==> profile.invalid_credentials < u32::MAX
}

/// Where the address has a profile, a hundred times the count behind its
/// percentile is within the range of numbers.
pub open spec fn percentile_countable(state: ReputationState, address: Seq<u8>) -> bool {
    state.profiles.contains_key(address) ==> {
        &&& state.population.len() <= u32::MAX
        &&& count_up_to(state.profiles, state.population, state.profiles[address].score) * 100
            <= u32::MAX
    }
}

/// Whether the score of an address reaches a number of points.
pub open spec fn threshold_verdict(
    state: ReputationState,
    address: Seq<u8>,
    threshold: u32,
) -> Result<bool, ReputationScoreError> {
    if state.profiles.contains_key(address) {
        Ok(state.profiles[address].score >= threshold * SCORE_SCALE)
    } else {
        Err(ReputationScoreError::NotInitialized)
    }
}

/// The ledger after an attestation, and its result.
pub open spec fn attestation_outcome(
    state: ReputationState,
    attestation: AttestationModel,
) -> (ReputationState, Result<AttestationModel, ReputationScoreError>) {
    if attestation.weight > MAX_TRUST_WEIGHT {
        (state, Err(ReputationScoreError::InvalidScore))
    } else {
        (
            ReputationState {
                trust: state.trust.insert(
                    attestation.subject,
                    state.attestations(attestation.subject).push(attestation),
                ),
                ..state
            },
            Ok(attestation),
        )
    }
}

/// The attestation that was made, or why none was.
pub open spec fn attested_model(
    attested: Result<TrustAttestation, ReputationScoreError>,
) -> Result<AttestationModel, ReputationScoreError> {
    match attested {
        Ok(attestation) => Ok(attestation.model()),
        Err(error) => Err(error),
    }
}

/// The lowest 64 bits of the size of an amount.
fn size_of_amount(amount: i128) -> (size: u64)
    ensures
        size == amount_size(amount),
{
    let size: u128 = if amount >= 0 {
        amount as u128
    } else {
        (-(amount + 1)) as u128 + 1
    };
    (size % 0x1_0000_0000_0000_0000) as u64
}

fn move_score(score: u32, up: bool, gain: u32, loss: u32) -> (result: u32)
    ensures
        result == moved(score, up, gain, loss),
{
    if up {
        score.saturating_add(gain)
    } else {
        score.saturating_sub(loss)
    }
}

fn cap_score(score: u32, max_score: u32) -> (result: u32)
    ensures
        result == capped(score, max_score),
{
    if score > max_score {
        max_score
    } else {
        score
    }
}

fn rework_score(working: u32, up: bool, gain: u32, loss: u32, max_score: u32) -> (result: u32)
    ensures
        result == reworked(working, up, gain, loss, max_score),
{
    let score: u32 = move_score(working, up, gain, loss);
    if working <= max_score {
        cap_score(score, max_score)
    } else {
        score
    }
}

impl ReputationScore {
    /// Sets up the ledger, once.
    pub fn initialize(store: &mut ReputationStore, admin: Address, config: Config)
        requires
            old(store)@.admin is None,
        ensures
            final(store)@ == (ReputationState {
                admin: Some(admin.model()),
                config: Some(config),
                ..old(store)@
            }),
    {
        store.admin = Some(admin);
        store.config = Some(config);
    }

    /// The administrator of a ledger that was set up.
    pub fn get_admin(store: &ReputationStore) -> (admin: Address)
        requires
            store@.admin is Some,
        ensures
            Some(admin.model()) == store@.admin,
    {
        store.admin.as_ref().unwrap().copied()
    }

    /// The configuration of a ledger that was set up.
    pub fn get_config(store: &ReputationStore) -> (config: Config)
        requires
            store@.config is Some,
        ensures
            Some(config) == store@.config,
    {
        store.config.unwrap()
    }

    /// The published score of an address; zero where it has none.
    pub fn get_reputation_score(store: &ReputationStore, address: &Address) -> (score: u32)
        ensures
            score == if store@.scores.contains_key(address.model()) {
                store@.scores[address.model()]
            } else {
                0
            },
    {
        match store.scores.get(&address.key) {
            Some(score) => *score,
            None => 0,
        }
    }

    /// Takes up an address, unless it was taken up before.
    pub fn initialize_reputation(
        store: &mut ReputationStore,
        call: &Invocation,
        address: Address,
    ) -> (done: Result<(), ReputationScoreError>)
        ensures
            done == Ok::<(), ReputationScoreError>(()),
            final(store)@ == take_up_outcome(old(store)@, address.model(), call.timestamp),
    {
        if store.has(&DataKey::Score(address.copied())) {
            return Ok(());
        }
        let data = ReputationData {
            score: BASE_SCORE,
            total_transactions: 0,
            successful_transactions: 0,
            failed_transactions: 0,
            total_credentials: 0,
            valid_credentials: 0,
            invalid_credentials: 0,
            last_updated: call.timestamp,
            volume: 0,
        };
        store.profiles.set(&address.key, data);
        store.scores.set(&address.key, BASE_SCORE);
        store.population.push(address);
        assert(store@ =~= old(store)@.take_up(address.model(), call.timestamp));
        Ok(())
    }

    /// The profile of an address.
    pub fn load_profile(store: &ReputationStore, address: &Address) -> (profile: Result<
        ReputationData,
        ReputationScoreError,
    >)
        ensures
            profile == if store@.profiles.contains_key(address.model()) {
                Ok::<ReputationData, ReputationScoreError>(store@.profiles[address.model()])
            } else {
                Err::<ReputationData, ReputationScoreError>(ReputationScoreError::NotInitialized)
            },
    {
        match store.profiles.get(&address.key) {
            Some(profile) => Ok(*profile),
            None => Err(ReputationScoreError::NotInitialized),
        }
    }

    fn working_of(store: &ReputationStore, address: &Address, profile: &ReputationData) -> (working:
        u32)
        requires
            store@.profiles[address.model()] == *profile,
        ensures
            working == store@.working_score(address.model()),
    {
        match store.working.get(&address.key) {
            Some(working) => *working,
            None => profile.score,
        }
    }

    fn record_update(
        store: &mut ReputationStore,
        address: &Address,
        profile: ReputationData,
        working: u32,
        event: Bytes,
    )
        ensures
            final(store)@ == old(store)@.record(address.model(), profile, working, event@),
    {
        store.profiles.set(&address.key, profile);
        store.scores.set(&address.key, profile.score);
        store.working.set(&address.key, working);
        Self::append_history(store, address, profile.last_updated, profile.score, event);
        assert(store@ =~= old(store)@.record(address.model(), profile, working, event@));
    }

    /// Counts a transaction of an address. The result is the new working score:
    /// the published score, but for an address that stands, or stood, above the
    /// highest score, whose published score is capped at once.
    pub fn update_transaction_reputation(
        store: &mut ReputationStore,
        call: &Invocation,
        address: Address,
        success: bool,
        amount: i128,
    ) -> (score: Result<u32, ReputationScoreError>)
        requires
            old(store)@.config is Some,
            old(store)@.profiles.contains_key(address.model()) ==> transaction_countable(
                old(store)@.profiles[address.model()],
                success,
            ),
        ensures
            (final(store)@, score) == transaction_outcome(
                old(store)@,
                address.model(),
                success,
                amount,
                call.timestamp,
            ),
    {
        let config: Config = Self::get_config(store);
        let mut profile: ReputationData = match Self::load_profile(store, &address) {
            Ok(profile) => profile,
            Err(error) => {
                return Err(error);
            },
        };
        let gain: u32 = config.transaction_success_weight;
        let loss: u32 = config.transaction_failure_weight;
        let working: u32 = rework_score(
            Self::working_of(store, &address, &profile),
            success,
            gain,
            loss,
            config.max_score,
        );
        profile.total_transactions = profile.total_transactions + 1;
        if success {
            profile.successful_transactions = profile.successful_transactions + 1;
        } else {
            profile.failed_transactions = profile.failed_transactions + 1;
        }
        profile.score = cap_score(move_score(profile.score, success, gain, loss), config.max_score);
        profile.last_updated = call.timestamp;
        profile.volume = profile.volume.saturating_add(size_of_amount(amount));
        let event: Bytes = if success {
            vec![116, 120, 95, 115, 117, 99, 99, 101, 115, 115]
        } else {
            vec![116, 120, 95, 102, 97, 105, 108, 117, 114, 101]
        };
        assert(event@ =~= transaction_text(success));
        Self::record_update(store, &address, profile, working, event);
        Ok(working)
    }

    /// Counts the check of a credential of an address. The result is the new
    /// working score: the published score, but for an address that stands, or
    /// stood, above the highest score, whose published score is capped at once.
    pub fn update_credential_reputation(
        store: &mut ReputationStore,
        call: &Invocation,
        address: Address,
        valid: bool,
        credential_type: Bytes,
    ) -> (score: Result<u32, ReputationScoreError>)
        requires
            old(store)@.config is Some,
            old(store)@.profiles.contains_key(address.model()) ==> credential_countable(
                old(store)@.profiles[address.model()],
                valid,
            ),
        ensures
            (final(store)@, score) == credential_outcome(
                old(store)@,
                address.model(),
                valid,
                credential_type@,
                call.timestamp,
            ),
    {
        let config: Config = Self::get_config(store);
        let mut profile: ReputationData = match Self::load_profile(store, &address) {
            Ok(profile) => profile,
            Err(error) => {
                return Err(error);
            },
        };
        let gain: u32 = config.credential_valid_weight;
        let loss: u32 = config.credential_invalid_weight;
        let working: u32 = rework_score(
            Self::working_of(store, &address, &profile),
            valid,
            gain,
            loss,
            config.max_score,
        );
        profile.total_credentials = profile.total_credentials + 1;
        if valid {
            profile.valid_credentials = profile.valid_credentials + 1;
        } else {
            profile.invalid_credentials = profile.invalid_credentials + 1;
        }
        profile.score = cap_score(move_score(profile.score, valid, gain, loss), config.max_score);
        profile.last_updated = call.timestamp;
        Self::record_update(store, &address, profile, working, credential_type);
        Ok(working)
    }

    /// The last `limit` entries of the history of an address.
    pub fn get_reputation_history(
        store: &ReputationStore,
        address: &Address,
        limit: u32,
    ) -> (entries: Result<Vec<ReputationHistoryEntry>, ReputationScoreError>)
        ensures
            entries is Ok,
            entries->Ok_0.model() == last_items(store@.history(address.model()), limit as nat),
    {
        let history: Vec<ReputationHistoryEntry> = store.read_history(address);
        let len: usize = history.len();
        let start: usize = if len > limit as usize {
            len - limit as usize
        } else {
            0
        };
        let entries: Vec<ReputationHistoryEntry> = slice_of(&history, start, len);
        assert(entries.model() =~= last_items(history.model(), limit as nat));
        Ok(entries)
    }

    /// One page of the history of an address, `page_size` entries to a page.
    pub fn get_reputation_history_paginated(
        store: &ReputationStore,
        address: &Address,
        page: u32,
        page_size: u32,
    ) -> (result: Result<PaginatedReputationHistory, ReputationScoreError>)
        requires
            store@.history(address.model()).len() <= u32::MAX,
            page * page_size + page_size <= u32::MAX,
        ensures
            result is Ok,
            result->Ok_0.data.model() == paging::page_items(
                store@.history(address.model()),
                page,
                page_size,
            ),
            result->Ok_0.page == page,
            result->Ok_0.total == store@.history(address.model()).len(),
            result->Ok_0.has_more == paging::items_follow(
                store@.history(address.model()).len(),
                page,
                page_size,
            ),
    {
        proof {
            assert(0 <= page * page_size) by (nonlinear_arith);
        }
        let history: Vec<ReputationHistoryEntry> = store.read_history(address);
        assert(history.model().len() == history@.len());
        let total: u32 = history.len() as u32;
        let data: Vec<ReputationHistoryEntry> = page_of(&history, page, page_size);
        Ok(
            PaginatedReputationHistory {
                data,
                page,
                total,
                has_more: page * page_size + page_size < total,
            },
        )
    }

    fn count_scores(store: &ReputationStore, target: u32) -> (count: u32)
        requires
            store@.population.len() <= u32::MAX,
        ensures
            count == count_up_to(store@.profiles, store@.population, target),
    {
        let ghost everyone: Seq<Seq<u8>> = store@.population;
        let mut below_or_equal: u32 = 0;
        let mut i: usize = 0;
        while i < store.population.len()
            invariant
                i <= store.population@.len(),
                everyone == store@.population,
                everyone.len() == store.population@.len(),
                below_or_equal == count_up_to(store@.profiles, everyone.take(i as int), target),
                everyone.len() <= u32::MAX,
            decreases store.population@.len() - i,
        {
            let ghost seen: Seq<Seq<u8>> = everyone.take(i + 1);
            proof {
                assert(seen.drop_last() =~= everyone.take(i as int));
                lemma_count_bounds(store@.profiles, seen, target, target);
                assert(seen.last() == store.population@[i as int].model());
            }
            match Self::load_profile(store, &store.population[i]) {
                Ok(candidate) => {
                    if candidate.score <= target {
                        below_or_equal = below_or_equal + 1;
                    }
                },
                Err(_) => {},
            }
            i += 1;
        }
        assert(everyone.take(i as int) =~= everyone);
        below_or_equal
    }

    /// Whether the percentile of an address can be asked for: what it takes is
    /// within the range of numbers.
    pub fn percentile_possible(store: &ReputationStore, address: &Address) -> (possible: bool)
        ensures
            possible == percentile_countable(store@, address.model()),
    {
        match Self::load_profile(store, address) {
            Ok(profile) => store.population.len() <= u32::MAX as usize && Self::count_scores(
                store,
                profile.score,
            ) <= u32::MAX / 100,
            Err(_) => true,
        }
    }

    /// How many out of a hundred addresses score at most as high as the given
    /// one, rounded down.
    pub fn get_reputation_percentile(store: &ReputationStore, address: &Address) -> (percentile:
        Result<u32, ReputationScoreError>)
        requires
            percentile_countable(store@, address.model()),
        ensures
            match percentile {
                Ok(value) => store@.profiles.contains_key(address.model()) && value
                    == store@.percentile(store@.profiles[address.model()].score),
                Err(error) => !store@.profiles.contains_key(address.model()) && error
                    == ReputationScoreError::NotInitialized,
            },
    {
        let target: u32 = match Self::load_profile(store, address) {
            Ok(profile) => profile.score,
            Err(error) => {
                return Err(error);
            },
        };
        if store.population.len() == 0 {
            return Ok(0);
        }
        let below_or_equal: u32 = Self::count_scores(store, target);
        Ok((below_or_equal * 100) / (store.population.len() as u32))
    }

    /// Whether the score of an address reaches a number of points.
    pub fn meets_reputation_threshold(
        store: &ReputationStore,
        address: &Address,
        threshold: u32,
    ) -> (met: Result<bool, ReputationScoreError>)
        requires
            store@.profiles.contains_key(address.model()) ==> threshold * SCORE_SCALE <= u32::MAX,
        ensures
            met == threshold_verdict(store@, address.model(), threshold),
            met == if store@.profiles.contains_key(address.model()) {
                Ok::<bool, ReputationScoreError>(
                    store@.profiles[address.model()].score >= threshold * SCORE_SCALE,
                )
            } else {
                Err::<bool, ReputationScoreError>(ReputationScoreError::NotInitialized)
            },
    {
        match Self::load_profile(store, address) {
            Ok(profile) => Ok(profile.score >= threshold * SCORE_SCALE),
            Err(error) => Err(error),
        }
    }

    /// Records the word of `truster`, who has authorized the call, for
    /// `subject`.
    pub fn attest_trust(
        store: &mut ReputationStore,
        call: &Invocation,
        truster: Address,
        subject: Address,
        weight: u32,
        reason: Bytes,
    ) -> (attested: Result<TrustAttestation, ReputationScoreError>)
        requires
            call.signed_by(truster.model()),
        ensures
            (final(store)@, attested_model(attested)) == attestation_outcome(
                old(store)@,
                (AttestationModel {
                    truster: truster.model(),
                    subject: subject.model(),
                    weight,
                    reason: reason@,
                    timestamp: call.timestamp,
                }),
            ),
    {
        if weight > MAX_TRUST_WEIGHT {
            return Err(ReputationScoreError::InvalidScore);
        }
        let attestation = TrustAttestation {
            truster,
            subject: subject.copied(),
            weight,
            reason,
            timestamp: call.timestamp,
        };
        let mut attestations: Vec<TrustAttestation> = store.read_attestations(&subject);
        let ghost before: Seq<AttestationModel> = attestations.model();
        attestations.push(attestation.copied());
        assert(attestations.model() =~= before.push(attestation.model()));
        store.trust.set(&subject.key, attestations);
        Ok(attestation)
    }

    /// The attestations for an address, in the order in which they were made.
    pub fn get_trust_attestations(store: &ReputationStore, subject: &Address) -> (list: Vec<
        TrustAttestation,
    >)
        ensures
            list.model() == store@.attestations(subject.model()),
    {
        store.read_attestations(subject)
    }

    /// The addresses that were taken up, in order.
    pub fn population(store: &ReputationStore) -> (list: Vec<Address>)
        ensures
            list.model() == store@.population,
    {
        store.population.copied()
    }

    /// Adds an entry to the history of an address and cuts off the oldest where
    /// the history is too long.
    fn append_history(
        store: &mut ReputationStore,
        address: &Address,
        now: u64,
        score: u32,
        event: Bytes,
    )
        ensures
            final(store)@ == old(store)@.log(
                address.model(),
                (HistoryModel { timestamp: now, score, event: event@ }),
            ),
    {
        let mut history: Vec<ReputationHistoryEntry> = store.read_history(address);
        let ghost before: Seq<HistoryModel> = history.model();
        let entry = ReputationHistoryEntry { timestamp: now, score, event };
        history.push(entry);
        assert(history.model() =~= before.push(entry.model()));
        if history.len() > MAX_HISTORY_POINTS {
            let start: usize = history.len() - MAX_HISTORY_POINTS;
            let trimmed: Vec<ReputationHistoryEntry> = slice_of(&history, start, history.len());
            assert(trimmed.model() =~= last_items(history.model(), MAX_HISTORY_POINTS as nat));
            history = trimmed;
        }
        store.histories.set(&address.key, history);
        assert(store@ =~= old(store)@.log(
            address.model(),
            HistoryModel { timestamp: now, score, event: event@ },
        ));
    }
}

/// No fewer addresses are counted for a higher score, and no more than there are.
pub proof fn lemma_count_bounds(
    profiles: Map<Seq<u8>, ReputationData>,
    addresses: Seq<Seq<u8>>,
    low: u32,
    high: u32,
)
    requires
        low <= high,
    ensures
        count_up_to(profiles, addresses, low) <= count_up_to(profiles, addresses, high)
            <= addresses.len(),
    decreases addresses.len(),
{
    if addresses.len() > 0 {
        lemma_count_bounds(profiles, addresses.drop_last(), low, high);
    }
}

} // verus!
