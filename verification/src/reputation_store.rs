//! What the reputation ledger stores.

use vstd::prelude::*;

use crate::ledger::Address;
use crate::model::Modeled;
use crate::reputation::{
    AttestationModel, Config, DataKey, HistoryModel, ReputationData, ReputationHistoryEntry,
    TrustAttestation,
};
use crate::table::Table;

verus! {

/// Everything that the reputation ledger stores.
///
/// For each address the ledger keeps its profile, the published score, which
/// never exceeds the highest score once an event has been counted, and the
/// working score. The two are the same, but for an address that begins above
/// the highest score: its working score counts the same events without that
/// limit, until it is no longer above it.
pub struct ReputationStore {
    pub admin: Option<Address>,
    pub config: Option<Config>,
    pub scores: Table<u32>,
    pub profiles: Table<ReputationData>,
    pub working: Table<u32>,
    pub histories: Table<Vec<ReputationHistoryEntry>>,
    pub trust: Table<Vec<TrustAttestation>>,
    pub population: Vec<Address>,
}

/// What a reputation ledger means. Everything but the configuration and the
/// population is found by an address.
#[verifier::ext_equal]
pub struct ReputationState {
    pub admin: Option<Seq<u8>>,
    pub config: Option<Config>,
    pub scores: Map<Seq<u8>, u32>,
    pub profiles: Map<Seq<u8>, ReputationData>,
    pub working: Map<Seq<u8>, u32>,
    pub histories: Map<Seq<u8>, Seq<HistoryModel>>,
    pub trust: Map<Seq<u8>, Seq<AttestationModel>>,
    pub population: Seq<Seq<u8>>,
}

impl ReputationState {
    /// A ledger on which nothing has happened.
    pub open spec fn empty() -> ReputationState {
        ReputationState {
            admin: None,
            config: None,
            scores: Map::empty(),
            profiles: Map::empty(),
            working: Map::empty(),
            histories: Map::empty(),
            trust: Map::empty(),
            population: Seq::empty(),
        }
    }

    /// Whether there is something at a place of the ledger.
    pub open spec fn occupied(self, key: DataKey) -> bool {
        match key {
            DataKey::Config => self.config is Some,
            DataKey::Admin => self.admin is Some,
            DataKey::Score(address) => self.scores.contains_key(address.model()),
            DataKey::Profile(address) => self.profiles.contains_key(address.model()),
            DataKey::Working(address) => self.working.contains_key(address.model()),
            DataKey::History(address) => self.histories.contains_key(address.model()),
            DataKey::Trust(address) => self.trust.contains_key(address.model()),
            DataKey::Population => self.population.len() > 0,
        }
    }

    /// The history of an address, empty where there is none.
    pub open spec fn history(self, address: Seq<u8>) -> Seq<HistoryModel> {
        if self.histories.contains_key(address) {
            self.histories[address]
        } else {
            Seq::empty()
        }
    }

    /// The attestations for an address, none where there are none.
    pub open spec fn attestations(self, subject: Seq<u8>) -> Seq<AttestationModel> {
        if self.trust.contains_key(subject) {
            self.trust[subject]
        } else {
            Seq::empty()
        }
    }

    /// The working score of an address with a profile: the profile's score as
    /// long as no event has been counted.
    pub open spec fn working_score(self, address: Seq<u8>) -> u32 {
        if self.working.contains_key(address) {
            self.working[address]
        } else {
            self.profiles[address].score
        }
    }
}

impl View for ReputationStore {
    type V = ReputationState;

    open spec fn view(&self) -> ReputationState {
        ReputationState {
            admin: self.admin.model(),
            config: self.config,
            scores: self.scores@,
            profiles: self.profiles@,
            working: self.working@,
            histories: self.histories@,
            trust: self.trust@,
            population: self.population.model(),
        }
    }
}

impl ReputationStore {
    /// A ledger on which nothing has happened.
    pub fn new() -> (store: ReputationStore)
        ensures
            store@ == ReputationState::empty(),
    {
        let population: Vec<Address> = Vec::new();
        assert(population.model() =~= Seq::<Seq<u8>>::empty());
        ReputationStore {
            admin: None,
            config: None,
            scores: Table::new(),
            profiles: Table::new(),
            working: Table::new(),
            histories: Table::new(),
            trust: Table::new(),
            population,
        }
    }

    /// Whether there is something at a place of the ledger.
    pub fn has(&self, key: &DataKey) -> (occupied: bool)
        ensures
            occupied == self@.occupied(*key),
    {
        match key {
            DataKey::Config => self.config.is_some(),
            DataKey::Admin => self.admin.is_some(),
            DataKey::Score(address) => self.scores.has(&address.key),
            DataKey::Profile(address) => self.profiles.has(&address.key),
            DataKey::Working(address) => self.working.has(&address.key),
            DataKey::History(address) => self.histories.has(&address.key),
            DataKey::Trust(address) => self.trust.has(&address.key),
            DataKey::Population => self.population.len() > 0,
        }
    }

    /// The history of an address, empty where there is none.
    pub(crate) fn read_history(&self, address: &Address) -> (history: Vec<ReputationHistoryEntry>)
        ensures
            history.model() == self@.history(address.model()),
    {
        match self.histories.get(&address.key) {
            Some(history) => history.copied(),
            None => {
                let history: Vec<ReputationHistoryEntry> = Vec::new();
                assert(history.model() =~= Seq::<HistoryModel>::empty());
                history
            },
        }
    }

    /// The attestations for an address, none where there are none.
    pub(crate) fn read_attestations(&self, subject: &Address) -> (list: Vec<TrustAttestation>)
        ensures
            list.model() == self@.attestations(subject.model()),
    {
        match self.trust.get(&subject.key) {
            Some(list) => list.copied(),
            None => {
                let list: Vec<TrustAttestation> = Vec::new();
                assert(list.model() =~= Seq::<AttestationModel>::empty());
                list
            },
        }
    }
}

} // verus!
