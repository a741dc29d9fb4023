use trust_ledger::ledger::{Address, Invocation};
use trust_ledger::reputation::{
    Config, DataKey, ReputationHistoryEntry, ReputationScoreError, ReputationScoreEvent,
};
use trust_ledger::reputation_score::{ReputationScore, BASE_SCORE};
use trust_ledger::reputation_store::ReputationStore;

fn person(name: &str) -> Address {
    Address { key: name.as_bytes().to_vec() }
}

fn at(timestamp: u64) -> Invocation {
    Invocation { timestamp, sequence: 1, signers: vec![] }
}

fn small_config() -> Config {
    Config {
        max_score: 100,
        transaction_success_weight: 10,
        transaction_failure_weight: 5,
        credential_valid_weight: 20,
        credential_invalid_weight: 15,
    }
}

fn wide_config() -> Config {
    Config { max_score: 10000, ..small_config() }
}

fn with_people(config: Config, names: &[&str]) -> ReputationStore {
    let mut store = ReputationStore::new();
    ReputationScore::initialize(&mut store, person("admin"), config);
    for name in names {
        ReputationScore::initialize_reputation(&mut store, &at(5), person(name)).unwrap();
    }
    store
}

#[test]
fn test_initialization_and_score_bounds() {
    let mut store = ReputationStore::new();
    let admin = person("admin");
    let user = person("user");
    let config = Config {
        max_score: 100,
        transaction_success_weight: 10,
        transaction_failure_weight: 5,
        credential_valid_weight: 20,
        credential_invalid_weight: 15,
    };

    ReputationScore::initialize(&mut store, admin, config);
    ReputationScore::initialize_reputation(&mut store, &at(0), user.clone()).unwrap();

    let score = ReputationScore::get_reputation_score(&store, &user);
    assert_eq!(score, BASE_SCORE);

    for _ in 0..15 {
        ReputationScore::update_transaction_reputation(&mut store, &at(0), user.clone(), true, 0).unwrap();
    }
    assert_eq!(ReputationScore::get_reputation_score(&store, &user), 100);

    for _ in 0..20 {
        ReputationScore::update_transaction_reputation(&mut store, &at(0), user.clone(), false, 0).unwrap();
    }
    assert_eq!(ReputationScore::get_reputation_score(&store, &user), 0);
}

#[test]
fn test_transaction_updates() {
    let mut store = ReputationStore::new();
    let admin = person("admin");
    let user = person("user");
    let config = Config {
        max_score: 100,
        transaction_success_weight: 10,
        transaction_failure_weight: 5,
        credential_valid_weight: 20,
        credential_invalid_weight: 15,
    };

    ReputationScore::initialize(&mut store, admin, config);
    ReputationScore::initialize_reputation(&mut store, &at(0), user.clone()).unwrap();

    let score = ReputationScore::update_transaction_reputation(&mut store, &at(0), user.clone(), true, 100).unwrap();
    assert_eq!(score, BASE_SCORE + 10);

    let score = ReputationScore::update_transaction_reputation(&mut store, &at(0), user.clone(), false, 0).unwrap();
    assert_eq!(score, BASE_SCORE + 5);
}

#[test]
fn test_credential_updates() {
    let mut store = ReputationStore::new();
    let admin = person("admin");
    let user = person("user");
    let config = Config {
        max_score: 100,
        transaction_success_weight: 10,
        transaction_failure_weight: 5,
        credential_valid_weight: 20,
        credential_invalid_weight: 15,
    };

    ReputationScore::initialize(&mut store, admin, config);
    ReputationScore::initialize_reputation(&mut store, &at(0), user.clone()).unwrap();

    let cred_type = b"KYC".to_vec();
    let score = ReputationScore::update_credential_reputation(&mut store, &at(0), user.clone(), true, cred_type.clone()).unwrap();
    assert_eq!(score, BASE_SCORE + 20);

    let score = ReputationScore::update_credential_reputation(&mut store, &at(0), user.clone(), false, cred_type).unwrap();
    assert_eq!(score, BASE_SCORE + 5);
}

#[test]
fn setting_up_keeps_admin_and_config() {
    let store = with_people(small_config(), &[]);
    assert_eq!(ReputationScore::get_admin(&store), person("admin"));
    assert_eq!(ReputationScore::get_config(&store), small_config());
    assert!(store.has(&DataKey::Config));
    assert!(store.has(&DataKey::Admin));
    assert!(!store.has(&DataKey::Population));
    assert!(!ReputationStore::new().has(&DataKey::Admin));
}

#[test]
fn taking_up_twice_changes_nothing() {
    let mut store = with_people(wide_config(), &["ann"]);
    ReputationScore::update_transaction_reputation(&mut store, &at(9), person("ann"), true, 3).unwrap();
    ReputationScore::initialize_reputation(&mut store, &at(20), person("ann")).unwrap();
    let profile = ReputationScore::load_profile(&store, &person("ann")).unwrap();
    assert_eq!(profile.score, 810);
    assert_eq!(profile.last_updated, 9);
    assert_eq!(ReputationScore::population(&store), vec![person("ann")]);
    assert!(store.has(&DataKey::Score(person("ann"))));
    assert!(store.has(&DataKey::Profile(person("ann"))));
    assert!(store.has(&DataKey::Working(person("ann"))));
    assert!(store.has(&DataKey::History(person("ann"))));
    assert!(!store.has(&DataKey::Trust(person("ann"))));
    assert!(store.has(&DataKey::Population));
}

#[test]
fn strangers_have_no_profile() {
    let mut store = with_people(small_config(), &["ann"]);
    let bob = person("bob");
    assert_eq!(ReputationScore::get_reputation_score(&store, &bob), 0);
    assert_eq!(ReputationScore::load_profile(&store, &bob), Err(ReputationScoreError::NotInitialized));
    assert_eq!(
        ReputationScore::update_transaction_reputation(&mut store, &at(1), bob.clone(), true, 1),
        Err(ReputationScoreError::NotInitialized)
    );
    assert_eq!(
        ReputationScore::update_credential_reputation(&mut store, &at(1), bob.clone(), true, vec![1]),
        Err(ReputationScoreError::NotInitialized)
    );
    assert_eq!(
        ReputationScore::get_reputation_percentile(&store, &bob),
        Err(ReputationScoreError::NotInitialized)
    );
    assert_eq!(
        ReputationScore::meets_reputation_threshold(&store, &bob, u32::MAX),
        Err(ReputationScoreError::NotInitialized)
    );
}

#[test]
fn transactions_are_counted() {
    let mut store = with_people(wide_config(), &["ann"]);
    let ann = person("ann");
    assert_eq!(ReputationScore::update_transaction_reputation(&mut store, &at(7), ann.clone(), true, 25), Ok(810));
    assert_eq!(ReputationScore::update_transaction_reputation(&mut store, &at(8), ann.clone(), false, -5), Ok(805));
    let profile = ReputationScore::load_profile(&store, &ann).unwrap();
    assert_eq!(profile.score, 805);
    assert_eq!(profile.total_transactions, 2);
    assert_eq!(profile.successful_transactions, 1);
    assert_eq!(profile.failed_transactions, 1);
    assert_eq!(profile.total_credentials, 0);
    assert_eq!(profile.last_updated, 8);
    assert_eq!(profile.volume, 30);
    assert_eq!(ReputationScore::get_reputation_score(&store, &ann), 805);
}

#[test]
fn credentials_are_counted() {
    let mut store = with_people(wide_config(), &["ann"]);
    let ann = person("ann");
    assert_eq!(ReputationScore::update_credential_reputation(&mut store, &at(7), ann.clone(), true, b"KYC".to_vec()), Ok(820));
    assert_eq!(ReputationScore::update_credential_reputation(&mut store, &at(8), ann.clone(), false, b"AML".to_vec()), Ok(805));
    let profile = ReputationScore::load_profile(&store, &ann).unwrap();
    assert_eq!(profile.total_credentials, 2);
    assert_eq!(profile.valid_credentials, 1);
    assert_eq!(profile.invalid_credentials, 1);
    assert_eq!(profile.total_transactions, 0);
    assert_eq!(profile.volume, 0);
    let history = ReputationScore::get_reputation_history(&store, &ann, 10).unwrap();
    assert_eq!(history.len(), 2);
    assert_eq!(history[0], ReputationHistoryEntry { timestamp: 7, score: 820, event: b"KYC".to_vec() });
    assert_eq!(history[1], ReputationHistoryEntry { timestamp: 8, score: 805, event: b"AML".to_vec() });
}

#[test]
fn volume_takes_the_low_bits_and_saturates() {
    let mut store = with_people(wide_config(), &["ann"]);
    let ann = person("ann");
    let wrapped: i128 = (1i128 << 64) + 9;
    ReputationScore::update_transaction_reputation(&mut store, &at(1), ann.clone(), true, wrapped).unwrap();
    assert_eq!(ReputationScore::load_profile(&store, &ann).unwrap().volume, 9);
    ReputationScore::update_transaction_reputation(&mut store, &at(1), ann.clone(), true, i128::MIN).unwrap();
    assert_eq!(ReputationScore::load_profile(&store, &ann).unwrap().volume, 9);
    ReputationScore::update_transaction_reputation(&mut store, &at(1), ann.clone(), true, -1).unwrap();
    assert_eq!(ReputationScore::load_profile(&store, &ann).unwrap().volume, 10);
    ReputationScore::update_transaction_reputation(&mut store, &at(1), ann.clone(), true, u64::MAX as i128).unwrap();
    assert_eq!(ReputationScore::load_profile(&store, &ann).unwrap().volume, u64::MAX);
}

#[test]
fn results_are_capped_like_the_published_score() {
    let mut store = with_people(Config { max_score: 815, ..small_config() }, &["ann", "bob"]);
    let ann = person("ann");
    for (success, expected) in [(true, 810), (true, 815), (false, 810), (true, 815), (true, 815)] {
        let result = ReputationScore::update_transaction_reputation(
            &mut store,
            &at(1),
            ann.clone(),
            success,
            0,
        );
        assert_eq!(result, Ok(expected));
        assert_eq!(ReputationScore::get_reputation_score(&store, &ann), expected);
        assert_eq!(ReputationScore::load_profile(&store, &ann).unwrap().score, expected);
        let newest = ReputationScore::get_reputation_history(&store, &ann, 1).unwrap();
        assert_eq!(newest[0].score, expected);
    }
    let bob = person("bob");
    for (valid, expected) in [(true, 815), (false, 800), (true, 815)] {
        let result = ReputationScore::update_credential_reputation(
            &mut store,
            &at(1),
            bob.clone(),
            valid,
            b"KYC".to_vec(),
        );
        assert_eq!(result, Ok(expected));
        assert_eq!(ReputationScore::get_reputation_score(&store, &bob), expected);
        assert_eq!(ReputationScore::load_profile(&store, &bob).unwrap().score, expected);
        let newest = ReputationScore::get_reputation_history(&store, &bob, 1).unwrap();
        assert_eq!(newest[0].score, expected);
    }
}

#[test]
fn an_address_that_begins_above_the_highest_score() {
    let config = Config { max_score: 795, transaction_failure_weight: 4, ..small_config() };
    let mut store = with_people(config, &["ann"]);
    let ann = person("ann");
    let steps = [(true, 810, 795), (false, 806, 791), (false, 802, 787), (false, 798, 783)];
    for (success, result, published) in steps {
        let update = ReputationScore::update_transaction_reputation(
            &mut store,
            &at(1),
            ann.clone(),
            success,
            0,
        );
        assert_eq!(update, Ok(result));
        assert_eq!(ReputationScore::get_reputation_score(&store, &ann), published);
    }
    let below = [(false, 794, 779), (true, 795, 789), (true, 795, 795), (false, 791, 791)];
    for (success, result, published) in below {
        let update = ReputationScore::update_transaction_reputation(
            &mut store,
            &at(1),
            ann.clone(),
            success,
            0,
        );
        assert_eq!(update, Ok(result));
        assert_eq!(ReputationScore::get_reputation_score(&store, &ann), published);
    }
}

#[test]
fn scores_saturate() {
    let mut store = with_people(
        Config {
            max_score: u32::MAX,
            transaction_success_weight: u32::MAX,
            transaction_failure_weight: u32::MAX,
            credential_valid_weight: 1,
            credential_invalid_weight: 1,
        },
        &["ann"],
    );
    let ann = person("ann");
    assert_eq!(ReputationScore::update_transaction_reputation(&mut store, &at(1), ann.clone(), true, 0), Ok(u32::MAX));
    assert_eq!(ReputationScore::update_transaction_reputation(&mut store, &at(1), ann.clone(), false, 0), Ok(0));
    assert_eq!(ReputationScore::update_credential_reputation(&mut store, &at(1), ann.clone(), false, vec![]), Ok(0));
}

#[test]
fn one_address_does_not_move_another() {
    let mut store = with_people(wide_config(), &["ann", "bob"]);
    ReputationScore::update_transaction_reputation(&mut store, &at(1), person("ann"), false, 4).unwrap();
    assert_eq!(ReputationScore::get_reputation_score(&store, &person("ann")), 795);
    assert_eq!(ReputationScore::get_reputation_score(&store, &person("bob")), 800);
    assert_eq!(ReputationScore::get_reputation_history(&store, &person("bob"), 5).unwrap().len(), 0);
}

#[test]
fn history_is_cut_off_at_the_oldest() {
    let mut store = with_people(wide_config(), &["ann"]);
    let ann = person("ann");
    for time in 1..=125u64 {
        ReputationScore::update_transaction_reputation(&mut store, &at(time), ann.clone(), true, 0).unwrap();
    }
    let all = ReputationScore::get_reputation_history(&store, &ann, 1000).unwrap();
    assert_eq!(all.len(), 120);
    assert_eq!(all[0].timestamp, 6);
    assert_eq!(all[0].score, 860);
    assert_eq!(all[0].event, b"tx_success".to_vec());
    assert_eq!(all[119].timestamp, 125);
    let last = ReputationScore::get_reputation_history(&store, &ann, 2).unwrap();
    assert_eq!(last.len(), 2);
    assert_eq!(last[0].timestamp, 124);
    assert_eq!(ReputationScore::get_reputation_history(&store, &ann, 0).unwrap().len(), 0);
    ReputationScore::update_transaction_reputation(&mut store, &at(126), ann.clone(), false, 0).unwrap();
    assert_eq!(ReputationScore::get_reputation_history(&store, &ann, 1).unwrap()[0].event, b"tx_failure".to_vec());
}

#[test]
fn history_comes_in_pages() {
    let mut store = with_people(wide_config(), &["ann"]);
    let ann = person("ann");
    for time in 1..=5u64 {
        ReputationScore::update_transaction_reputation(&mut store, &at(time), ann.clone(), true, 0).unwrap();
    }
    let mut times = vec![];
    for page in 0..3u32 {
        let result = ReputationScore::get_reputation_history_paginated(&store, &ann, page, 2).unwrap();
        assert_eq!(result.page, page);
        assert_eq!(result.total, 5);
        assert_eq!(result.has_more, page < 2);
        for entry in result.data {
            times.push(entry.timestamp);
        }
    }
    assert_eq!(times, vec![1, 2, 3, 4, 5]);
    let beyond = ReputationScore::get_reputation_history_paginated(&store, &ann, 9, 2).unwrap();
    assert_eq!(beyond.data.len(), 0);
    assert!(!beyond.has_more);
}

#[test]
fn percentiles_rank_addresses() {
    let mut store = with_people(wide_config(), &["ann", "bob", "cleo"]);
    ReputationScore::update_transaction_reputation(&mut store, &at(1), person("ann"), false, 0).unwrap();
    ReputationScore::update_transaction_reputation(&mut store, &at(1), person("cleo"), true, 0).unwrap();
    assert_eq!(ReputationScore::get_reputation_percentile(&store, &person("ann")), Ok(33));
    assert_eq!(ReputationScore::get_reputation_percentile(&store, &person("bob")), Ok(66));
    assert_eq!(ReputationScore::get_reputation_percentile(&store, &person("cleo")), Ok(100));
}

#[test]
fn thresholds_are_in_points() {
    let store = with_people(wide_config(), &["ann"]);
    assert_eq!(ReputationScore::meets_reputation_threshold(&store, &person("ann"), 80), Ok(true));
    assert_eq!(ReputationScore::meets_reputation_threshold(&store, &person("ann"), 81), Ok(false));
    assert_eq!(ReputationScore::meets_reputation_threshold(&store, &person("ann"), 0), Ok(true));
}

#[test]
fn attestations_are_listed_in_order() {
    let mut store = ReputationStore::new();
    let ann = person("ann");
    let bob = person("bob");
    let call = Invocation { timestamp: 42, sequence: 1, signers: vec![ann.clone()] };
    let first = ReputationScore::attest_trust(&mut store, &call, ann.clone(), bob.clone(), 1000, b"met".to_vec()).unwrap();
    assert_eq!(first.truster, ann);
    assert_eq!(first.subject, bob);
    assert_eq!(first.weight, 1000);
    assert_eq!(first.reason, b"met".to_vec());
    assert_eq!(first.timestamp, 42);
    let second = ReputationScore::attest_trust(&mut store, &call, ann.clone(), bob.clone(), 0, vec![]).unwrap();
    assert_eq!(
        ReputationScore::attest_trust(&mut store, &call, ann.clone(), bob.clone(), 1001, vec![]),
        Err(ReputationScoreError::InvalidScore)
    );
    assert_eq!(ReputationScore::get_trust_attestations(&store, &bob), vec![first, second]);
    assert_eq!(ReputationScore::get_trust_attestations(&store, &ann).len(), 0);
}

#[test]
fn reputation_errors_have_their_numbers() {
    assert_eq!(ReputationScoreError::NotInitialized.code(), 1);
    assert_eq!(ReputationScoreError::NotAdmin.code(), 2);
    assert_eq!(ReputationScoreError::InvalidScore.code(), 3);
    let event = ReputationScoreEvent::ReputationScoreUpdated(person("ann"), 7, vec![1]);
    assert_eq!(event.clone(), event);
}

#[test]
fn percentiles_of_small_populations_are_possible() {
    let store = with_people(wide_config(), &["ann", "bob"]);
    assert!(ReputationScore::percentile_possible(&store, &person("ann")));
    assert!(ReputationScore::percentile_possible(&store, &person("nobody")));
}

#[test]
fn errors_are_ordered_by_their_numbers_here_too() {
    assert!(ReputationScoreError::NotInitialized < ReputationScoreError::InvalidScore);
}

#[test]
fn a_ledger_keeps_what_was_counted() {
    let mut store = with_people(wide_config(), &["ann", "bob"]);
    let ann = person("ann");
    for time in 0..130u64 {
        let success = time % 3 != 0;
        ReputationScore::update_transaction_reputation(&mut store, &at(time), ann.clone(), success, 1)
            .unwrap();
    }
    ReputationScore::update_credential_reputation(
        &mut store,
        &at(130),
        ann.clone(),
        false,
        b"KYC".to_vec(),
    )
    .unwrap();
    for name in ["bob", "cid", "ann"] {
        ReputationScore::initialize_reputation(&mut store, &at(131), person(name)).unwrap();
    }
    let stranger = ReputationScore::update_transaction_reputation(
        &mut store,
        &at(132),
        person("eve"),
        true,
        1,
    );
    assert_eq!(stranger, Err(ReputationScoreError::NotInitialized));

    let profile = ReputationScore::load_profile(&store, &ann).unwrap();
    assert_eq!(profile.total_transactions, 130);
    assert_eq!(profile.failed_transactions, 44);
    assert_eq!(profile.successful_transactions, 86);
    assert_eq!(profile.total_credentials, 1);
    assert_eq!(profile.invalid_credentials, 1);
    let history = ReputationScore::get_reputation_history(&store, &ann, 500).unwrap();
    assert_eq!(history.len(), 120);
    assert_eq!(history[0].timestamp, 11);
    assert_eq!(history[119].timestamp, 130);
    assert_eq!(history[119].event, b"KYC".to_vec());
    let names: Vec<Vec<u8>> =
        ReputationScore::population(&store).iter().map(|a| a.key.clone()).collect();
    assert_eq!(names, vec![b"ann".to_vec(), b"bob".to_vec(), b"cid".to_vec()]);
}
