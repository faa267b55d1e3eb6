use pd::verify::{FundingStream, NoteData, PositionedNoteData, Validator};
use pd::writer::{
    AppState, AssetRecord, BaseRateData, ChainParams, CommitError, PendingBlock, RateData,
    ValidatorPower, ValidatorState, ValidatorStatus, Writer, NUM_RECENT_ANCHORS, RATE_SCALE,
};

fn h(b: u8) -> [u8; 32] {
    [b; 32]
}

fn params() -> ChainParams {
    ChainParams {
        chain_id: "testnet".to_string(),
        epoch_duration: 100,
        unbonding_epochs: 3,
        active_validator_limit: 10,
    }
}

fn validator(id: u8, power: u64) -> ValidatorPower {
    ValidatorPower {
        validator: Validator {
            identity_key: h(id),
            consensus_key: vec![id; 32],
            sequence_number: 0,
            name: "v".to_string(),
            website: "https://example.com".to_string(),
            description: "a validator".to_string(),
            funding_streams: vec![FundingStream { address: "addr".to_string(), rate_bps: 500 }],
        },
        power,
    }
}

fn genesis_one() -> AppState {
    AppState { chain_params: params(), validators: vec![validator(7, 1000)] }
}

fn note(cm: u8, position: u64) -> ([u8; 32], PositionedNoteData) {
    (
        h(cm),
        PositionedNoteData {
            position,
            data: NoteData { ephemeral_key: h(cm), encrypted_note: vec![cm; 4], transaction_id: h(9) },
        },
    )
}

fn block(height: u64, anchor: u8) -> PendingBlock {
    PendingBlock {
        height,
        epoch_index: 0,
        nct_anchor: h(anchor),
        nct_bytes: vec![anchor],
        notes: vec![],
        spent_nullifiers: vec![],
        delegation_changes: vec![],
        next_base_rate: None,
        next_rates: None,
        next_validator_statuses: None,
        supply_updates: vec![],
    }
}

fn rate(id: u8, epoch: u64) -> (u64, u64, u64, [u8; 32]) {
    let _ = id;
    (epoch, 0, RATE_SCALE, h(id))
}

fn rate_tuple(r: &RateData) -> (u64, u64, u64, [u8; 32]) {
    (r.epoch_index, r.validator_reward_rate, r.validator_exchange_rate, r.identity_key)
}

fn base_tuple(b: &BaseRateData) -> (u64, u64, u64) {
    (b.epoch_index, b.base_reward_rate, b.base_exchange_rate)
}

#[test]
fn genesis_with_one_validator() {
    let mut w = Writer::new();
    assert_eq!(w.commit_genesis(genesis_one(), b"{}".to_vec()), Ok(()));
    let base: Vec<_> = w.base_rates().iter().map(base_tuple).collect();
    assert_eq!(base, vec![(0, 0, 100000000), (1, 0, 100000000)]);
    let rates: Vec<_> = w.validator_rates().iter().map(rate_tuple).collect();
    assert_eq!(rates, vec![rate(7, 0), rate(7, 1)]);
    let next: Vec<_> = w.private_reader().next_rate_data.iter().map(rate_tuple).collect();
    assert_eq!(next, vec![(1, 0, 100000000, h(7))]);
    assert_eq!(w.validators().len(), 1);
    assert_eq!(w.validators()[0].identity_key, h(7));
    assert_eq!(w.validators()[0].voting_power, 1000);
    assert_eq!(w.validators()[0].state, ValidatorState::Active);
    assert_eq!(w.validators()[0].unbonding_epoch, None);
    let defs = w.validator_definitions();
    assert_eq!(defs[0].validator.funding_streams[0].address, "addr");
    assert_eq!(defs[0].validator.funding_streams[0].rate_bps, 500);
    assert_eq!(w.private_reader().chain_params.as_ref().unwrap().chain_id, "testnet");
    assert_eq!(w.genesis_blob().as_ref().unwrap(), &b"{}".to_vec());
    assert_eq!(w.private_reader().height, 0);
    assert!(w.private_reader().anchors.is_empty());
}

#[test]
fn genesis_twice_fails_and_keeps_the_first() {
    let mut w = Writer::new();
    assert_eq!(w.commit_genesis(genesis_one(), b"first".to_vec()), Ok(()));
    let second = AppState { chain_params: params(), validators: vec![validator(8, 5)] };
    assert_eq!(
        w.commit_genesis(second, b"second".to_vec()),
        Err(CommitError::GenesisAlreadyCommitted)
    );
    assert_eq!(w.genesis_blob().as_ref().unwrap(), &b"first".to_vec());
    assert_eq!(w.validators().len(), 1);
    assert_eq!(w.base_rates().len(), 2);
    assert_eq!(w.validator_rates().len(), 2);
    assert_eq!(w.private_reader().next_rate_data.len(), 1);
}

#[test]
fn genesis_rates_for_two_validators() {
    let mut w = Writer::new();
    let g = AppState { chain_params: params(), validators: vec![validator(1, 10), validator(2, 20)] };
    assert_eq!(w.commit_genesis(g, vec![]), Ok(()));
    let rates: Vec<_> = w.validator_rates().iter().map(rate_tuple).collect();
    assert_eq!(rates, vec![rate(1, 0), rate(1, 1), rate(2, 0), rate(2, 1)]);
    let next: Vec<_> = w.private_reader().next_rate_data.iter().map(rate_tuple).collect();
    assert_eq!(next, vec![rate(1, 1), rate(2, 1)]);
}

#[test]
fn first_block_with_one_note_and_one_nullifier() {
    let mut w = Writer::new();
    w.commit_genesis(genesis_one(), vec![]).unwrap();
    let mut b = block(1, 40);
    b.notes.push(note(10, 0));
    b.spent_nullifiers.push(h(20));
    let app_hash = h(77);
    let out = w.commit_block(b, app_hash).unwrap();
    assert_eq!(out, app_hash.to_vec());
    assert_eq!(w.private_reader().height, 1);
    assert_eq!(w.private_reader().anchors, vec![h(40)]);
    assert_eq!(w.blocks().len(), 1);
    assert_eq!(w.blocks()[0].height, 1);
    assert_eq!(w.blocks()[0].nct_anchor, h(40));
    assert_eq!(w.blocks()[0].app_hash, app_hash);
    assert!(w.blocks()[0].app_hash.iter().any(|b| *b != 0));
    assert_eq!(w.notes().len(), 1);
    assert_eq!(w.notes()[0].0, h(10));
    assert_eq!(w.notes()[0].1.height, 1);
    assert_eq!(w.notes()[0].1.note.position, 0);
    assert_eq!(w.nullifiers(), &vec![(h(20), 1)]);
    assert_eq!(w.nct_blob().as_ref().unwrap(), &vec![40u8]);
    let next: Vec<_> = w.private_reader().next_rate_data.iter().map(rate_tuple).collect();
    assert_eq!(next, vec![(1, 0, 100000000, h(7))]);
    assert_eq!(w.base_rates().len(), 2);
}

#[test]
fn spent_nullifier_resubmitted_changes_nothing() {
    let mut w = Writer::new();
    let mut b1 = block(1, 40);
    b1.spent_nullifiers.push(h(20));
    w.commit_block(b1, h(71)).unwrap();
    let mut b2 = block(2, 41);
    b2.notes.push(note(11, 1));
    b2.spent_nullifiers.push(h(20));
    b2.delegation_changes.push((h(7), 5));
    b2.next_base_rate = Some(BaseRateData { epoch_index: 1, base_reward_rate: 3, base_exchange_rate: 4 });
    b2.next_rates = Some(vec![]);
    assert_eq!(w.commit_block(b2, h(72)), Err(CommitError::NullifierAlreadySpent));
    assert_eq!(w.blocks().len(), 1);
    assert!(w.notes().is_empty());
    assert_eq!(w.nullifiers().len(), 1);
    assert!(w.delegation_changes().is_empty());
    assert!(w.base_rates().is_empty());
    assert_eq!(w.private_reader().height, 1);
    assert_eq!(w.private_reader().anchors, vec![h(40)]);
    assert_eq!(w.nct_blob().as_ref().unwrap(), &vec![40u8]);
}

#[test]
fn nullifier_twice_in_one_block_is_refused() {
    let mut w = Writer::new();
    let mut b = block(1, 40);
    b.spent_nullifiers = vec![h(20), h(20)];
    assert_eq!(w.commit_block(b, h(71)), Err(CommitError::NullifierAlreadySpent));
    assert!(w.blocks().is_empty());
    assert!(w.nullifiers().is_empty());
}

#[test]
fn committed_height_is_refused() {
    let mut w = Writer::new();
    w.commit_block(block(1, 40), h(71)).unwrap();
    assert_eq!(w.commit_block(block(1, 41), h(72)), Err(CommitError::HeightAlreadyCommitted));
    assert_eq!(w.blocks().len(), 1);
    assert_eq!(w.private_reader().anchors, vec![h(40)]);
}

#[test]
fn stored_note_commitment_is_refused() {
    let mut w = Writer::new();
    let mut b1 = block(1, 40);
    b1.notes.push(note(10, 0));
    w.commit_block(b1, h(71)).unwrap();
    let mut b2 = block(2, 41);
    b2.notes.push(note(10, 1));
    assert_eq!(w.commit_block(b2, h(72)), Err(CommitError::DuplicateNote));
    assert_eq!(w.notes().len(), 1);
}

#[test]
fn anchors_window_keeps_the_newest_roots() {
    let mut w = Writer::new();
    let n = NUM_RECENT_ANCHORS as u64 + 5;
    for i in 1..=n {
        w.commit_block(block(i, i as u8), h(200)).unwrap();
        let a = &w.private_reader().anchors;
        assert!(a.len() <= NUM_RECENT_ANCHORS);
        assert_eq!(a[0], h(i as u8));
    }
    let a = &w.private_reader().anchors;
    assert_eq!(a.len(), NUM_RECENT_ANCHORS);
    assert_eq!(a[NUM_RECENT_ANCHORS - 1], h(6));
    assert_eq!(w.private_reader().height, n);
}

#[test]
fn anchors_window_at_its_bound() {
    let mut w = Writer::new();
    for i in 1..=(NUM_RECENT_ANCHORS as u64) {
        w.commit_block(block(i, i as u8), h(200)).unwrap();
    }
    assert_eq!(w.private_reader().anchors.len(), NUM_RECENT_ANCHORS);
    assert_eq!(w.private_reader().anchors[NUM_RECENT_ANCHORS - 1], h(1));
    w.commit_block(block(NUM_RECENT_ANCHORS as u64 + 1, 250), h(200)).unwrap();
    assert_eq!(w.private_reader().anchors.len(), NUM_RECENT_ANCHORS);
    assert_eq!(w.private_reader().anchors[0], h(250));
    assert_eq!(w.private_reader().anchors[NUM_RECENT_ANCHORS - 1], h(2));
}

#[test]
fn supply_updates_insert_or_update() {
    let mut w = Writer::new();
    let mut b1 = block(1, 40);
    b1.supply_updates.push((h(1), AssetRecord { denom: "upenumbra".to_string(), total_supply: 10 }));
    w.commit_block(b1, h(71)).unwrap();
    let mut b2 = block(2, 41);
    b2.supply_updates.push((h(2), AssetRecord { denom: "gm".to_string(), total_supply: 3 }));
    b2.supply_updates.push((h(1), AssetRecord { denom: "upenumbra".to_string(), total_supply: 25 }));
    w.commit_block(b2, h(72)).unwrap();
    let assets: Vec<_> = w.assets().iter().map(|(k, a)| (*k, a.denom.clone(), a.total_supply)).collect();
    assert_eq!(
        assets,
        vec![(h(1), "upenumbra".to_string(), 25), (h(2), "gm".to_string(), 3)]
    );
}

#[test]
fn epoch_change_writes_rates_and_power() {
    let mut w = Writer::new();
    w.commit_genesis(genesis_one(), vec![]).unwrap();
    let mut b = block(1, 40);
    b.epoch_index = 0;
    b.delegation_changes.push((h(7), -12));
    b.next_base_rate = Some(BaseRateData { epoch_index: 2, base_reward_rate: 5, base_exchange_rate: 100000005 });
    let r = RateData { identity_key: h(7), epoch_index: 2, validator_reward_rate: 6, validator_exchange_rate: 100000006 };
    b.next_rates = Some(vec![r]);
    b.next_validator_statuses = Some(vec![ValidatorStatus { identity_key: h(7), voting_power: 4242 }]);
    w.commit_block(b, h(71)).unwrap();
    let base: Vec<_> = w.base_rates().iter().map(base_tuple).collect();
    assert_eq!(base[2], (2, 5, 100000005));
    let rates: Vec<_> = w.validator_rates().iter().map(rate_tuple).collect();
    assert_eq!(rates[2], (2, 6, 100000006, h(7)));
    let next: Vec<_> = w.private_reader().next_rate_data.iter().map(rate_tuple).collect();
    assert_eq!(next, vec![(2, 6, 100000006, h(7))]);
    assert_eq!(w.validators()[0].voting_power, 4242);
    assert_eq!(w.delegation_changes().len(), 1);
    assert_eq!(w.delegation_changes()[0].delta, -12);
    assert_eq!(w.delegation_changes()[0].epoch_index, 0);
}

#[test]
fn rates_without_base_rate_are_published_but_not_stored() {
    let mut w = Writer::new();
    let mut b = block(1, 40);
    let r = RateData { identity_key: h(7), epoch_index: 2, validator_reward_rate: 6, validator_exchange_rate: 1 };
    b.next_rates = Some(vec![r]);
    w.commit_block(b, h(71)).unwrap();
    assert!(w.validator_rates().is_empty());
    assert_eq!(w.private_reader().next_rate_data.len(), 1);
}

#[test]
fn init_caches_rebuilds_height_and_anchors() {
    let mut w = Writer::new();
    let n = NUM_RECENT_ANCHORS as u64 + 3;
    for i in 1..=n {
        w.commit_block(block(i, i as u8), h(200)).unwrap();
    }
    let running = w.private_reader().anchors.clone();
    let r = RateData { identity_key: h(7), epoch_index: 9, validator_reward_rate: 1, validator_exchange_rate: 2 };
    w.init_caches(Some(params()), vec![r]);
    assert_eq!(w.private_reader().anchors, running);
    assert_eq!(w.private_reader().height, n);
    assert_eq!(w.private_reader().next_rate_data.len(), 1);
    assert_eq!(w.private_reader().chain_params.as_ref().unwrap().epoch_duration, 100);
}

#[test]
fn init_caches_on_empty_state() {
    let mut w = Writer::new();
    w.init_caches(None, vec![]);
    assert_eq!(w.private_reader().height, 0);
    assert!(w.private_reader().anchors.is_empty());
    assert!(w.private_reader().chain_params.is_none());
}
