use candy_holders::genesis::{GenesisError, SignatureInfo, TxShape};
use candy_holders::indexer::{Candidate, DecodeOutcome, DiscoveryOutcome};
use candy_holders::store::{InsertOutcome, Store, TokenRecord};

fn sig(name: &str, block_time: Option<i64>) -> SignatureInfo {
    SignatureInfo { signature: name.as_bytes().to_vec(), block_time }
}

fn candidate_a() -> Candidate {
    // Gateway search returned entry address E1; its history holds three
    // signatures, the oldest S0 at block time 1000; the transaction of
    // S0 decodes to five instructions with account 1 = T1.
    Candidate {
        metadata_address: b"E1".to_vec(),
        signatures: Some(vec![
            sig("S2", Some(3000)),
            sig("S1", Some(2000)),
            sig("S0", Some(1000)),
        ]),
        transaction: Some(TxShape {
            instruction_count: 5,
            account_keys: vec![b"payer".to_vec(), b"T1".to_vec()],
        }),
    }
}

#[test]
fn scenario_one_new_entry_is_recorded() {
    let mut store = Store::new();
    let outcome = store.process_candidate(&candidate_a());
    assert_eq!(outcome, DiscoveryOutcome::Recorded);
    assert_eq!(store.tokens.len(), 1);
    let row = &store.tokens[0];
    assert_eq!(row.token_address, b"T1".to_vec());
    assert_eq!(row.metadata_address, b"E1".to_vec());
    assert_eq!(row.genesis_signature, b"S0".to_vec());
    assert_eq!(row.genesis_block_time, 1000);
}

#[test]
fn scenario_empty_history_writes_nothing() {
    let mut store = Store::new();
    let mut c = candidate_a();
    c.signatures = Some(Vec::new());
    let outcome = store.process_candidate(&c);
    assert_eq!(outcome, DiscoveryOutcome::Rejected(GenesisError::NoHistory));
    assert_eq!(store.tokens.len(), 0);
}

#[test]
fn four_or_six_instructions_never_indexed() {
    for count in [4usize, 6] {
        let mut store = Store::new();
        let mut c = candidate_a();
        c.transaction = Some(TxShape {
            instruction_count: count,
            account_keys: vec![b"payer".to_vec(), b"T1".to_vec()],
        });
        let outcome = store.process_candidate(&c);
        assert_eq!(outcome, DiscoveryOutcome::Rejected(GenesisError::UnexpectedShape));
        assert_eq!(store.tokens.len(), 0);
    }
}

#[test]
fn unavailable_history_skips_candidate() {
    let mut store = Store::new();
    let mut c = candidate_a();
    c.signatures = None;
    assert_eq!(store.process_candidate(&c), DiscoveryOutcome::HistoryUnavailable);
    assert_eq!(store.tokens.len(), 0);
}

#[test]
fn rerun_with_same_responses_changes_nothing() {
    let mut c2 = candidate_a();
    c2.metadata_address = b"E2".to_vec();
    c2.signatures = Some(vec![sig("R0", Some(500))]);
    c2.transaction = Some(TxShape {
        instruction_count: 5,
        account_keys: vec![b"payer".to_vec(), b"T2".to_vec()],
    });
    let batch = vec![candidate_a(), c2];
    let mut store = Store::new();
    let first = store.run_discovery(&batch);
    assert_eq!(first, vec![DiscoveryOutcome::Recorded, DiscoveryOutcome::Recorded]);
    let rows_after_first: Vec<(Vec<u8>, Vec<u8>)> = store
        .tokens
        .iter()
        .map(|r| (r.token_address.clone(), r.metadata_address.clone()))
        .collect();
    let second = store.run_discovery(&batch);
    assert_eq!(second, vec![DiscoveryOutcome::AlreadyIndexed, DiscoveryOutcome::AlreadyIndexed]);
    let rows_after_second: Vec<(Vec<u8>, Vec<u8>)> = store
        .tokens
        .iter()
        .map(|r| (r.token_address.clone(), r.metadata_address.clone()))
        .collect();
    assert_eq!(rows_after_first, rows_after_second);
    assert_eq!(store.tokens.len(), 2);
}

#[test]
fn duplicate_keys_are_swallowed() {
    let mut store = Store::new();
    let row = TokenRecord {
        token_address: b"T1".to_vec(),
        metadata_address: b"E1".to_vec(),
        genesis_signature: b"S0".to_vec(),
        genesis_block_time: 1000,
    };
    let again = TokenRecord {
        token_address: b"T1".to_vec(),
        metadata_address: b"E9".to_vec(),
        genesis_signature: b"S9".to_vec(),
        genesis_block_time: 9,
    };
    assert_eq!(store.insert_token_if_absent(row), InsertOutcome::Inserted);
    assert_eq!(store.insert_token_if_absent(again), InsertOutcome::AlreadyPresent);
    assert_eq!(store.tokens.len(), 1);
}

#[test]
fn discovery_duplicate_race_is_swallowed() {
    // The same token address was already recorded under another entry
    // address, so resolution succeeds but the insert finds a key taken.
    let mut store = Store::new();
    store.insert_token_if_absent(TokenRecord {
        token_address: b"T1".to_vec(),
        metadata_address: b"E0".to_vec(),
        genesis_signature: b"Sx".to_vec(),
        genesis_block_time: 7,
    });
    let outcome = store.process_candidate(&candidate_a());
    assert_eq!(outcome, DiscoveryOutcome::DuplicateRace);
    assert_eq!(store.tokens.len(), 1);
}

fn token_row(token: &str, metadata: &str, sig_name: &str, time: i64) -> TokenRecord {
    TokenRecord {
        token_address: token.as_bytes().to_vec(),
        metadata_address: metadata.as_bytes().to_vec(),
        genesis_signature: sig_name.as_bytes().to_vec(),
        genesis_block_time: time,
    }
}

#[test]
fn decode_order_is_time_then_address() {
    let mut store = Store::new();
    store.insert_token_if_absent(token_row("Tc", "E1", "S1", 5));
    store.insert_token_if_absent(token_row("Tb", "E2", "S2", 3));
    store.insert_token_if_absent(token_row("Ta", "E3", "S3", 3));
    let ordered = store.tokens_in_decode_order();
    let keys: Vec<(i64, Vec<u8>)> = ordered
        .iter()
        .map(|r| (r.genesis_block_time, r.token_address.clone()))
        .collect();
    assert_eq!(
        keys,
        vec![
            (3, b"Ta".to_vec()),
            (3, b"Tb".to_vec()),
            (5, b"Tc".to_vec()),
        ]
    );
}

fn entry_account_bytes() -> Vec<u8> {
    // A registry entry whose record decodes to name "Alpha", symbol
    // "A", uri "ipfs://x" and two creators with shares 60 and 40.
    let mut out = Vec::new();
    out.push(4u8); // record kind
    out.extend_from_slice(&[7; 32]); // update authority
    out.extend_from_slice(&[9; 32]); // mint
    for (text, cap) in [("Alpha", 32usize), ("A", 10), ("ipfs://x", 200)] {
        let mut field = text.as_bytes().to_vec();
        while field.len() < cap {
            field.push(0);
        }
        out.extend_from_slice(&(field.len() as u32).to_le_bytes());
        out.extend_from_slice(&field);
    }
    out.extend_from_slice(&500u16.to_le_bytes()); // fee
    out.push(1); // creators present
    out.extend_from_slice(&2u32.to_le_bytes());
    out.extend_from_slice(&[1; 32]); // C1
    out.push(1);
    out.push(60);
    out.extend_from_slice(&[2; 32]); // C2
    out.push(0);
    out.push(40);
    out.push(1); // primary sale happened
    out.push(1); // is mutable
    out.push(0); // no edition nonce
    out
}

#[test]
fn scenario_decode_writes_metadata_and_creators() {
    let mut store = Store::new();
    let row = token_row("T1", "E1", "S0", 1000);
    store.insert_token_if_absent(row.clone());
    let account = entry_account_bytes();
    let outcome = store.process_decode_row(&row, Some(&account));
    assert_eq!(outcome, DecodeOutcome::Recorded);
    assert_eq!(store.metadatas.len(), 1);
    let m = &store.metadatas[0];
    assert_eq!(m.token_address, b"T1".to_vec());
    assert_eq!(m.metadata_address, b"E1".to_vec());
    assert_eq!(m.name, b"Alpha".to_vec());
    assert_eq!(m.symbol, b"A".to_vec());
    assert_eq!(m.uri, b"ipfs://x".to_vec());
    assert_eq!(m.seller_fee_basis_points, 500);
    assert!(m.primary_sale_happened);
    assert!(m.is_mutable);
    assert_eq!(m.edition_nonce, None);
    assert_eq!(store.creators.len(), 2);
    assert_eq!(store.creators[0].metadata_address, b"E1".to_vec());
    assert_eq!(store.creators[0].address, vec![1u8; 32]);
    assert_eq!(store.creators[0].share, 60);
    assert_eq!(store.creators[0].idx, 1);
    assert_eq!(store.creators[1].address, vec![2u8; 32]);
    assert_eq!(store.creators[1].share, 40);
    assert_eq!(store.creators[1].idx, 2);
}

#[test]
fn decode_skips_already_decoded_entry() {
    let mut store = Store::new();
    let row = token_row("T1", "E1", "S0", 1000);
    store.insert_token_if_absent(row.clone());
    let account = entry_account_bytes();
    assert_eq!(store.process_decode_row(&row, Some(&account)), DecodeOutcome::Recorded);
    assert_eq!(store.process_decode_row(&row, Some(&account)), DecodeOutcome::AlreadyDecoded);
    assert_eq!(store.metadatas.len(), 1);
    assert_eq!(store.creators.len(), 2);
}

#[test]
fn decode_duplicate_race_is_swallowed() {
    // Another entry address was already decoded for the same token
    // address, so decoding succeeds but the insert finds a key taken.
    let mut store = Store::new();
    let earlier = token_row("T1", "E0", "Sx", 7);
    store.insert_token_if_absent(earlier.clone());
    let account = entry_account_bytes();
    assert_eq!(store.process_decode_row(&earlier, Some(&account)), DecodeOutcome::Recorded);
    let row = token_row("T1", "E1", "S0", 1000);
    assert_eq!(store.process_decode_row(&row, Some(&account)), DecodeOutcome::DuplicateRace);
    assert_eq!(store.metadatas.len(), 1);
    assert_eq!(store.creators.len(), 2);
}

#[test]
fn decode_skips_unavailable_account() {
    let mut store = Store::new();
    let row = token_row("T1", "E1", "S0", 1000);
    store.insert_token_if_absent(row.clone());
    assert_eq!(store.process_decode_row(&row, None), DecodeOutcome::AccountUnavailable);
    assert_eq!(store.metadatas.len(), 0);
}

#[test]
fn decode_skips_malformed_account() {
    let mut store = Store::new();
    let row = token_row("T1", "E1", "S0", 1000);
    store.insert_token_if_absent(row.clone());
    let garbage = vec![0xFFu8; 3];
    assert_eq!(store.process_decode_row(&row, Some(&garbage)), DecodeOutcome::Undecodable);
    assert_eq!(store.metadatas.len(), 0);
    assert_eq!(store.creators.len(), 0);
}
