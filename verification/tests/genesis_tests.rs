use candy_holders::genesis::{
    identify_token, resolve_genesis, select_genesis_signature, select_oldest_signature,
    GenesisError, SignatureInfo, TxShape,
};

fn sig(name: &str, block_time: Option<i64>) -> SignatureInfo {
    SignatureInfo { signature: name.as_bytes().to_vec(), block_time }
}

fn tx(instruction_count: usize, keys: &[&str]) -> TxShape {
    TxShape {
        instruction_count,
        account_keys: keys.iter().map(|k| k.as_bytes().to_vec()).collect(),
    }
}

fn history() -> Vec<SignatureInfo> {
    // Newest first; the oldest entry is the genesis candidate.
    vec![sig("S2", Some(3000)), sig("S1", Some(2000)), sig("S0", Some(1000))]
}

#[test]
fn resolve_genesis_takes_oldest_signature() {
    let t = tx(5, &["payer", "T1", "other"]);
    let g = resolve_genesis(&history(), Some(&t)).expect("resolution should succeed");
    assert_eq!(g.token_address, b"T1".to_vec());
    assert_eq!(g.genesis_signature, b"S0".to_vec());
    assert_eq!(g.genesis_block_time, 1000);
}

#[test]
fn resolve_genesis_rejects_empty_history() {
    let t = tx(5, &["payer", "T1"]);
    let r = resolve_genesis(&Vec::new(), Some(&t));
    assert_eq!(r.unwrap_err(), GenesisError::NoHistory);
}

#[test]
fn resolve_genesis_rejects_huge_history() {
    let mut sigs = Vec::new();
    for i in 0..1000 {
        sigs.push(sig(&format!("S{}", i), Some(i as i64)));
    }
    let t = tx(5, &["payer", "T1"]);
    let r = resolve_genesis(&sigs, Some(&t));
    assert_eq!(r.unwrap_err(), GenesisError::AmbiguousHistory);
}

#[test]
fn resolve_genesis_rejects_missing_block_time() {
    let sigs = vec![sig("S1", Some(2000)), sig("S0", None)];
    let t = tx(5, &["payer", "T1"]);
    let r = resolve_genesis(&sigs, Some(&t));
    assert_eq!(r.unwrap_err(), GenesisError::MissingBlockTime);
}

#[test]
fn resolve_genesis_rejects_unfetched_transaction() {
    let r = resolve_genesis(&history(), None);
    assert_eq!(r.unwrap_err(), GenesisError::UndecodableTransaction);
}

#[test]
fn resolve_genesis_rejects_four_instructions() {
    let t = tx(4, &["payer", "T1"]);
    let r = resolve_genesis(&history(), Some(&t));
    assert_eq!(r.unwrap_err(), GenesisError::UnexpectedShape);
}

#[test]
fn resolve_genesis_rejects_six_instructions() {
    let t = tx(6, &["payer", "T1"]);
    let r = resolve_genesis(&history(), Some(&t));
    assert_eq!(r.unwrap_err(), GenesisError::UnexpectedShape);
}

#[test]
fn resolve_genesis_rejects_short_account_list() {
    let t = tx(5, &["payer"]);
    let r = resolve_genesis(&history(), Some(&t));
    assert_eq!(r.unwrap_err(), GenesisError::MissingTokenAddress);
}

#[test]
fn select_genesis_signature_picks_last_entry() {
    let sigs = history();
    let g = select_genesis_signature(&sigs).expect("selection should succeed");
    assert_eq!(g.signature, b"S0".to_vec());
    assert_eq!(g.block_time, Some(1000));
}

#[test]
fn select_genesis_signature_rejects_empty_history() {
    let sigs: Vec<SignatureInfo> = Vec::new();
    assert_eq!(select_genesis_signature(&sigs).unwrap_err(), GenesisError::NoHistory);
}

#[test]
fn identify_token_without_block_time() {
    // Listing does not read the creation time: an entry whose oldest
    // signature carries no block time is still identified.
    let sigs = vec![sig("S1", Some(2000)), sig("S0", None)];
    let t = tx(5, &["payer", "T1"]);
    let token = identify_token(&sigs, Some(&t)).expect("listing should identify the token");
    assert_eq!(token, b"T1".to_vec());
}

#[test]
fn identify_token_takes_account_key_one() {
    let t = tx(5, &["payer", "T1", "other"]);
    let token = identify_token(&history(), Some(&t)).expect("listing should identify the token");
    assert_eq!(token, b"T1".to_vec());
}

#[test]
fn identify_token_rejections_mirror_resolution() {
    let t = tx(5, &["payer", "T1"]);
    let empty: Vec<SignatureInfo> = Vec::new();
    assert_eq!(identify_token(&empty, Some(&t)).unwrap_err(), GenesisError::NoHistory);
    let mut many = Vec::new();
    for i in 0..1000 {
        many.push(sig(&format!("S{}", i), Some(i as i64)));
    }
    assert_eq!(identify_token(&many, Some(&t)).unwrap_err(), GenesisError::AmbiguousHistory);
    assert_eq!(
        identify_token(&history(), None).unwrap_err(),
        GenesisError::UndecodableTransaction
    );
    let four = tx(4, &["payer", "T1"]);
    assert_eq!(
        identify_token(&history(), Some(&four)).unwrap_err(),
        GenesisError::UnexpectedShape
    );
    let short = tx(5, &["payer"]);
    assert_eq!(
        identify_token(&history(), Some(&short)).unwrap_err(),
        GenesisError::MissingTokenAddress
    );
}

#[test]
fn select_oldest_signature_ignores_block_time() {
    // The discovery-flow selection rejects a missing block time; the
    // listing-flow selection picks the entry regardless.
    let sigs = vec![sig("S1", Some(2000)), sig("S0", None)];
    assert_eq!(
        select_genesis_signature(&sigs).unwrap_err(),
        GenesisError::MissingBlockTime
    );
    let oldest = select_oldest_signature(&sigs).expect("selection should succeed");
    assert_eq!(oldest.signature, b"S0".to_vec());
    assert_eq!(oldest.block_time, None);
}

#[test]
fn select_oldest_signature_rejects_out_of_range_history() {
    let empty: Vec<SignatureInfo> = Vec::new();
    assert_eq!(select_oldest_signature(&empty).unwrap_err(), GenesisError::NoHistory);
    let mut many = Vec::new();
    for i in 0..1000 {
        many.push(sig(&format!("S{}", i), Some(i as i64)));
    }
    assert_eq!(
        select_oldest_signature(&many).unwrap_err(),
        GenesisError::AmbiguousHistory
    );
}
