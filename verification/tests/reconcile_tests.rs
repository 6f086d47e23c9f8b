use candy_holders::codec::{CreatorEntry, DecodedEntry};
use candy_holders::reconcile::{plan_reassign, plan_repair, ReassignDecision, RepairDecision};
use candy_holders::store::{RepairDirective, Store};
use candy_holders::{authority_filter_offset, default_db_path, default_rpc_url, registry_program_id};

fn live_entry() -> DecodedEntry {
    DecodedEntry {
        key: 4,
        update_authority: vec![7; 32],
        mint: vec![9; 32],
        name: b"Old".to_vec(),
        symbol: b"SYM".to_vec(),
        uri: b"u1".to_vec(),
        seller_fee_basis_points: 500,
        creators: Some(vec![
            CreatorEntry { address: vec![1; 32], verified: true, share: 60 },
            CreatorEntry { address: vec![2; 32], verified: false, share: 40 },
        ]),
        primary_sale_happened: true,
        is_mutable: true,
        edition_nonce: None,
    }
}

fn directive() -> RepairDirective {
    RepairDirective {
        token_address: b"T1".to_vec(),
        metadata_address: b"E1".to_vec(),
        old_name: b"Old".to_vec(),
        new_name: b"New".to_vec(),
        old_uri: b"u1".to_vec(),
        new_uri: b"u2".to_vec(),
    }
}

#[test]
fn scenario_drifted_entry_yields_one_submission() {
    let live = live_entry();
    let credential = vec![7u8; 32]; // matches the live update authority
    let decision = plan_repair(&directive(), &live, &credential);
    let payload = match decision {
        RepairDecision::Submit(p) => p,
        other => panic!("expected a submission, got {:?}", other),
    };
    assert_eq!(payload.metadata_address, b"E1".to_vec());
    assert_eq!(payload.update_authority, vec![7u8; 32]);
    assert_eq!(payload.name, b"New".to_vec());
    assert_eq!(payload.uri, b"u2".to_vec());
    // symbol, fee and creators are copied unchanged from the live record
    assert_eq!(payload.symbol, b"SYM".to_vec());
    assert_eq!(payload.seller_fee_basis_points, 500);
    let creators = payload.creators.as_ref().expect("creators should be copied");
    assert_eq!(creators.len(), 2);
    assert_eq!(creators[0].address, vec![1u8; 32]);
    assert_eq!(creators[0].share, 60);
    assert_eq!(creators[1].share, 40);
}

#[test]
fn matching_entry_yields_no_submission() {
    let mut live = live_entry();
    live.name = b"New".to_vec();
    live.uri = b"u2".to_vec();
    let credential = vec![7u8; 32];
    let decision = plan_repair(&directive(), &live, &credential);
    assert!(matches!(decision, RepairDecision::MatchesDesired));
}

#[test]
fn wrong_credential_never_submits() {
    let live = live_entry(); // drift is present: Old/u1 vs New/u2
    let credential = vec![8u8; 32]; // does not match the live authority
    let decision = plan_repair(&directive(), &live, &credential);
    assert!(matches!(decision, RepairDecision::Unauthorized));
}

#[test]
fn repair_instruction_data_is_exact() {
    let live = DecodedEntry { creators: None, ..live_entry() };
    let credential = vec![7u8; 32];
    let payload = match plan_repair(&directive(), &live, &credential) {
        RepairDecision::Submit(p) => p,
        other => panic!("expected a submission, got {:?}", other),
    };
    let data = payload.instruction_data().expect("lengths fit their prefixes");
    let mut expected = vec![1u8, 1u8]; // update instruction, field record present
    expected.extend_from_slice(&3u32.to_le_bytes());
    expected.extend_from_slice(b"New");
    expected.extend_from_slice(&3u32.to_le_bytes());
    expected.extend_from_slice(b"SYM");
    expected.extend_from_slice(&2u32.to_le_bytes());
    expected.extend_from_slice(b"u2");
    expected.extend_from_slice(&500u16.to_le_bytes());
    expected.push(0); // no creators
    expected.push(0); // no new authority
    expected.push(0); // primary-sale flag untouched
    assert_eq!(data, expected);
}

#[test]
fn repair_instruction_data_with_creators() {
    let live = live_entry();
    let credential = vec![7u8; 32];
    let payload = match plan_repair(&directive(), &live, &credential) {
        RepairDecision::Submit(p) => p,
        other => panic!("expected a submission, got {:?}", other),
    };
    let data = payload.instruction_data().expect("lengths fit their prefixes");
    let mut expected = vec![1u8, 1u8];
    expected.extend_from_slice(&3u32.to_le_bytes());
    expected.extend_from_slice(b"New");
    expected.extend_from_slice(&3u32.to_le_bytes());
    expected.extend_from_slice(b"SYM");
    expected.extend_from_slice(&2u32.to_le_bytes());
    expected.extend_from_slice(b"u2");
    expected.extend_from_slice(&500u16.to_le_bytes());
    expected.push(1); // creators present
    expected.extend_from_slice(&2u32.to_le_bytes());
    expected.extend_from_slice(&[1u8; 32]);
    expected.push(1);
    expected.push(60);
    expected.extend_from_slice(&[2u8; 32]);
    expected.push(0);
    expected.push(40);
    expected.push(0);
    expected.push(0);
    assert_eq!(data, expected);
}

#[test]
fn reassign_requires_matching_credential() {
    let live = live_entry();
    let wrong = vec![8u8; 32];
    let decision = plan_reassign(b"E1", &live, &wrong, &[5u8; 32]);
    assert!(matches!(decision, ReassignDecision::Unauthorized));
}

#[test]
fn reassign_instruction_data_is_exact() {
    let live = live_entry();
    let credential = vec![7u8; 32];
    let new_authority = vec![5u8; 32];
    let payload = match plan_reassign(b"E1", &live, &credential, &new_authority) {
        ReassignDecision::Reassign(p) => p,
        other => panic!("expected a reassignment, got {:?}", other),
    };
    assert_eq!(payload.metadata_address, b"E1".to_vec());
    assert_eq!(payload.update_authority, vec![7u8; 32]);
    assert_eq!(payload.new_update_authority, vec![5u8; 32]);
    let data = payload.instruction_data();
    let mut expected = vec![1u8, 0u8, 1u8]; // update, no field record, new authority present
    expected.extend_from_slice(&[5u8; 32]);
    expected.push(0);
    assert_eq!(data, expected);
}

#[test]
fn repairs_come_back_in_token_address_order() {
    let mut store = Store::new();
    for token in ["Tc", "Ta", "Tb"] {
        let d = RepairDirective {
            token_address: token.as_bytes().to_vec(),
            metadata_address: format!("E-{}", token).into_bytes(),
            old_name: b"o".to_vec(),
            new_name: b"n".to_vec(),
            old_uri: b"ou".to_vec(),
            new_uri: b"nu".to_vec(),
        };
        store.add_repair_if_absent(d);
    }
    let ordered = store.repairs_in_order();
    let keys: Vec<Vec<u8>> = ordered.iter().map(|d| d.token_address.clone()).collect();
    assert_eq!(keys, vec![b"Ta".to_vec(), b"Tb".to_vec(), b"Tc".to_vec()]);
}

#[test]
fn configuration_defaults() {
    assert_eq!(default_rpc_url(), "https://api.mainnet-beta.solana.com");
    assert_eq!(default_db_path(), "candy-holders.db");
    assert_eq!(registry_program_id(), "metaqbxxUerdq28cj1RbAWkYQm3ybzjb6a8bt518x1s");
    assert_eq!(authority_filter_offset(), 1);
}
