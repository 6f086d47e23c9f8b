use candy_holders::bytes::strip_trailing_nuls;
use candy_holders::codec::{decode_entry, DecodeError, DecodedEntry};
use candy_holders::launcher::{decode_launcher_config, decode_launcher_state};

fn push_len_prefixed(out: &mut Vec<u8>, bytes: &[u8]) {
    out.extend_from_slice(&(bytes.len() as u32).to_le_bytes());
    out.extend_from_slice(bytes);
}

fn padded(text: &str, cap: usize) -> Vec<u8> {
    let mut v = text.as_bytes().to_vec();
    while v.len() < cap {
        v.push(0);
    }
    v
}

struct EntrySpec<'a> {
    key: u8,
    update_authority: [u8; 32],
    mint: [u8; 32],
    name: &'a [u8],
    symbol: &'a [u8],
    uri: &'a [u8],
    fee: u16,
    creators: Option<Vec<([u8; 32], bool, u8)>>,
    primary_sale_happened: u8,
    is_mutable: u8,
    edition_nonce: Option<u8>,
}

fn entry_bytes(spec: &EntrySpec) -> Vec<u8> {
    let mut out = Vec::new();
    out.push(spec.key);
    out.extend_from_slice(&spec.update_authority);
    out.extend_from_slice(&spec.mint);
    push_len_prefixed(&mut out, spec.name);
    push_len_prefixed(&mut out, spec.symbol);
    push_len_prefixed(&mut out, spec.uri);
    out.extend_from_slice(&spec.fee.to_le_bytes());
    match &spec.creators {
        None => out.push(0),
        Some(cs) => {
            out.push(1);
            out.extend_from_slice(&(cs.len() as u32).to_le_bytes());
            for (addr, verified, share) in cs {
                out.extend_from_slice(addr);
                out.push(if *verified { 1 } else { 0 });
                out.push(*share);
            }
        }
    }
    out.push(spec.primary_sale_happened);
    out.push(spec.is_mutable);
    match spec.edition_nonce {
        None => out.push(0),
        Some(n) => {
            out.push(1);
            out.push(n);
        }
    }
    out
}

fn sample_spec() -> EntrySpec<'static> {
    EntrySpec {
        key: 4,
        update_authority: [7; 32],
        mint: [9; 32],
        name: b"Foo\0\0\0\0\0\0\0\0\0\0\0\0\0\0\0\0\0\0\0\0\0\0\0\0\0\0\0\0\0",
        symbol: b"FO\0\0\0\0\0\0\0\0",
        uri: b"https://x\0\0\0",
        fee: 500,
        creators: Some(vec![([1; 32], true, 60), ([2; 32], false, 40)]),
        primary_sale_happened: 1,
        is_mutable: 1,
        edition_nonce: Some(252),
    }
}

fn decode_ok(bytes: &[u8]) -> DecodedEntry {
    match decode_entry(bytes) {
        Ok(e) => e,
        Err(_) => panic!("expected a well-formed entry"),
    }
}

#[test]
fn decode_entry_reads_all_fields() {
    let spec = sample_spec();
    let e = decode_ok(&entry_bytes(&spec));
    assert_eq!(e.key, 4);
    assert_eq!(e.update_authority, vec![7u8; 32]);
    assert_eq!(e.mint, vec![9u8; 32]);
    assert_eq!(e.name, b"Foo".to_vec());
    assert_eq!(e.symbol, b"FO".to_vec());
    assert_eq!(e.uri, b"https://x".to_vec());
    assert_eq!(e.seller_fee_basis_points, 500);
    let creators = e.creators.expect("creators should be present");
    assert_eq!(creators.len(), 2);
    assert_eq!(creators[0].address, vec![1u8; 32]);
    assert!(creators[0].verified);
    assert_eq!(creators[0].share, 60);
    assert_eq!(creators[1].address, vec![2u8; 32]);
    assert!(!creators[1].verified);
    assert_eq!(creators[1].share, 40);
    assert!(e.primary_sale_happened);
    assert!(e.is_mutable);
    assert_eq!(e.edition_nonce, Some(252));
}

#[test]
fn decode_entry_strips_name_padding() {
    // A name of capacity 32 holding "Foo" followed by 29 NUL bytes
    // decodes to exactly "Foo".
    let name = padded("Foo", 32);
    assert_eq!(name.len(), 32);
    let mut spec = sample_spec();
    spec.name = &name;
    let e = decode_ok(&entry_bytes(&spec));
    assert_eq!(e.name, b"Foo".to_vec());
}

#[test]
fn decode_entry_keeps_interior_nuls() {
    let mut spec = sample_spec();
    spec.name = b"A\0B\0\0";
    let e = decode_ok(&entry_bytes(&spec));
    assert_eq!(e.name, b"A\0B".to_vec());
}

#[test]
fn decode_entry_without_creators() {
    let mut spec = sample_spec();
    spec.creators = None;
    spec.edition_nonce = None;
    let e = decode_ok(&entry_bytes(&spec));
    assert!(e.creators.is_none());
    assert_eq!(e.edition_nonce, None);
}

#[test]
fn decode_entry_ignores_trailing_bytes() {
    let spec = sample_spec();
    let mut bytes = entry_bytes(&spec);
    bytes.extend_from_slice(&[0u8; 100]);
    let e = decode_ok(&bytes);
    assert_eq!(e.name, b"Foo".to_vec());
}

#[test]
fn decode_entry_rejects_truncated_input() {
    let spec = sample_spec();
    let bytes = entry_bytes(&spec);
    let cut = &bytes[..bytes.len() - 2];
    assert_eq!(decode_entry(cut).unwrap_err(), DecodeError::Malformed);
    assert_eq!(decode_entry(&[]).unwrap_err(), DecodeError::Malformed);
}

#[test]
fn decode_entry_rejects_bad_key_tag() {
    let mut spec = sample_spec();
    spec.key = 7;
    assert_eq!(decode_entry(&entry_bytes(&spec)).unwrap_err(), DecodeError::Malformed);
}

#[test]
fn decode_entry_rejects_bad_bool_byte() {
    let mut spec = sample_spec();
    spec.primary_sale_happened = 2;
    assert_eq!(decode_entry(&entry_bytes(&spec)).unwrap_err(), DecodeError::Malformed);
}

#[test]
fn strip_trailing_nuls_edge_cases() {
    assert_eq!(strip_trailing_nuls(b""), Vec::<u8>::new());
    assert_eq!(strip_trailing_nuls(b"\0\0\0"), Vec::<u8>::new());
    assert_eq!(strip_trailing_nuls(b"abc"), b"abc".to_vec());
    assert_eq!(strip_trailing_nuls(b"a\0b\0"), b"a\0b".to_vec());
}

#[test]
fn decode_launcher_state_reads_all_fields() {
    let mut bytes = Vec::new();
    bytes.extend_from_slice(&[0xAA; 8]); // account discriminant, not interpreted
    bytes.extend_from_slice(&[3; 32]); // authority
    bytes.extend_from_slice(&[4; 32]); // wallet
    bytes.push(1); // token mint present
    bytes.extend_from_slice(&[5; 32]);
    bytes.extend_from_slice(&[6; 32]); // config
    push_len_prefixed(&mut bytes, b"abc123"); // uuid
    bytes.extend_from_slice(&1_000_000u64.to_le_bytes()); // price
    bytes.extend_from_slice(&10_000u64.to_le_bytes()); // items available
    bytes.push(1); // go-live date present
    bytes.extend_from_slice(&(-1234i64).to_le_bytes());
    bytes.extend_from_slice(&42u64.to_le_bytes()); // items redeemed
    bytes.push(254); // bump
    let s = decode_launcher_state(&bytes).expect("well-formed launcher state");
    assert_eq!(s.authority, vec![3u8; 32]);
    assert_eq!(s.wallet, vec![4u8; 32]);
    assert_eq!(s.token_mint, Some(vec![5u8; 32]));
    assert_eq!(s.config, vec![6u8; 32]);
    assert_eq!(s.uuid, b"abc123".to_vec());
    assert_eq!(s.price, 1_000_000);
    assert_eq!(s.items_available, 10_000);
    assert_eq!(s.go_live_date, Some(-1234));
    assert_eq!(s.items_redeemed, 42);
    assert_eq!(s.bump, 254);
}

#[test]
fn decode_launcher_config_reads_all_fields() {
    let mut bytes = Vec::new();
    bytes.extend_from_slice(&[0xBB; 8]);
    bytes.extend_from_slice(&[3; 32]); // authority
    push_len_prefixed(&mut bytes, b"abc123"); // uuid
    push_len_prefixed(&mut bytes, b"SYM"); // symbol
    bytes.extend_from_slice(&250u16.to_le_bytes()); // fee
    bytes.extend_from_slice(&1u32.to_le_bytes()); // one creator
    bytes.extend_from_slice(&[8; 32]);
    bytes.push(0);
    bytes.push(100);
    bytes.extend_from_slice(&7777u64.to_le_bytes()); // max supply
    bytes.push(1); // is mutable
    bytes.push(0); // retain authority
    bytes.extend_from_slice(&500u32.to_le_bytes()); // max number of lines
    let c = decode_launcher_config(&bytes).expect("well-formed launcher config");
    assert_eq!(c.authority, vec![3u8; 32]);
    assert_eq!(c.uuid, b"abc123".to_vec());
    assert_eq!(c.symbol, b"SYM".to_vec());
    assert_eq!(c.seller_fee_basis_points, 250);
    assert_eq!(c.creators.len(), 1);
    assert_eq!(c.creators[0].address, vec![8u8; 32]);
    assert_eq!(c.creators[0].share, 100);
    assert_eq!(c.max_supply, 7777);
    assert!(c.is_mutable);
    assert!(!c.retain_authority);
    assert_eq!(c.max_number_of_lines, 500);
}

#[test]
fn decode_launcher_state_rejects_truncated_input() {
    assert!(decode_launcher_state(&[0u8; 10]).is_err());
    assert!(decode_launcher_config(&[0u8; 10]).is_err());
}
