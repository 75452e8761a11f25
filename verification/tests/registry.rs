use dex::Dex;
use dex::ErrorCode;

#[test]
fn register_token_stores_the_mapping_under_its_id() {
    let mut d = Dex::new();
    assert!(d.get_token_mapping(1).is_none());
    assert_eq!(d.register_token(77, 1), Ok(()));
    let m = d.get_token_mapping(1).unwrap();
    assert_eq!(m.mint, 77);
    assert_eq!(m.id, 1);
}

#[test]
fn register_token_rejects_a_duplicate_id_and_keeps_the_first_mapping() {
    let mut d = Dex::new();
    d.register_token(77, 1).unwrap();
    assert_eq!(d.register_token(78, 1), Err(ErrorCode::DuplicateMapping));
    assert_eq!(d.get_token_mapping(1).unwrap().mint, 77);
}

#[test]
fn register_token_keeps_distinct_ids_apart() {
    let mut d = Dex::new();
    d.register_token(77, 1).unwrap();
    d.register_token(78, 2).unwrap();
    assert_eq!(d.get_token_mapping(1).unwrap().mint, 77);
    assert_eq!(d.get_token_mapping(2).unwrap().mint, 78);
    assert!(d.get_token_mapping(3).is_none());
}

#[test]
fn settlement_address_is_the_nonce_derivation() {
    assert_eq!(dex::settlement_address(7), 7);
    assert_eq!(dex::settlement_address(0), 0);
    assert_eq!(dex::settlement_address(u64::MAX), u64::MAX);
}
