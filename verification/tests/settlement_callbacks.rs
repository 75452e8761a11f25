use dex::ComputationOutput;
use dex::Dex;
use dex::ErrorCode;
use dex::SwapOrder;

fn ct(b: u8) -> [u8; 32] {
    [b; 32]
}

fn order(amount_in: u64, nonce: u64) -> SwapOrder {
    SwapOrder {
        amount_in,
        amount_out_min: 90,
        token_in: 1,
        token_out: 2,
        nonce,
    }
}

#[test]
fn place_order_creates_an_inactive_settlement_and_forwards_ciphertexts() {
    let mut d = Dex::new();
    let queued = d
        .place_order(42, ct(1), ct(2), ct(3), ct(4), ct(5), 7)
        .unwrap();
    assert_eq!(queued.ticket, 42);
    assert_eq!(queued.encrypted_amount_in, ct(1));
    assert_eq!(queued.encrypted_amount_out_min, ct(2));
    assert_eq!(queued.encrypted_token_in, ct(3));
    assert_eq!(queued.encrypted_token_out, ct(4));
    assert_eq!(queued.encrypted_nonce, ct(5));
    let settlement = d.get_settlement(7).unwrap();
    assert!(!settlement.active);
    assert_eq!(settlement.nonce, 7);
    assert_eq!(settlement.amount_in, 0);
    assert_eq!(settlement.min_out, 0);
}

#[test]
fn place_order_leaves_an_existing_settlement_untouched() {
    let mut d = Dex::new();
    d.place_order(42, ct(1), ct(1), ct(1), ct(1), ct(1), 7).unwrap();
    d.match_order_callback(ComputationOutput::Success(order(100, 7)), dex::settlement_address(7))
        .unwrap();
    // Resubmitting under the same nonce must not reset the activated record.
    d.place_order(43, ct(2), ct(2), ct(2), ct(2), ct(2), 7).unwrap();
    let settlement = d.get_settlement(7).unwrap();
    assert!(settlement.active);
    assert_eq!(settlement.amount_in, 100);
}

#[test]
fn callback_rejects_zero_amount_and_record_stays_inactive() {
    let mut d = Dex::new();
    d.place_order(42, ct(1), ct(1), ct(1), ct(1), ct(1), 7).unwrap();
    let r = d.match_order_callback(
        ComputationOutput::Success(order(0, 7)),
        dex::settlement_address(7),
    );
    assert_eq!(r, Err(ErrorCode::InvalidOrderAmount));
    let settlement = d.get_settlement(7).unwrap();
    assert!(!settlement.active);
    assert_eq!(settlement.amount_in, 0);
}

#[test]
fn callback_rejects_a_mismatched_settlement_address() {
    let mut d = Dex::new();
    d.place_order(42, ct(1), ct(1), ct(1), ct(1), ct(1), 7).unwrap();
    d.place_order(43, ct(2), ct(2), ct(2), ct(2), ct(2), 8).unwrap();
    // The decrypted nonce is 8, but the presented record is the one for 7.
    let r = d.match_order_callback(
        ComputationOutput::Success(order(100, 8)),
        dex::settlement_address(7),
    );
    assert_eq!(r, Err(ErrorCode::InvalidSettlementPDA));
    assert!(!d.get_settlement(7).unwrap().active);
    assert!(!d.get_settlement(8).unwrap().active);
}

#[test]
fn callback_rejects_an_absent_settlement_record() {
    let mut d = Dex::new();
    let r = d.match_order_callback(
        ComputationOutput::Success(order(100, 7)),
        dex::settlement_address(7),
    );
    assert_eq!(r, Err(ErrorCode::SettlementNotFound));
}

#[test]
fn callback_propagates_an_abort_untouched() {
    let mut d = Dex::new();
    d.place_order(42, ct(1), ct(1), ct(1), ct(1), ct(1), 7).unwrap();
    let r = d.match_order_callback(ComputationOutput::Aborted, dex::settlement_address(7));
    assert_eq!(r, Err(ErrorCode::AbortedComputation));
    assert!(!d.get_settlement(7).unwrap().active);
}

#[test]
fn callback_writes_the_decrypted_terms_verbatim() {
    let mut d = Dex::new();
    d.place_order(42, ct(1), ct(1), ct(1), ct(1), ct(1), 21).unwrap();
    let o = SwapOrder {
        amount_in: 123,
        amount_out_min: 117,
        token_in: 4,
        token_out: 9,
        nonce: 21,
    };
    let event = d
        .match_order_callback(ComputationOutput::Success(o), dex::settlement_address(21))
        .unwrap();
    assert_eq!(event.amount_in, 123);
    assert_eq!(event.min_out, 117);
    assert_eq!(event.token_in, 4);
    assert_eq!(event.token_out, 9);
    assert_eq!(event.nonce, 21);
    let s = d.get_settlement(21).unwrap();
    assert!(s.active);
    assert_eq!(s.amount_in, 123);
    assert_eq!(s.min_out, 117);
    assert_eq!(s.token_in, 4);
    assert_eq!(s.token_out, 9);
    assert_eq!(s.nonce, 21);
}

#[test]
fn callback_activation_is_one_shot() {
    let mut d = Dex::new();
    d.place_order(42, ct(1), ct(1), ct(1), ct(1), ct(1), 7).unwrap();
    d.match_order_callback(ComputationOutput::Success(order(100, 7)), dex::settlement_address(7))
        .unwrap();
    // A replayed delivery against the activated record must not replace the
    // authoritative terms, even with an otherwise valid result.
    let replay = d.match_order_callback(
        ComputationOutput::Success(order(55, 7)),
        dex::settlement_address(7),
    );
    assert_eq!(replay, Err(ErrorCode::AlreadySettled));
    let s = d.get_settlement(7).unwrap();
    assert!(s.active);
    assert_eq!(s.amount_in, 100);
}

#[test]
fn init_settlement_test_rejects_a_duplicate_nonce() {
    let mut d = Dex::new();
    assert_eq!(d.init_settlement_test(7), Ok(()));
    let s = d.get_settlement(7).unwrap();
    assert!(!s.active);
    assert_eq!(s.nonce, 7);
    assert_eq!(d.init_settlement_test(7), Err(ErrorCode::DuplicateOrder));
}

#[test]
fn simulate_match_order_activates_an_existing_record() {
    let mut d = Dex::new();
    assert_eq!(
        d.simulate_match_order(100, 90, 1, 2, 7),
        Err(ErrorCode::SettlementNotFound)
    );
    d.init_settlement_test(7).unwrap();
    let event = d.simulate_match_order(100, 90, 1, 2, 7).unwrap();
    assert_eq!(event.amount_in, 100);
    assert_eq!(event.min_out, 90);
    let s = d.get_settlement(7).unwrap();
    assert!(s.active);
    assert_eq!(s.amount_in, 100);
}
