use dex::ComputationOutput;
use dex::Dex;
use dex::ErrorCode;
use dex::SwapOrder;

fn ct(b: u8) -> [u8; 32] {
    [b; 32]
}

fn settled_dex(nonce: u64) -> Dex {
    let mut d = Dex::new();
    d.place_order(42, ct(1), ct(1), ct(1), ct(1), ct(1), nonce)
        .unwrap();
    let o = SwapOrder {
        amount_in: 100,
        amount_out_min: 90,
        token_in: 1,
        token_out: 2,
        nonce,
    };
    d.match_order_callback(ComputationOutput::Success(o), dex::settlement_address(nonce))
        .unwrap();
    d
}

#[test]
fn execute_consumes_the_record_exactly_once() {
    let mut d = settled_dex(7);
    assert_eq!(d.execute_swap(7, true), Ok(()));
    assert!(d.get_settlement(7).is_none());
    // Two sequentially-serialized execution attempts against the same
    // record: exactly one succeeds, the later one observes no active record.
    assert_eq!(d.execute_swap(7, true), Err(ErrorCode::SettlementNotActive));
}

#[test]
fn execute_requires_an_active_record() {
    let mut d = Dex::new();
    assert_eq!(d.execute_swap(7, true), Err(ErrorCode::SettlementNotActive));
    d.place_order(42, ct(1), ct(1), ct(1), ct(1), ct(1), 7).unwrap();
    // Created but never activated by the callback.
    assert_eq!(d.execute_swap(7, true), Err(ErrorCode::SettlementNotActive));
}

#[test]
fn router_failure_rolls_back_and_leaves_the_record_retryable() {
    let mut d = settled_dex(7);
    assert_eq!(d.execute_swap(7, false), Err(ErrorCode::RouterFailed));
    let s = d.get_settlement(7).unwrap();
    assert!(s.active);
    assert_eq!(s.amount_in, 100);
    // The rolled-back record still authorizes a retry.
    assert_eq!(d.execute_swap(7, true), Ok(()));
    assert!(d.get_settlement(7).is_none());
}

#[test]
fn execute_swap_test_skips_the_router_but_still_consumes() {
    let mut d = settled_dex(9);
    assert_eq!(d.execute_swap_test(9), Ok(()));
    assert!(d.get_settlement(9).is_none());
    assert_eq!(d.execute_swap_test(9), Err(ErrorCode::SettlementNotActive));
}

#[test]
fn execute_only_touches_its_own_nonce() {
    let mut d = settled_dex(7);
    d.place_order(43, ct(2), ct(2), ct(2), ct(2), ct(2), 8).unwrap();
    let o = SwapOrder {
        amount_in: 5,
        amount_out_min: 4,
        token_in: 1,
        token_out: 2,
        nonce: 8,
    };
    d.match_order_callback(ComputationOutput::Success(o), dex::settlement_address(8))
        .unwrap();
    assert_eq!(d.execute_swap(7, true), Ok(()));
    let other = d.get_settlement(8).unwrap();
    assert!(other.active);
    assert_eq!(other.amount_in, 5);
}
