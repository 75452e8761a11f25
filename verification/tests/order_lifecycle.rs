use dex::ComputationOutput;
use dex::Dex;
use dex::ErrorCode;
use dex::SwapOrder;

fn ct(b: u8) -> [u8; 32] {
    [b; 32]
}

#[test]
fn full_lifecycle_create_fund_match_execute_drain() {
    let mut d = Dex::new();

    let created = d
        .create_private_swap(
            9,
            11,
            12,
            100,
            90,
            7,
            42,
            ct(1),
            ct(2),
            ct(3),
            ct(4),
            ct(5),
        )
        .unwrap();
    assert_eq!(created.user, 9);
    assert_eq!(created.token_in, 11);
    assert_eq!(created.token_out, 12);
    assert_eq!(created.amount, 100);
    assert_eq!(created.nonce, 7);

    let queued = d.fund_and_place_order(9, 7, 100, 42).unwrap();
    assert_eq!(queued.ticket, 42);
    assert_eq!(queued.encrypted_amount_in, ct(1));
    assert_eq!(queued.encrypted_amount_out_min, ct(2));
    assert_eq!(queued.encrypted_token_in, ct(3));
    assert_eq!(queued.encrypted_token_out, ct(4));
    assert_eq!(queued.encrypted_nonce, ct(5));

    let wallet = d.get_wallet(9, 7).unwrap();
    assert!(wallet.active);
    assert!(wallet.is_funded);

    let settlement = d.get_settlement(7).unwrap();
    assert!(!settlement.active);
    assert_eq!(settlement.nonce, 7);

    let order = SwapOrder {
        amount_in: 100,
        amount_out_min: 90,
        token_in: 1,
        token_out: 2,
        nonce: 7,
    };
    let event = d
        .match_order_callback(ComputationOutput::Success(order), dex::settlement_address(7))
        .unwrap();
    assert_eq!(event.amount_in, 100);
    assert_eq!(event.min_out, 90);
    assert_eq!(event.token_in, 1);
    assert_eq!(event.token_out, 2);
    assert_eq!(event.nonce, 7);

    let settlement = d.get_settlement(7).unwrap();
    assert!(settlement.active);
    assert_eq!(settlement.amount_in, 100);
    assert_eq!(settlement.min_out, 90);

    assert_eq!(d.execute_swap(7, true), Ok(()));
    assert!(d.get_settlement(7).is_none());

    assert_eq!(d.return_tokens_to_user(9, 7, 95), Ok(95));
    assert!(d.get_wallet(9, 7).is_none());
}

#[test]
fn duplicate_order_is_rejected_and_first_wallet_stays() {
    let mut d = Dex::new();
    d.create_private_swap(5, 1, 2, 10, 9, 3, 0, ct(1), ct(1), ct(1), ct(1), ct(1))
        .unwrap();
    let second = d.create_private_swap(5, 8, 8, 999, 1, 3, 1, ct(2), ct(2), ct(2), ct(2), ct(2));
    assert_eq!(second, Err(ErrorCode::DuplicateOrder));
    let wallet = d.get_wallet(5, 3).unwrap();
    assert_eq!(wallet.token_in_mint, 1);
    assert_eq!(wallet.amount_in, 10);
    assert_eq!(wallet.encrypted_amount_in, ct(1));
}

#[test]
fn same_owner_new_nonce_and_same_nonce_other_owner_are_fresh_pairs() {
    let mut d = Dex::new();
    d.create_private_swap(5, 1, 2, 10, 9, 3, 0, ct(1), ct(1), ct(1), ct(1), ct(1))
        .unwrap();
    assert!(d
        .create_private_swap(5, 1, 2, 10, 9, 4, 0, ct(1), ct(1), ct(1), ct(1), ct(1))
        .is_ok());
    assert!(d
        .create_private_swap(6, 1, 2, 10, 9, 3, 0, ct(1), ct(1), ct(1), ct(1), ct(1))
        .is_ok());
}

#[test]
fn funding_requires_covering_balance() {
    let mut d = Dex::new();
    d.create_private_swap(9, 11, 12, 100, 90, 7, 42, ct(1), ct(1), ct(1), ct(1), ct(1))
        .unwrap();
    assert_eq!(
        d.fund_and_place_order(9, 7, 99, 42),
        Err(ErrorCode::InsufficientFunds)
    );
    let wallet = d.get_wallet(9, 7).unwrap();
    assert!(!wallet.is_funded);
    assert!(d.get_settlement(7).is_none());
    assert!(d.fund_and_place_order(9, 7, 100, 42).is_ok());
}

#[test]
fn funding_is_one_shot() {
    let mut d = Dex::new();
    d.create_private_swap(9, 11, 12, 100, 90, 7, 42, ct(1), ct(1), ct(1), ct(1), ct(1))
        .unwrap();
    assert!(d.fund_and_place_order(9, 7, 250, 42).is_ok());
    assert_eq!(
        d.fund_and_place_order(9, 7, 250, 43),
        Err(ErrorCode::AlreadyFunded)
    );
    let wallet = d.get_wallet(9, 7).unwrap();
    assert!(wallet.is_funded);
}

#[test]
fn funding_an_unknown_order_is_rejected() {
    let mut d = Dex::new();
    assert_eq!(
        d.fund_and_place_order(9, 7, 100, 42),
        Err(ErrorCode::OrderNotFound)
    );
}

#[test]
fn drain_is_available_at_every_lifecycle_point() {
    let mut d = Dex::new();

    // Freshly created, never funded.
    d.create_private_swap(1, 1, 2, 10, 9, 1, 0, ct(1), ct(1), ct(1), ct(1), ct(1))
        .unwrap();
    assert_eq!(d.return_tokens_to_user(1, 1, 0), Ok(0));
    assert!(d.get_wallet(1, 1).is_none());

    // Funded, computation never returned.
    d.create_private_swap(2, 1, 2, 10, 9, 2, 0, ct(1), ct(1), ct(1), ct(1), ct(1))
        .unwrap();
    d.fund_and_place_order(2, 2, 10, 0).unwrap();
    assert_eq!(d.return_tokens_to_user(2, 2, 10), Ok(10));
    assert!(d.get_wallet(2, 2).is_none());

    // Settled and executed.
    d.create_private_swap(3, 1, 2, 10, 9, 3, 0, ct(1), ct(1), ct(1), ct(1), ct(1))
        .unwrap();
    d.fund_and_place_order(3, 3, 10, 0).unwrap();
    let order = SwapOrder {
        amount_in: 10,
        amount_out_min: 9,
        token_in: 1,
        token_out: 2,
        nonce: 3,
    };
    d.match_order_callback(ComputationOutput::Success(order), dex::settlement_address(3))
        .unwrap();
    d.execute_swap(3, true).unwrap();
    assert_eq!(d.return_tokens_to_user(3, 3, 9), Ok(9));
    assert!(d.get_wallet(3, 3).is_none());
}

#[test]
fn drain_rejects_a_caller_without_a_wallet() {
    let mut d = Dex::new();
    d.create_private_swap(1, 1, 2, 10, 9, 1, 0, ct(1), ct(1), ct(1), ct(1), ct(1))
        .unwrap();
    // Wrong owner, right nonce.
    assert_eq!(d.return_tokens_to_user(2, 1, 5), Err(ErrorCode::OwnerMismatch));
    // Right owner, wrong nonce.
    assert_eq!(d.return_tokens_to_user(1, 2, 5), Err(ErrorCode::OwnerMismatch));
    assert!(d.get_wallet(1, 1).is_some());
    // Draining twice: the second call finds no wallet any more.
    assert_eq!(d.return_tokens_to_user(1, 1, 5), Ok(5));
    assert_eq!(d.return_tokens_to_user(1, 1, 5), Err(ErrorCode::OwnerMismatch));
}
