use phone_escrow::contract::Contract;
use phone_escrow::types::{ContractError, OutboundTransfer};

fn s(x: &str) -> String {
    x.to_string()
}

fn expect_native(t: &OutboundTransfer, receiver: &str, amount: u128) {
    match t {
        OutboundTransfer::Native { receiver_id, amount: a } => {
            assert_eq!(receiver_id, receiver);
            assert_eq!(*a, amount);
        }
        _ => panic!("expected a native transfer"),
    }
}

fn expect_ft(t: &OutboundTransfer, contract: &str, receiver: &str, amount: u128) {
    match t {
        OutboundTransfer::Ft { ft_contract_id, receiver_id, amount: a } => {
            assert_eq!(ft_contract_id, contract);
            assert_eq!(receiver_id, receiver);
            assert_eq!(*a, amount);
        }
        _ => panic!("expected a fungible-token transfer"),
    }
}

fn expect_nft(t: &OutboundTransfer, contract: &str, receiver: &str, token: &str) {
    match t {
        OutboundTransfer::Nft { nft_contract_id, receiver_id, token_id } => {
            assert_eq!(nft_contract_id, contract);
            assert_eq!(receiver_id, receiver);
            assert_eq!(token_id, token);
        }
        _ => panic!("expected a non-fungible-token transfer"),
    }
}

#[test]
fn fresh_phone_reports_none_everywhere() {
    let c = Contract::new(s("owner"));
    assert!(c.get_account_id(s("555")).is_none());
    assert!(c.get_transfers(s("555")).is_none());
    assert!(c.get_ft_transfers(s("555")).is_none());
    assert!(c.get_nft_transfers(s("555")).is_none());
}

#[test]
fn single_deposit_then_allocate_settles_once() {
    let mut c = Contract::new(s("owner"));
    assert!(c.send_near_to_phone(s("555"), s("alice"), 5).is_none());
    let pending = c.get_transfers(s("555")).expect("a pending list");
    assert_eq!(pending.len(), 1);
    assert_eq!(pending[0].from_account_id, "alice");
    assert_eq!(pending[0].amount, 5);
    let out = c.allocate_phone(s("555"), s("x"), s("owner"), 1).expect("allocation succeeds");
    assert_eq!(out.len(), 1);
    expect_native(&out[0], "x", 5);
    assert!(c.get_transfers(s("555")).is_none());
    assert_eq!(c.get_account_id(s("555")).unwrap(), "x");
}

#[test]
fn two_deposits_settle_as_one_summed_transfer() {
    let mut c = Contract::new(s("o"));
    assert!(c.send_near_to_phone(s("555"), s("a"), 5).is_none());
    assert!(c.send_near_to_phone(s("555"), s("b"), 3).is_none());
    let out = c.allocate_phone(s("555"), s("x"), s("o"), 1).expect("allocation succeeds");
    assert_eq!(out.len(), 1);
    expect_native(&out[0], "x", 8);
    assert!(c.get_transfers(s("555")).is_none());
    assert_eq!(c.get_account_id(s("555")).unwrap(), "x");
}

#[test]
fn two_ft_deposits_settle_in_arrival_order_never_aggregated() {
    let mut c = Contract::new(s("o"));
    let (refund1, routed1) = c.ft_on_transfer(s("a"), 10, s("777"), s("tok"));
    assert_eq!(refund1, 0);
    assert!(routed1.is_none());
    let (refund2, routed2) = c.ft_on_transfer(s("b"), 20, s("777"), s("tok"));
    assert_eq!(refund2, 0);
    assert!(routed2.is_none());
    let pending = c.get_ft_transfers(s("777")).expect("a pending list");
    assert_eq!(pending.len(), 2);
    assert_eq!(pending[0].from_account_id, "a");
    assert_eq!(pending[0].ft_contract_id, "tok");
    assert_eq!(pending[0].ft_amount, 10);
    assert_eq!(pending[1].from_account_id, "b");
    assert_eq!(pending[1].ft_amount, 20);
    let out = c.allocate_phone(s("777"), s("x"), s("o"), 1).expect("allocation succeeds");
    assert_eq!(out.len(), 2);
    expect_ft(&out[0], "tok", "x", 10);
    expect_ft(&out[1], "tok", "x", 20);
    assert!(c.get_ft_transfers(s("777")).is_none());
}

#[test]
fn deposit_to_bound_phone_routes_immediately() {
    let mut c = Contract::new(s("o"));
    c.allocate_phone(s("555"), s("x"), s("o"), 1).unwrap();
    let routed = c.send_near_to_phone(s("555"), s("a"), 9).expect("routed at once");
    expect_native(&routed, "x", 9);
    assert!(c.get_transfers(s("555")).is_none());

    let (refund, ft_routed) = c.ft_on_transfer(s("a"), 4, s("555"), s("tok"));
    assert_eq!(refund, 0);
    expect_ft(&ft_routed.expect("routed at once"), "tok", "x", 4);
    assert!(c.get_ft_transfers(s("555")).is_none());

    let (refuse, nft_routed) = c.nft_on_transfer(s("a"), s("prev"), s("token-7"), s("555"), s("nftc"));
    assert!(!refuse);
    expect_nft(&nft_routed.expect("routed at once"), "nftc", "x", "token-7");
    assert!(c.get_nft_transfers(s("555")).is_none());
}

#[test]
fn allocate_already_bound_fails_and_changes_nothing() {
    let mut c = Contract::new(s("o"));
    c.allocate_phone(s("555"), s("x"), s("o"), 1).unwrap();
    c.send_near_to_phone(s("999"), s("a"), 7);
    let r = c.allocate_phone(s("555"), s("y"), s("o"), 1);
    assert_eq!(r.unwrap_err(), ContractError::AlreadyBound);
    assert_eq!(c.get_account_id(s("555")).unwrap(), "x");
    assert_eq!(c.get_transfers(s("999")).unwrap().len(), 1);
}

#[test]
fn delete_phone_by_other_account_fails_and_keeps_binding() {
    let mut c = Contract::new(s("o"));
    c.allocate_phone(s("555"), s("x"), s("o"), 1).unwrap();
    let r = c.delete_phone(s("555"), s("intruder"), 1);
    assert_eq!(r.unwrap_err(), ContractError::Unauthorized);
    assert_eq!(c.get_account_id(s("555")).unwrap(), "x");
}

#[test]
fn delete_phone_by_bound_account_unbinds() {
    let mut c = Contract::new(s("o"));
    c.send_near_to_phone(s("555"), s("a"), 5);
    c.allocate_phone(s("555"), s("x"), s("o"), 1).unwrap();
    assert_eq!(c.delete_phone(s("555"), s("x"), 1), Ok(()));
    assert!(c.get_account_id(s("555")).is_none());
}

#[test]
fn allocate_by_non_owner_fails_regardless_of_confirmation() {
    let mut c = Contract::new(s("o"));
    for deposit in [0u128, 1, 2, 1_000_000] {
        let r = c.allocate_phone(s("555"), s("x"), s("mallory"), deposit);
        assert_eq!(r.unwrap_err(), ContractError::Unauthorized);
    }
    assert!(c.get_account_id(s("555")).is_none());
}

#[test]
fn allocate_without_confirmation_fails() {
    let mut c = Contract::new(s("o"));
    for deposit in [0u128, 2, 50] {
        let r = c.allocate_phone(s("555"), s("x"), s("o"), deposit);
        assert_eq!(r.unwrap_err(), ContractError::MissingConfirmation);
    }
    assert!(c.get_account_id(s("555")).is_none());
}

#[test]
fn delete_without_confirmation_or_binding_fails() {
    let mut c = Contract::new(s("o"));
    assert_eq!(c.delete_phone(s("555"), s("x"), 0).unwrap_err(), ContractError::MissingConfirmation);
    assert_eq!(c.delete_phone(s("555"), s("x"), 1).unwrap_err(), ContractError::NotBound);
}

#[test]
fn native_sum_overflow_fails_allocation_whole() {
    let mut c = Contract::new(s("o"));
    c.send_near_to_phone(s("555"), s("a"), u128::MAX);
    c.send_near_to_phone(s("555"), s("b"), 1);
    let r = c.allocate_phone(s("555"), s("x"), s("o"), 1);
    assert_eq!(r.unwrap_err(), ContractError::ArithmeticOverflow);
    assert!(c.get_account_id(s("555")).is_none());
    assert_eq!(c.get_transfers(s("555")).unwrap().len(), 2);
}

#[test]
fn change_owner_hands_over_allocation_rights() {
    let mut c = Contract::new(s("o"));
    assert_eq!(c.change_owner(s("p"), s("mallory")).unwrap_err(), ContractError::Unauthorized);
    assert_eq!(c.change_owner(s("p"), s("o")), Ok(()));
    assert_eq!(
        c.allocate_phone(s("555"), s("x"), s("o"), 1).unwrap_err(),
        ContractError::Unauthorized
    );
    assert!(c.allocate_phone(s("555"), s("x"), s("p"), 1).is_ok());
}

#[test]
fn nft_deposit_waits_then_settles() {
    let mut c = Contract::new(s("o"));
    let (refuse, routed) = c.nft_on_transfer(s("sender"), s("prev"), s("token-7"), s("555"), s("nftc"));
    assert!(!refuse);
    assert!(routed.is_none());
    let pending = c.get_nft_transfers(s("555")).expect("a pending list");
    assert_eq!(pending.len(), 1);
    assert_eq!(pending[0].from_account_id, "prev");
    assert_eq!(pending[0].nft_contract_id, "nftc");
    assert_eq!(pending[0].nft_token_id, "token-7");
    let out = c.allocate_phone(s("555"), s("x"), s("o"), 1).unwrap();
    assert_eq!(out.len(), 1);
    expect_nft(&out[0], "nftc", "x", "token-7");
    assert!(c.get_nft_transfers(s("555")).is_none());
}

#[test]
fn settlement_orders_native_then_ft_then_nft() {
    let mut c = Contract::new(s("o"));
    c.nft_on_transfer(s("s"), s("prev"), s("tok-1"), s("555"), s("nftc"));
    c.ft_on_transfer(s("s"), 4, s("555"), s("ftc"));
    c.send_near_to_phone(s("555"), s("a"), 2);
    let out = c.allocate_phone(s("555"), s("x"), s("o"), 1).unwrap();
    assert_eq!(out.len(), 3);
    expect_native(&out[0], "x", 2);
    expect_ft(&out[1], "ftc", "x", 4);
    expect_nft(&out[2], "nftc", "x", "tok-1");
}

#[test]
fn deleted_phone_can_accumulate_and_be_claimed_again() {
    let mut c = Contract::new(s("o"));
    c.send_near_to_phone(s("555"), s("a"), 5);
    c.allocate_phone(s("555"), s("x"), s("o"), 1).unwrap();
    c.delete_phone(s("555"), s("x"), 1).unwrap();
    assert!(c.send_near_to_phone(s("555"), s("b"), 7).is_none());
    let out = c.allocate_phone(s("555"), s("y"), s("o"), 1).unwrap();
    assert_eq!(out.len(), 1);
    expect_native(&out[0], "y", 7);
    assert_eq!(c.get_account_id(s("555")).unwrap(), "y");
}

#[test]
fn end_to_end_two_senders_one_claim() {
    let mut c = Contract::new(s("o"));
    assert!(c.send_near_to_phone(s("555"), s("a"), 5).is_none());
    assert!(c.send_near_to_phone(s("555"), s("b"), 3).is_none());
    let out = c.allocate_phone(s("555"), s("x"), s("o"), 1).expect("allocation succeeds");
    assert_eq!(out.len(), 1);
    expect_native(&out[0], "x", 8);
    assert!(c.get_transfers(s("555")).is_none());
    assert_eq!(c.get_account_id(s("555")).unwrap(), "x");
}

#[test]
fn persisted_parts_rebuild_the_same_state() {
    let mut c = Contract::new(s("o"));
    c.send_near_to_phone(s("555"), s("a"), 5);
    c.ft_on_transfer(s("b"), 4, s("555"), s("tok"));
    c.nft_on_transfer(s("x"), s("prev"), s("t-1"), s("777"), s("nftc"));
    c.allocate_phone(s("888"), s("carol"), s("o"), 1).unwrap();

    let rebuilt = Contract::from_parts(
        c.owner().clone(),
        c.registry_entries().clone(),
        c.native_entries().clone(),
        c.ft_entries().clone(),
        c.nft_entries().clone(),
    );
    assert_eq!(rebuilt.get_account_id(s("888")).unwrap(), "carol");
    assert!(rebuilt.get_account_id(s("555")).is_none());
    assert_eq!(rebuilt.get_transfers(s("555")).unwrap().len(), 1);
    assert_eq!(rebuilt.get_ft_transfers(s("555")).unwrap().len(), 1);
    assert_eq!(rebuilt.get_nft_transfers(s("777")).unwrap().len(), 1);
    assert_eq!(rebuilt.get_nft_transfers(s("777")).unwrap()[0].nft_token_id, "t-1");
}

#[test]
fn phone_keys_are_exact_and_case_sensitive() {
    let mut c = Contract::new(s("o"));
    c.send_near_to_phone(s("555a"), s("a"), 5);
    assert!(c.get_transfers(s("555A")).is_none());
    assert!(c.get_transfers(s("555a")).is_some());
    c.allocate_phone(s("555A"), s("x"), s("o"), 1).unwrap();
    assert!(c.get_transfers(s("555a")).is_some());
    assert!(c.get_account_id(s("555a")).is_none());
}
