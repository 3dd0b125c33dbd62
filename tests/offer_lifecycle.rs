use anchor_lang::prelude::Pubkey;
use escrow::address::{custodial_address, escrow_authority, offer_address, Address};
use escrow::ledger::{Ledger, LedgerError};
use escrow::offer::{
    AcceptOffer, CloseOffer, CreateOffer, Escrow, EscrowError, InstructionError, OfferDetails,
};

fn key(n: u8) -> Address {
    Address { bytes: [n; 32] }
}

const PROGRAM: u8 = 200;
const PARTY_ONE: u8 = 1;
const PARTY_TWO: u8 = 2;
const MINT_M: u8 = 10;
const MINT_N: u8 = 11;
const P1_M: u8 = 21;
const P1_N: u8 = 22;
const P2_N: u8 = 31;
const P2_M: u8 = 32;

/// Party one holds 100 M; party two holds `p2_n` N and `p2_m` M.
fn setup_with(p2_n: u64, p2_m: u64) -> Escrow {
    let mut ledger = Ledger::new();
    ledger.open_account(key(P1_M), key(MINT_M), key(PARTY_ONE), 100).unwrap();
    ledger.open_account(key(P1_N), key(MINT_N), key(PARTY_ONE), 0).unwrap();
    ledger.open_account(key(P2_N), key(MINT_N), key(PARTY_TWO), p2_n).unwrap();
    ledger.open_account(key(P2_M), key(MINT_M), key(PARTY_TWO), p2_m).unwrap();
    Escrow::new(key(PROGRAM), ledger)
}

fn setup(p2_n: u64) -> Escrow {
    setup_with(p2_n, 0)
}

fn create_ix() -> CreateOffer {
    CreateOffer {
        party_one: key(PARTY_ONE),
        send_mint: key(MINT_M),
        send_account: key(P1_M),
        receive_mint: key(MINT_N),
        receive_account: key(P1_N),
    }
}

fn accept_ix() -> AcceptOffer {
    AcceptOffer {
        party_one: key(PARTY_ONE),
        party_two: key(PARTY_TWO),
        party_one_mint: key(MINT_M),
        party_two_mint: key(MINT_N),
        party_one_receive: key(P1_N),
        party_two_send: key(P2_N),
        party_two_receive: key(P2_M),
    }
}

fn close_ix() -> CloseOffer {
    CloseOffer { party_one: key(PARTY_ONE), receive_account: key(P1_M) }
}

fn custody(e: &Escrow, mint: u8) -> Address {
    let auth = escrow_authority(&e.program_id()).unwrap();
    custodial_address(&auth, &key(mint)).unwrap()
}

fn bal(e: &Escrow, a: Address) -> u64 {
    e.ledger().balance(&a).unwrap()
}

/// The setup after party one offers 40 M for 10 N to party two.
fn with_open_offer(p2_n: u64) -> Escrow {
    let mut e = setup(p2_n);
    assert_eq!(e.create_offer(create_ix(), 40, 10, key(PARTY_TWO)), Ok(()));
    e
}

#[test]
fn create_moves_deposit_into_custody() {
    let e = with_open_offer(20);
    assert_eq!(bal(&e, custody(&e, MINT_M)), 40);
    assert_eq!(bal(&e, key(P1_M)), 60);
    let d = e.get_offer(&key(PARTY_ONE), &key(PARTY_TWO)).unwrap();
    assert_eq!(
        d,
        OfferDetails {
            party_one: key(PARTY_ONE),
            party_two: key(PARTY_TWO),
            receive_account: key(P1_N),
            offer_token: key(MINT_M),
            offer_amount: 40,
            ask_token: key(MINT_N),
            ask_amount: 10,
        }
    );
}

#[test]
fn close_returns_deposit() {
    let mut e = with_open_offer(20);
    assert_eq!(e.close_offer(close_ix(), key(PARTY_TWO)), Ok(()));
    assert!(e.offers().is_empty());
    assert_eq!(bal(&e, key(P1_M)), 100);
    assert_eq!(bal(&e, custody(&e, MINT_M)), 0);
    assert_eq!(e.get_offer(&key(PARTY_ONE), &key(PARTY_TWO)), None);
}

#[test]
fn accept_swaps_both_legs() {
    let mut e = with_open_offer(20);
    assert_eq!(e.accept_offer(accept_ix()), Ok(()));
    assert_eq!(bal(&e, key(P1_N)), 10);
    assert_eq!(bal(&e, key(P2_N)), 10);
    assert_eq!(bal(&e, key(P2_M)), 40);
    assert_eq!(bal(&e, custody(&e, MINT_M)), 0);
    assert_eq!(e.get_offer(&key(PARTY_ONE), &key(PARTY_TWO)), None);
}

#[test]
fn accept_with_too_little_changes_nothing() {
    let mut e = with_open_offer(5);
    assert_eq!(
        e.accept_offer(accept_ix()),
        Err(InstructionError::Escrow(EscrowError::InsufficientBalance))
    );
    assert_eq!(bal(&e, custody(&e, MINT_M)), 40);
    assert_eq!(bal(&e, key(P1_M)), 60);
    assert_eq!(bal(&e, key(P1_N)), 0);
    assert_eq!(bal(&e, key(P2_N)), 5);
    assert_eq!(bal(&e, key(P2_M)), 0);
    assert!(e.get_offer(&key(PARTY_ONE), &key(PARTY_TWO)).is_some());
}

#[test]
fn zero_send_amount_rejected() {
    let mut e = setup(20);
    assert_eq!(
        e.create_offer(create_ix(), 0, 5, key(PARTY_TWO)),
        Err(InstructionError::Escrow(EscrowError::ZeroSendAmount))
    );
    assert_eq!(bal(&e, key(P1_M)), 100);
    assert_eq!(e.ledger().accounts.len(), 4);
    assert!(e.offers().is_empty());
}

#[test]
fn zero_ask_amount_rejected() {
    let mut e = setup(20);
    assert_eq!(
        e.create_offer(create_ix(), 5, 0, key(PARTY_TWO)),
        Err(InstructionError::Escrow(EscrowError::ZeroAskAmount))
    );
    assert!(e.offers().is_empty());
}

#[test]
fn self_deal_rejected() {
    let mut e = setup(20);
    assert_eq!(
        e.create_offer(create_ix(), 5, 5, key(PARTY_ONE)),
        Err(InstructionError::Escrow(EscrowError::InvalidPartyTwo))
    );
    assert_eq!(bal(&e, key(P1_M)), 100);
    assert!(e.offers().is_empty());
}

#[test]
fn create_beyond_balance_rejected() {
    let mut e = setup(20);
    assert_eq!(
        e.create_offer(create_ix(), 101, 5, key(PARTY_TWO)),
        Err(InstructionError::Escrow(EscrowError::InsufficientBalance))
    );
    assert_eq!(bal(&e, key(P1_M)), 100);
    assert_eq!(e.ledger().accounts.len(), 4);
}

#[test]
fn create_whole_balance_allowed() {
    let mut e = setup(20);
    assert_eq!(e.create_offer(create_ix(), 100, 5, key(PARTY_TWO)), Ok(()));
    assert_eq!(bal(&e, key(P1_M)), 0);
    assert_eq!(bal(&e, custody(&e, MINT_M)), 100);
}

#[test]
fn second_create_for_pair_collides() {
    let mut e = with_open_offer(20);
    assert_eq!(
        e.create_offer(create_ix(), 10, 5, key(PARTY_TWO)),
        Err(InstructionError::OfferExists)
    );
    assert_eq!(bal(&e, key(P1_M)), 60);
    assert_eq!(bal(&e, custody(&e, MINT_M)), 40);
}

#[test]
fn create_from_foreign_account_rejected() {
    let mut e = setup(20);
    let mut ix = create_ix();
    ix.send_account = key(P2_M);
    assert_eq!(
        e.create_offer(ix, 5, 5, key(PARTY_TWO)),
        Err(InstructionError::AccountMismatch)
    );
}

#[test]
fn close_twice_fails_not_found() {
    let mut e = with_open_offer(20);
    assert_eq!(e.close_offer(close_ix(), key(PARTY_TWO)), Ok(()));
    assert_eq!(
        e.close_offer(close_ix(), key(PARTY_TWO)),
        Err(InstructionError::OfferNotFound)
    );
    assert_eq!(bal(&e, key(P1_M)), 100);
}

#[test]
fn accept_after_close_fails_not_found() {
    let mut e = with_open_offer(20);
    assert_eq!(e.close_offer(close_ix(), key(PARTY_TWO)), Ok(()));
    assert_eq!(e.accept_offer(accept_ix()), Err(InstructionError::OfferNotFound));
    assert_eq!(bal(&e, key(P2_N)), 20);
    assert_eq!(bal(&e, key(P2_M)), 0);
}

#[test]
fn close_after_accept_fails_not_found() {
    let mut e = with_open_offer(20);
    assert_eq!(e.accept_offer(accept_ix()), Ok(()));
    assert_eq!(
        e.close_offer(close_ix(), key(PARTY_TWO)),
        Err(InstructionError::OfferNotFound)
    );
    assert_eq!(bal(&e, key(P1_M)), 60);
}

#[test]
fn close_by_other_party_finds_nothing() {
    let mut e = with_open_offer(20);
    let ix = CloseOffer { party_one: key(PARTY_TWO), receive_account: key(P2_M) };
    assert_eq!(
        e.close_offer(ix, key(PARTY_TWO)),
        Err(InstructionError::OfferNotFound)
    );
    assert_eq!(bal(&e, custody(&e, MINT_M)), 40);
}

#[test]
fn accept_with_wrong_mint_rejected() {
    let mut e = with_open_offer(20);
    let mut ix = accept_ix();
    ix.party_two_mint = key(MINT_M);
    assert_eq!(
        e.accept_offer(ix),
        Err(InstructionError::Escrow(EscrowError::InvalidMintAccount))
    );
}

#[test]
fn accept_with_wrong_receive_account_rejected() {
    let mut e = with_open_offer(20);
    let mut ix = accept_ix();
    ix.party_one_receive = key(P1_M);
    assert_eq!(
        e.accept_offer(ix),
        Err(InstructionError::Escrow(EscrowError::IncorrectReceiveAccount))
    );
}

#[test]
fn accept_second_leg_overflow_rolls_back_first() {
    // Party two's receive account for M is nearly full: the second leg overflows.
    let mut e = setup_with(20, u64::MAX - 10);
    assert_eq!(e.create_offer(create_ix(), 40, 10, key(PARTY_TWO)), Ok(()));
    assert_eq!(
        e.accept_offer(accept_ix()),
        Err(InstructionError::Ledger(LedgerError::Overflow))
    );
    assert_eq!(bal(&e, key(P2_N)), 20);
    assert_eq!(bal(&e, key(P1_N)), 0);
    assert_eq!(bal(&e, custody(&e, MINT_M)), 40);
    assert!(e.get_offer(&key(PARTY_ONE), &key(PARTY_TWO)).is_some());
}

#[test]
fn supply_of_each_mint_is_kept() {
    let mut e = with_open_offer(20);
    let total = |e: &Escrow, m: u8| -> u64 {
        e.ledger().accounts.iter().filter(|a| a.mint == key(m)).map(|a| a.amount).sum()
    };
    assert_eq!(total(&e, MINT_M), 100);
    assert_eq!(total(&e, MINT_N), 20);
    assert_eq!(e.accept_offer(accept_ix()), Ok(()));
    assert_eq!(total(&e, MINT_M), 100);
    assert_eq!(total(&e, MINT_N), 20);
}

#[test]
fn custody_refuses_foreign_authority() {
    let e = with_open_offer(20);
    let temp = custody(&e, MINT_M);
    let auth = escrow_authority(&e.program_id()).unwrap();
    let mut l = Ledger::new();
    l.open_account(temp, key(MINT_M), auth, 40).unwrap();
    l.open_account(key(P2_M), key(MINT_M), key(PARTY_TWO), 0).unwrap();
    assert_eq!(
        l.transfer(40, &temp, &key(P2_M), &key(PARTY_ONE)),
        Err(LedgerError::OwnerMismatch)
    );
    assert_eq!(l.transfer(40, &temp, &key(P2_M), &auth), Ok(()));
}

#[test]
fn ledger_transfer_errors() {
    let mut l = Ledger::new();
    l.open_account(key(1), key(9), key(5), 10).unwrap();
    l.open_account(key(2), key(9), key(6), 0).unwrap();
    l.open_account(key(3), key(8), key(6), 0).unwrap();
    assert_eq!(l.open_account(key(1), key(9), key(5), 0), Err(LedgerError::AccountExists));
    assert_eq!(l.transfer(1, &key(4), &key(2), &key(5)), Err(LedgerError::AccountNotFound));
    assert_eq!(l.transfer(1, &key(1), &key(2), &key(6)), Err(LedgerError::OwnerMismatch));
    assert_eq!(l.transfer(1, &key(1), &key(3), &key(5)), Err(LedgerError::MintMismatch));
    assert_eq!(l.transfer(11, &key(1), &key(2), &key(5)), Err(LedgerError::InsufficientFunds));
    assert_eq!(l.transfer(10, &key(1), &key(1), &key(5)), Ok(()));
    assert_eq!(l.balance(&key(1)), Some(10));
    assert_eq!(l.transfer(4, &key(1), &key(2), &key(5)), Ok(()));
    assert_eq!(l.balance(&key(1)), Some(6));
    assert_eq!(l.balance(&key(2)), Some(4));
}

#[test]
fn derived_addresses_are_fixed_and_distinct() {
    let program = key(PROGRAM);
    let auth = escrow_authority(&program).unwrap();
    assert_eq!(escrow_authority(&program), Some(auth));
    assert_ne!(auth, program);
    let o12 = offer_address(&program, &key(PARTY_ONE), &key(PARTY_TWO)).unwrap();
    let o21 = offer_address(&program, &key(PARTY_TWO), &key(PARTY_ONE)).unwrap();
    assert_ne!(o12, o21);
    assert_ne!(o12, auth);
    let c_m = custodial_address(&auth, &key(MINT_M)).unwrap();
    let c_n = custodial_address(&auth, &key(MINT_N)).unwrap();
    assert_ne!(c_m, c_n);
    assert_ne!(c_m, auth);
    assert_ne!(c_m, key(MINT_M));
    assert_eq!(custodial_address(&auth, &key(MINT_M)), Some(c_m));
}

#[test]
fn derivations_match_the_token_programs() {
    let program = key(PROGRAM);
    let program_id = Pubkey::new_from_array(program.bytes);
    let auth = escrow_authority(&program).unwrap();
    let (expected_auth, _) = Pubkey::find_program_address(&[b"authority"], &program_id);
    assert_eq!(auth.bytes, expected_auth.to_bytes());
    let (expected_offer, _) = Pubkey::find_program_address(
        &[b"escrow", &key(PARTY_ONE).bytes, &key(PARTY_TWO).bytes],
        &program_id,
    );
    let offer = offer_address(&program, &key(PARTY_ONE), &key(PARTY_TWO)).unwrap();
    assert_eq!(offer.bytes, expected_offer.to_bytes());
    let expected_custody = anchor_spl::associated_token::get_associated_token_address(
        &Pubkey::new_from_array(auth.bytes),
        &Pubkey::new_from_array([MINT_M; 32]),
    );
    let custody = custodial_address(&auth, &key(MINT_M)).unwrap();
    assert_eq!(custody.bytes, expected_custody.to_bytes());
}

#[test]
fn address_comparison() {
    let mut b = [7u8; 32];
    assert!(key(7).same(&Address { bytes: b }));
    b[31] = 8;
    assert!(!key(7).same(&Address { bytes: b }));
}

