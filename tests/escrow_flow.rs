use anchor_lang::solana_program::pubkey::Pubkey;
use escrow::{make, refund, reproduce_and_verify, take, u64_le_bytes, same_address};
use escrow::{Address, EscrowError, Ledger};

fn addr(b: u8) -> Address {
    Address { bytes: [b; 32] }
}

const PROGRAM: u8 = 200;
const MAKER: u8 = 1;
const TAKER: u8 = 2;
const OTHER: u8 = 3;
const MINT_A: u8 = 10;
const MINT_B: u8 = 11;

/// A ledger where the maker holds 1000 of A and the taker 1000 of B.
fn funded() -> Ledger {
    let mut l = Ledger::new(addr(PROGRAM));
    assert!(l.fund(&addr(MAKER), &addr(MINT_A), 1000));
    assert!(l.fund(&addr(TAKER), &addr(MINT_B), 1000));
    l
}

fn bal(l: &Ledger, owner: u8, mint: u8) -> u64 {
    l.balance(&addr(owner), &addr(mint))
}

#[test]
fn take_settles_trade() {
    let mut l = funded();
    assert_eq!(make(&mut l, &addr(MAKER), &addr(MINT_A), &addr(MINT_B), 1, 50, 100), Ok(()));
    assert_eq!(bal(&l, MAKER, MINT_A), 900);
    assert_eq!(take(&mut l, &addr(TAKER), &addr(MAKER), 1), Ok(()));
    assert_eq!(bal(&l, MAKER, MINT_A), 900);
    assert_eq!(bal(&l, MAKER, MINT_B), 50);
    assert_eq!(bal(&l, TAKER, MINT_A), 100);
    assert_eq!(bal(&l, TAKER, MINT_B), 950);
    assert!(l.escrow(&addr(MAKER), 1).is_none());
    assert_eq!(take(&mut l, &addr(TAKER), &addr(MAKER), 1), Err(EscrowError::RecordNotFound));
    assert_eq!(refund(&mut l, &addr(MAKER), &addr(MAKER), 1), Err(EscrowError::RecordNotFound));
    assert_eq!(bal(&l, TAKER, MINT_A), 100);
    assert_eq!(bal(&l, MAKER, MINT_B), 50);
}

#[test]
fn refund_returns_deposit() {
    let mut l = funded();
    assert_eq!(make(&mut l, &addr(MAKER), &addr(MINT_A), &addr(MINT_B), 2, 50, 100), Ok(()));
    assert_eq!(bal(&l, MAKER, MINT_A), 900);
    assert_eq!(refund(&mut l, &addr(MAKER), &addr(MAKER), 2), Ok(()));
    assert_eq!(bal(&l, MAKER, MINT_A), 1000);
    assert_eq!(bal(&l, TAKER, MINT_B), 1000);
    assert_eq!(bal(&l, MAKER, MINT_B), 0);
    assert!(l.escrow(&addr(MAKER), 2).is_none());
    assert_eq!(take(&mut l, &addr(TAKER), &addr(MAKER), 2), Err(EscrowError::RecordNotFound));
    assert_eq!(bal(&l, TAKER, MINT_A), 0);
}

#[test]
fn refund_by_other_is_unauthorized() {
    let mut l = funded();
    assert_eq!(make(&mut l, &addr(MAKER), &addr(MINT_A), &addr(MINT_B), 3, 50, 100), Ok(()));
    assert_eq!(refund(&mut l, &addr(OTHER), &addr(MAKER), 3), Err(EscrowError::Unauthorized));
    assert_eq!(refund(&mut l, &addr(TAKER), &addr(MAKER), 3), Err(EscrowError::Unauthorized));
    assert_eq!(bal(&l, MAKER, MINT_A), 900);
    assert_eq!(bal(&l, OTHER, MINT_A), 0);
    assert_eq!(l.escrow(&addr(MAKER), 3).unwrap().vault_amount, 100);
}

#[test]
fn take_without_escrow_is_not_found() {
    let mut l = funded();
    assert_eq!(take(&mut l, &addr(TAKER), &addr(MAKER), 9), Err(EscrowError::RecordNotFound));
    assert_eq!(bal(&l, TAKER, MINT_B), 1000);
    assert_eq!(bal(&l, MAKER, MINT_A), 1000);
}

#[test]
fn second_make_with_same_seed_is_duplicate() {
    let mut l = funded();
    assert_eq!(make(&mut l, &addr(MAKER), &addr(MINT_A), &addr(MINT_B), 4, 50, 100), Ok(()));
    assert_eq!(
        make(&mut l, &addr(MAKER), &addr(MINT_A), &addr(MINT_B), 4, 70, 200),
        Err(EscrowError::DuplicateEscrow)
    );
    let e = l.escrow(&addr(MAKER), 4).unwrap();
    assert_eq!(e.record.receive, 50);
    assert_eq!(e.vault_amount, 100);
    assert_eq!(bal(&l, MAKER, MINT_A), 900);
    // another seed opens a second escrow beside the first
    assert_eq!(make(&mut l, &addr(MAKER), &addr(MINT_A), &addr(MINT_B), 5, 70, 200), Ok(()));
    assert_eq!(bal(&l, MAKER, MINT_A), 700);
    assert_eq!(l.escrows.len(), 2);
}

#[test]
fn seed_can_be_reused_after_close() {
    let mut l = funded();
    assert_eq!(make(&mut l, &addr(MAKER), &addr(MINT_A), &addr(MINT_B), 6, 50, 100), Ok(()));
    assert_eq!(refund(&mut l, &addr(MAKER), &addr(MAKER), 6), Ok(()));
    assert_eq!(make(&mut l, &addr(MAKER), &addr(MINT_A), &addr(MINT_B), 6, 20, 30), Ok(()));
    assert_eq!(l.escrow(&addr(MAKER), 6).unwrap().record.receive, 20);
}

#[test]
fn make_with_short_balance_is_insufficient() {
    let mut l = funded();
    assert_eq!(
        make(&mut l, &addr(MAKER), &addr(MINT_A), &addr(MINT_B), 7, 50, 1001),
        Err(EscrowError::InsufficientFunds)
    );
    assert_eq!(bal(&l, MAKER, MINT_A), 1000);
    assert!(l.escrow(&addr(MAKER), 7).is_none());
    // exactly the whole balance is enough
    assert_eq!(make(&mut l, &addr(MAKER), &addr(MINT_A), &addr(MINT_B), 7, 50, 1000), Ok(()));
    assert_eq!(bal(&l, MAKER, MINT_A), 0);
}

#[test]
fn take_with_short_balance_is_insufficient() {
    let mut l = funded();
    assert_eq!(make(&mut l, &addr(MAKER), &addr(MINT_A), &addr(MINT_B), 8, 5000, 100), Ok(()));
    assert_eq!(take(&mut l, &addr(TAKER), &addr(MAKER), 8), Err(EscrowError::InsufficientFunds));
    assert_eq!(bal(&l, TAKER, MINT_B), 1000);
    assert_eq!(bal(&l, TAKER, MINT_A), 0);
    assert!(l.escrow(&addr(MAKER), 8).is_some());
}

#[test]
fn take_that_would_overflow_changes_nothing() {
    let mut l = funded();
    assert!(l.fund(&addr(MAKER), &addr(MINT_B), u64::MAX - 10));
    assert_eq!(make(&mut l, &addr(MAKER), &addr(MINT_A), &addr(MINT_B), 9, 50, 100), Ok(()));
    assert_eq!(take(&mut l, &addr(TAKER), &addr(MAKER), 9), Err(EscrowError::Overflow));
    assert_eq!(bal(&l, TAKER, MINT_B), 1000);
    assert_eq!(bal(&l, MAKER, MINT_B), u64::MAX - 10);
    assert!(l.escrow(&addr(MAKER), 9).is_some());
}

#[test]
fn fund_that_would_overflow_is_refused() {
    let mut l = Ledger::new(addr(PROGRAM));
    assert!(l.fund(&addr(MAKER), &addr(MINT_A), u64::MAX));
    assert!(!l.fund(&addr(MAKER), &addr(MINT_A), 1));
    assert_eq!(bal(&l, MAKER, MINT_A), u64::MAX);
}

#[test]
fn tampered_bump_is_a_derivation_mismatch() {
    let mut l = funded();
    assert_eq!(make(&mut l, &addr(MAKER), &addr(MINT_A), &addr(MINT_B), 10, 50, 100), Ok(()));
    let e = l.escrow(&addr(MAKER), 10).unwrap();
    assert!(reproduce_and_verify(&e, &l.program_id));
    l.escrows[0].record.bump = e.record.bump.wrapping_sub(1);
    assert_eq!(take(&mut l, &addr(TAKER), &addr(MAKER), 10), Err(EscrowError::DerivationMismatch));
    assert_eq!(refund(&mut l, &addr(MAKER), &addr(MAKER), 10), Err(EscrowError::DerivationMismatch));
    assert_eq!(bal(&l, TAKER, MINT_B), 1000);
}

#[test]
fn escrow_addresses_are_program_derived() {
    let mut l = funded();
    assert_eq!(make(&mut l, &addr(MAKER), &addr(MINT_A), &addr(MINT_B), 11, 50, 100), Ok(()));
    let e = l.escrow(&addr(MAKER), 11).unwrap();
    let program = Pubkey::new_from_array([PROGRAM; 32]);
    let seed = 11u64.to_le_bytes();
    let maker = [MAKER; 32];
    let (rec, bump) = Pubkey::find_program_address(&[b"escrow", &maker, &seed], &program);
    assert_eq!(e.address.bytes, rec.to_bytes());
    assert_eq!(e.record.bump, bump);
    let (vault, _) = Pubkey::find_program_address(&[b"vault", &rec.to_bytes()], &program);
    assert_eq!(e.vault.bytes, vault.to_bytes());
    assert!(!same_address(&e.address, &l.program_id));
}

#[test]
fn le_bytes_of_seed() {
    assert_eq!(u64_le_bytes(0x0102030405060708), vec![8, 7, 6, 5, 4, 3, 2, 1]);
    assert_eq!(u64_le_bytes(0), vec![0; 8]);
    assert_eq!(u64_le_bytes(u64::MAX), vec![255; 8]);
}

#[test]
fn same_maker_can_trade_with_itself() {
    let mut l = funded();
    assert!(l.fund(&addr(MAKER), &addr(MINT_B), 50));
    assert_eq!(make(&mut l, &addr(MAKER), &addr(MINT_A), &addr(MINT_B), 12, 50, 100), Ok(()));
    assert_eq!(take(&mut l, &addr(MAKER), &addr(MAKER), 12), Ok(()));
    assert_eq!(bal(&l, MAKER, MINT_A), 1000);
    assert_eq!(bal(&l, MAKER, MINT_B), 50);
}
