use vstd::prelude::*;
use crate::address::{Address, found_address};
use crate::escrow::{
    EscrowError, Ledger, address_taken, derived, escrow_key, escrow_seeds, make_post,
    refund_post, take_post, uses_address, vault_seeds, closed,
};
use crate::store::lemma_first_some;

verus! {

/// The record and vault addresses of `maker`'s escrow number `seed` can be
/// derived, and no open escrow uses either of them.
pub open spec fn addresses_free(l: Ledger, maker: Seq<u8>, seed: u64) -> bool {
    match found_address(escrow_seeds(maker, seed), l.program_id@) {
        Some(rec) => !address_taken(l.escrows@, rec.0) && match found_address(
            vault_seeds(rec.0),
            l.program_id@,
        ) {
            Some(v) => !address_taken(l.escrows@, v.0),
            None => false,
        },
        None => false,
    }
}

/// An open escrow of a well-formed ledger stands at its canonical address.
proof fn lemma_open_escrow_derived(l: Ledger, maker: Seq<u8>, seed: u64)
    requires
        l.wf(),
        l.escrow_at(maker, seed) is Some,
    ensures
        derived(l.escrow_at(maker, seed)->0, l.program_id@),
        l.escrow_at(maker, seed)->0.record.maker@ == maker,
        l.escrow_at(maker, seed)->0.record.seed == seed,
        address_taken(l.escrows@, l.escrow_at(maker, seed)->0.address@),
{
    let e = l.escrow_at(maker, seed)->0;
    lemma_first_some(l.escrows@, escrow_key(maker, seed));
    let k = choose|k: int| 0 <= k < l.escrows@.len() && l.escrows@[k] == e;
    assert(derived(l.escrows@[k], l.program_id@));
    assert(uses_address(l.escrows@[k], e.address@));
}

/// Make followed by Take, between two distinct parties and two distinct
/// assets: the maker has paid the deposit of asset A and received the asked
/// amount of asset B, the taker the reverse, and no escrow remains.
pub proof fn make_then_take(
    l0: Ledger,
    l1: Ledger,
    l2: Ledger,
    maker: Address,
    taker: Address,
    mint_a: Address,
    mint_b: Address,
    seed: u64,
    receive: u64,
    deposit: u64,
    r1: Result<(), EscrowError>,
    r2: Result<(), EscrowError>,
)
    requires
        l0.wf(),
        l1.wf(),
        maker@ != taker@,
        mint_a@ != mint_b@,
        addresses_free(l0, maker@, seed),
        l0.balances()[(maker@, mint_a@)] >= deposit,
        l0.balances()[(taker@, mint_b@)] >= receive,
        l0.balances()[(maker@, mint_b@)] + receive <= u64::MAX,
        l0.balances()[(taker@, mint_a@)] + deposit <= u64::MAX,
        make_post(l0, l1, maker, mint_a, mint_b, seed, receive, deposit, r1),
        take_post(l1, l2, taker@, maker@, seed, r2),
    ensures
        r1 is Ok,
        r2 is Ok,
        l2.balances()[(maker@, mint_a@)] == l0.balances()[(maker@, mint_a@)] - deposit,
        l2.balances()[(maker@, mint_b@)] == l0.balances()[(maker@, mint_b@)] + receive,
        l2.balances()[(taker@, mint_a@)] == l0.balances()[(taker@, mint_a@)] + deposit,
        l2.balances()[(taker@, mint_b@)] == l0.balances()[(taker@, mint_b@)] - receive,
        l2.escrow_at(maker@, seed) is None,
{
    lemma_open_escrow_derived(l1, maker@, seed);
}

/// Make followed by a Refund from the maker gives every balance back as it
/// was before Make, and no escrow remains.
pub proof fn make_then_refund(
    l0: Ledger,
    l1: Ledger,
    l2: Ledger,
    maker: Address,
    mint_a: Address,
    mint_b: Address,
    seed: u64,
    receive: u64,
    deposit: u64,
    r1: Result<(), EscrowError>,
    r2: Result<(), EscrowError>,
)
    requires
        l0.wf(),
        l1.wf(),
        addresses_free(l0, maker@, seed),
        l0.balances()[(maker@, mint_a@)] >= deposit,
        make_post(l0, l1, maker, mint_a, mint_b, seed, receive, deposit, r1),
        refund_post(l1, l2, maker@, maker@, seed, r2),
    ensures
        r1 is Ok,
        r2 is Ok,
        l2.balances() == l0.balances(),
        l2.escrow_at(maker@, seed) is None,
{
    lemma_open_escrow_derived(l1, maker@, seed);
    assert(l2.balances() =~= l0.balances());
}

/// A Refund from anyone but the maker of an open escrow is refused as
/// unauthorized and changes nothing.
pub proof fn refund_by_other(
    l: Ledger,
    l2: Ledger,
    signer: Seq<u8>,
    maker: Seq<u8>,
    seed: u64,
    r: Result<(), EscrowError>,
)
    requires
        l.escrow_at(maker, seed) is Some,
        signer != maker,
        refund_post(l, l2, signer, maker, seed, r),
    ensures
        r == Err::<(), EscrowError>(EscrowError::Unauthorized),
        l2.same_state(&l),
        l2.balances() == l.balances(),
{
    lemma_first_some(l.escrows@, escrow_key(maker, seed));
}

/// A Take where no escrow is open is refused as not found and changes nothing.
pub proof fn take_without_record(
    l: Ledger,
    l2: Ledger,
    taker: Seq<u8>,
    maker: Seq<u8>,
    seed: u64,
    r: Result<(), EscrowError>,
)
    requires
        l.escrow_at(maker, seed) is None,
        take_post(l, l2, taker, maker, seed, r),
    ensures
        r == Err::<(), EscrowError>(EscrowError::RecordNotFound),
        l2.same_state(&l),
        l2.balances() == l.balances(),
{
}

/// Once an escrow has been closed, by Take or by Refund, a later Take of it
/// is refused as not found and changes nothing.
pub proof fn take_after_close(
    l0: Ledger,
    l1: Ledger,
    l2: Ledger,
    taker: Seq<u8>,
    maker: Seq<u8>,
    seed: u64,
    r: Result<(), EscrowError>,
)
    requires
        closed(l0, l1, maker, seed),
        take_post(l1, l2, taker, maker, seed, r),
    ensures
        r == Err::<(), EscrowError>(EscrowError::RecordNotFound),
        l2.same_state(&l1),
        l2.balances() == l1.balances(),
{
}

/// Once an escrow has been closed, a later Refund of it is refused as not
/// found and changes nothing.
pub proof fn refund_after_close(
    l0: Ledger,
    l1: Ledger,
    l2: Ledger,
    signer: Seq<u8>,
    maker: Seq<u8>,
    seed: u64,
    r: Result<(), EscrowError>,
)
    requires
        closed(l0, l1, maker, seed),
        refund_post(l1, l2, signer, maker, seed, r),
    ensures
        r == Err::<(), EscrowError>(EscrowError::RecordNotFound),
        l2.same_state(&l1),
        l2.balances() == l1.balances(),
{
}

/// A second Make with the maker and seed of an escrow that is open is
/// refused as a duplicate and leaves the first escrow and every balance as
/// they were.
pub proof fn make_twice(
    l0: Ledger,
    l1: Ledger,
    l2: Ledger,
    maker: Address,
    mint_a: Address,
    mint_b: Address,
    seed: u64,
    receive: u64,
    deposit: u64,
    mint_a2: Address,
    mint_b2: Address,
    receive2: u64,
    deposit2: u64,
    r1: Result<(), EscrowError>,
    r2: Result<(), EscrowError>,
)
    requires
        l1.wf(),
        make_post(l0, l1, maker, mint_a, mint_b, seed, receive, deposit, r1),
        r1 is Ok,
        make_post(l1, l2, maker, mint_a2, mint_b2, seed, receive2, deposit2, r2),
    ensures
        r2 == Err::<(), EscrowError>(EscrowError::DuplicateEscrow),
        l2.same_state(&l1),
        l2.escrow_at(maker@, seed) == l1.escrow_at(maker@, seed),
        l2.balances() == l1.balances(),
{
    lemma_open_escrow_derived(l1, maker@, seed);
}

} // verus!
