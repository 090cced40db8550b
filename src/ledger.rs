use vstd::prelude::*;
use crate::address::Address;
use crate::store::{first, lemma_first_at, lemma_first_none, lemma_first_push, lemma_first_update};

verus! {

/// An owner's balance of one asset kind (mint).
#[derive(Clone, Copy, Debug)]
pub struct Holding {
    pub owner: Address,
    pub mint: Address,
    pub amount: u64,
}

/// A balance is keyed by owner and mint.
pub type BalanceKey = (Seq<u8>, Seq<u8>);

pub open spec fn is_holding(h: Holding, owner: Seq<u8>, mint: Seq<u8>) -> bool {
    h.owner@ == owner && h.mint@ == mint
}

pub open spec fn holding_of(owner: Seq<u8>, mint: Seq<u8>) -> spec_fn(Holding) -> bool {
    |h: Holding| is_holding(h, owner, mint)
}

/// The balance of `owner` in `mint`: the first holding with that key, or zero.
pub open spec fn balance_in(hs: Seq<Holding>, owner: Seq<u8>, mint: Seq<u8>) -> nat {
    match first(hs, holding_of(owner, mint)) {
        Some(h) => h.amount as nat,
        None => 0,
    }
}

/// Every balance that a list of holdings describes.
pub open spec fn balances_of(hs: Seq<Holding>) -> Map<BalanceKey, nat> {
    Map::new(|k: BalanceKey| true, |k: BalanceKey| balance_in(hs, k.0, k.1))
}

pub open spec fn with_credit(b: Map<BalanceKey, nat>, k: BalanceKey, amount: nat) -> Map<BalanceKey, nat> {
    b.insert(k, b[k] + amount)
}

pub open spec fn with_debit(b: Map<BalanceKey, nat>, k: BalanceKey, amount: nat) -> Map<BalanceKey, nat> {
    b.insert(k, (b[k] - amount) as nat)
}

/// The index of the first holding of `owner` in `mint`.
pub(crate) fn find_holding(hs: &Vec<Holding>, owner: &Address, mint: &Address) -> (r: Option<usize>)
    ensures
        match r {
            Some(i) => i < hs@.len() && is_holding(hs@[i as int], owner@, mint@)
                && forall|j: int| 0 <= j < i ==> !is_holding(#[trigger] hs@[j], owner@, mint@),
            None => forall|j: int| 0 <= j < hs@.len() ==> !is_holding(#[trigger] hs@[j], owner@, mint@),
        },
{
    let mut i: usize = 0;
    while i < hs.len()
        invariant
            0 <= i <= hs@.len(),
            forall|j: int| 0 <= j < i ==> !is_holding(#[trigger] hs@[j], owner@, mint@),
        decreases hs@.len() - i,
    {
        let h = &hs[i];
        if crate::address::same_address(&h.owner, owner) && crate::address::same_address(&h.mint, mint) {
            return Some(i);
        }
        i = i + 1;
    }
    None
}

/// The current balance of `owner` in `mint`.
pub(crate) fn balance_at(hs: &Vec<Holding>, owner: &Address, mint: &Address) -> (r: u64)
    ensures
        r as nat == balance_in(hs@, owner@, mint@),
{
    match find_holding(hs, owner, mint) {
        Some(i) => {
            proof {
                lemma_first_at(hs@, holding_of(owner@, mint@), i as int);
            }
            hs[i].amount
        },
        None => {
            proof {
                lemma_first_none(hs@, holding_of(owner@, mint@));
            }
            0
        },
    }
}

/// Sets the balance of `owner` in `mint` to `amount`.
fn set_balance(hs: &mut Vec<Holding>, owner: &Address, mint: &Address, amount: u64)
    ensures
        balances_of(final(hs)@) == balances_of(old(hs)@).insert((owner@, mint@), amount as nat),
{
    let ghost key = (owner@, mint@);
    let nh = Holding { owner: *owner, mint: *mint, amount };
    match find_holding(hs, owner, mint) {
        Some(i) => {
            let ghost s = hs@;
            proof {
                assert forall|k: BalanceKey|
                    #![auto]
                    balances_of(s.update(i as int, nh))[k] == balances_of(s).insert(key, amount as nat)[k] by {
                    lemma_first_update(s, holding_of(k.0, k.1), i as int, nh);
                }
            }
            hs.set(i, nh);
            assert(balances_of(hs@) =~= balances_of(s).insert(key, amount as nat));
        },
        None => {
            let ghost s = hs@;
            proof {
                assert forall|k: BalanceKey|
                    #![auto]
                    balances_of(s.push(nh))[k] == balances_of(s).insert(key, amount as nat)[k] by {
                    lemma_first_push(s, holding_of(k.0, k.1), nh);
                    if k == key {
                        lemma_first_none(s, holding_of(k.0, k.1));
                    }
                }
            }
            hs.push(nh);
            assert(balances_of(hs@) =~= balances_of(s).insert(key, amount as nat));
        },
    }
}

/// Adds `amount` to the balance of `owner` in `mint`, unless the sum would
/// not fit; then nothing changes.
pub(crate) fn credit(hs: &mut Vec<Holding>, owner: &Address, mint: &Address, amount: u64) -> (ok: bool)
    ensures
        ok == (balance_in(old(hs)@, owner@, mint@) + amount <= u64::MAX),
        ok ==> balances_of(final(hs)@) == with_credit(balances_of(old(hs)@), (owner@, mint@), amount as nat),
        !ok ==> final(hs)@ == old(hs)@,
{
    let cur = balance_at(hs, owner, mint);
    if cur > u64::MAX - amount {
        return false;
    }
    set_balance(hs, owner, mint, cur + amount);
    true
}

/// Takes `amount` from the balance of `owner` in `mint`, unless the balance
/// is smaller; then nothing changes.
pub(crate) fn debit(hs: &mut Vec<Holding>, owner: &Address, mint: &Address, amount: u64) -> (ok: bool)
    ensures
        ok == (balance_in(old(hs)@, owner@, mint@) >= amount),
        ok ==> balances_of(final(hs)@) == with_debit(balances_of(old(hs)@), (owner@, mint@), amount as nat),
        !ok ==> final(hs)@ == old(hs)@,
{
    let cur = balance_at(hs, owner, mint);
    if cur < amount {
        return false;
    }
    set_balance(hs, owner, mint, cur - amount);
    true
}

/// A copy of the holdings, on which a transaction is staged before it commits.
pub(crate) fn copy_holdings(hs: &Vec<Holding>) -> (r: Vec<Holding>)
    ensures
        r@ == hs@,
{
    let mut out: Vec<Holding> = Vec::new();
    let mut i: usize = 0;
    while i < hs.len()
        invariant
            0 <= i <= hs@.len(),
            out@ == hs@.subrange(0, i as int),
        decreases hs@.len() - i,
    {
        out.push(hs[i]);
        i = i + 1;
        assert(out@ =~= hs@.subrange(0, i as int));
    }
    assert(out@ =~= hs@);
    out
}

} // verus!
