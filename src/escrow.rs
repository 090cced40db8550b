use vstd::prelude::*;
use crate::address::{
    Address, created_address, found_address, le_bytes, seeds_view, create_address, find_address,
    same_address, u64_le_bytes,
};
use crate::ledger::{
    Holding, BalanceKey, balances_of, with_credit, with_debit, credit, debit, copy_holdings, balance_at,
};
use crate::store::{first, lemma_first_at, lemma_first_none, lemma_first_push, lemma_first_remove_other};

verus! {

/// The terms of one trade, stored at the escrow's derived address.
#[derive(Clone, Copy, Debug)]
pub struct EscrowRecord {
    pub seed: u64,
    pub maker: Address,
    pub mint_a: Address,
    pub mint_b: Address,
    pub receive: u64,
    pub bump: u8,
}

/// An open trade: the record, its address, and the vault that holds the
/// deposit of asset A.
#[derive(Clone, Copy, Debug)]
pub struct Escrow {
    pub address: Address,
    pub record: EscrowRecord,
    pub vault: Address,
    pub vault_amount: u64,
}

/// Why an operation was refused; a refused operation changes nothing.
#[derive(Clone, Copy, Debug, PartialEq, Eq, Structural)]
pub enum EscrowError {
    DuplicateEscrow,
    InsufficientFunds,
    RecordNotFound,
    Unauthorized,
    DerivationMismatch,
    Overflow,
}

/// The balances of every owner and the open escrows of one program.
#[derive(Debug)]
pub struct Ledger {
    pub program_id: Address,
    pub holdings: Vec<Holding>,
    pub escrows: Vec<Escrow>,
}

/// The bytes of "escrow".
pub open spec fn escrow_tag() -> Seq<u8> {
    seq![101u8, 115u8, 99u8, 114u8, 111u8, 119u8]
}

/// The bytes of "vault".
pub open spec fn vault_tag() -> Seq<u8> {
    seq![118u8, 97u8, 117u8, 108u8, 116u8]
}

/// The seeds of the record address of `maker`'s escrow number `seed`.
pub open spec fn escrow_seeds(maker: Seq<u8>, seed: u64) -> Seq<Seq<u8>> {
    seq![escrow_tag(), maker, le_bytes(seed as nat, 8)]
}

/// The seeds of the vault address of the record at `record`.
pub open spec fn vault_seeds(record: Seq<u8>) -> Seq<Seq<u8>> {
    seq![vault_tag(), record]
}

pub open spec fn is_escrow(e: Escrow, maker: Seq<u8>, seed: u64) -> bool {
    e.record.maker@ == maker && e.record.seed == seed
}

pub open spec fn escrow_key(maker: Seq<u8>, seed: u64) -> spec_fn(Escrow) -> bool {
    |e: Escrow| is_escrow(e, maker, seed)
}

/// The stored bump reproduces the record's address from its maker and seed.
pub open spec fn reproduces(e: Escrow, program: Seq<u8>) -> bool {
    created_address(escrow_seeds(e.record.maker@, e.record.seed).push(seq![e.record.bump]), program)
        == Some(e.address@)
}

/// The record stands at the canonical address of its maker and seed.
pub open spec fn derived(e: Escrow, program: Seq<u8>) -> bool {
    &&& found_address(escrow_seeds(e.record.maker@, e.record.seed), program) == Some(
        (e.address@, e.record.bump),
    )
    &&& reproduces(e, program)
}

pub open spec fn escrows_wf(es: Seq<Escrow>, program: Seq<u8>) -> bool {
    &&& forall|i: int| 0 <= i < es.len() ==> derived(#[trigger] es[i], program)
    &&& forall|i: int, j: int|
        #![trigger es[i], es[j]]
        0 <= i < es.len() && 0 <= j < es.len() && i != j ==> !is_escrow(
            es[j],
            es[i].record.maker@,
            es[i].record.seed,
        )
}

/// The escrow has its record or its vault at `a`.
pub open spec fn uses_address(e: Escrow, a: Seq<u8>) -> bool {
    e.address@ == a || e.vault@ == a
}

/// Some open escrow has its record or its vault at `a`.
pub open spec fn address_taken(es: Seq<Escrow>, a: Seq<u8>) -> bool {
    exists|i: int| 0 <= i < es.len() && uses_address(#[trigger] es[i], a)
}

impl Ledger {
    /// Each escrow is at its canonical address, and one escrow at most
    /// exists for each maker and seed.
    pub open spec fn wf(&self) -> bool {
        escrows_wf(self.escrows@, self.program_id@)
    }

    pub open spec fn balances(&self) -> Map<BalanceKey, nat> {
        balances_of(self.holdings@)
    }

    /// The open escrow of `maker` with number `seed`.
    pub open spec fn escrow_at(&self, maker: Seq<u8>, seed: u64) -> Option<Escrow> {
        first(self.escrows@, escrow_key(maker, seed))
    }

    pub open spec fn same_state(&self, other: &Ledger) -> bool {
        &&& self.program_id == other.program_id
        &&& self.holdings@ == other.holdings@
        &&& self.escrows@ == other.escrows@
    }
}

/// What Make does on `l`: the record address, bump and vault address, or
/// the error.
pub open spec fn make_plan(l: Ledger, maker: Seq<u8>, mint_a: Seq<u8>, seed: u64, deposit: u64) -> Result<
    (Seq<u8>, u8, Seq<u8>),
    EscrowError,
> {
    match found_address(escrow_seeds(maker, seed), l.program_id@) {
        None => Err(EscrowError::DerivationMismatch),
        Some(rec) => if address_taken(l.escrows@, rec.0) {
            Err(EscrowError::DuplicateEscrow)
        } else {
            match found_address(vault_seeds(rec.0), l.program_id@) {
                None => Err(EscrowError::DerivationMismatch),
                Some(v) => if address_taken(l.escrows@, v.0) {
                    Err(EscrowError::DuplicateEscrow)
                } else if l.balances()[(maker, mint_a)] < deposit {
                    Err(EscrowError::InsufficientFunds)
                } else {
                    Ok((rec.0, rec.1, v.0))
                },
            }
        },
    }
}

/// `e` is the escrow that Make opens with these arguments and plan.
pub open spec fn opened(
    e: Escrow,
    plan: (Seq<u8>, u8, Seq<u8>),
    maker: Address,
    mint_a: Address,
    mint_b: Address,
    seed: u64,
    receive: u64,
    deposit: u64,
) -> bool {
    &&& e.address@ == plan.0
    &&& e.vault@ == plan.2
    &&& e.vault_amount == deposit
    &&& e.record == (EscrowRecord { seed, maker, mint_a, mint_b, receive, bump: plan.1 })
}

/// What Take by `taker` does on `l`: the balances after it, or the error.
pub open spec fn take_plan(l: Ledger, taker: Seq<u8>, maker: Seq<u8>, seed: u64) -> Result<
    Map<BalanceKey, nat>,
    EscrowError,
> {
    match l.escrow_at(maker, seed) {
        None => Err(EscrowError::RecordNotFound),
        Some(e) => if !reproduces(e, l.program_id@) {
            Err(EscrowError::DerivationMismatch)
        } else {
            let owed = (taker, e.record.mint_b@);
            let paid = (e.record.maker@, e.record.mint_b@);
            let released = (taker, e.record.mint_a@);
            let b0 = l.balances();
            if b0[owed] < e.record.receive {
                Err(EscrowError::InsufficientFunds)
            } else {
                let b1 = with_debit(b0, owed, e.record.receive as nat);
                if b1[paid] + e.record.receive > u64::MAX {
                    Err(EscrowError::Overflow)
                } else {
                    let b2 = with_credit(b1, paid, e.record.receive as nat);
                    if b2[released] + e.vault_amount > u64::MAX {
                        Err(EscrowError::Overflow)
                    } else {
                        Ok(with_credit(b2, released, e.vault_amount as nat))
                    }
                }
            }
        },
    }
}

/// What Refund by `signer` does on `l`: the balances after it, or the error.
pub open spec fn refund_plan(l: Ledger, signer: Seq<u8>, maker: Seq<u8>, seed: u64) -> Result<
    Map<BalanceKey, nat>,
    EscrowError,
> {
    match l.escrow_at(maker, seed) {
        None => Err(EscrowError::RecordNotFound),
        Some(e) => if signer != e.record.maker@ {
            Err(EscrowError::Unauthorized)
        } else if !reproduces(e, l.program_id@) {
            Err(EscrowError::DerivationMismatch)
        } else {
            let back = (e.record.maker@, e.record.mint_a@);
            if l.balances()[back] + e.vault_amount > u64::MAX {
                Err(EscrowError::Overflow)
            } else {
                Ok(with_credit(l.balances(), back, e.vault_amount as nat))
            }
        },
    }
}

impl Ledger {
    /// An empty ledger of the program at `program_id`.
    pub fn new(program_id: Address) -> (r: Ledger)
        ensures
            r.wf(),
            r.program_id == program_id,
            forall|k: BalanceKey| #[trigger] r.balances()[k] == 0,
            forall|mk: Seq<u8>, sd: u64| #[trigger] r.escrow_at(mk, sd) is None,
    {
        Ledger { program_id, holdings: Vec::new(), escrows: Vec::new() }
    }

    /// Adds `amount` of `mint` to the balance of `owner`, unless the sum
    /// would not fit; the escrows are not touched.
    pub fn fund(&mut self, owner: &Address, mint: &Address, amount: u64) -> (ok: bool)
        requires
            old(self).wf(),
        ensures
            final(self).wf(),
            final(self).program_id == old(self).program_id,
            final(self).escrows@ == old(self).escrows@,
            ok == (old(self).balances()[(owner@, mint@)] + amount <= u64::MAX),
            ok ==> final(self).balances() == with_credit(
                old(self).balances(),
                (owner@, mint@),
                amount as nat,
            ),
            !ok ==> final(self).same_state(&*old(self)),
    {
        credit(&mut self.holdings, owner, mint, amount)
    }

    /// The balance of `owner` in `mint`.
    pub fn balance(&self, owner: &Address, mint: &Address) -> (r: u64)
        ensures
            r == self.balances()[(owner@, mint@)],
    {
        balance_at(&self.holdings, owner, mint)
    }

    /// The open escrow of `maker` with number `seed`, if any.
    pub fn escrow(&self, maker: &Address, seed: u64) -> (r: Option<Escrow>)
        ensures
            r == self.escrow_at(maker@, seed),
    {
        match find_escrow(&self.escrows, maker, seed) {
            Some(i) => {
                proof {
                    lemma_first_at(self.escrows@, escrow_key(maker@, seed), i as int);
                }
                Some(self.escrows[i])
            },
            None => {
                proof {
                    lemma_first_none(self.escrows@, escrow_key(maker@, seed));
                }
                None
            },
        }
    }
}

/// The escrow of `maker` with number `seed` is gone from `new`, and every
/// other escrow is as it was in `old`.
pub open spec fn closed(old: Ledger, new: Ledger, maker: Seq<u8>, seed: u64) -> bool {
    &&& new.escrow_at(maker, seed) is None
    &&& forall|mk: Seq<u8>, sd: u64|
        !(mk == maker && sd == seed) ==> #[trigger] new.escrow_at(mk, sd) == old.escrow_at(mk, sd)
}

/// What Make guarantees: the outcome that `make_plan` gives, with the
/// deposit moved into a new escrow on success and nothing changed on failure.
pub open spec fn make_post(
    old: Ledger,
    new: Ledger,
    maker: Address,
    mint_a: Address,
    mint_b: Address,
    seed: u64,
    receive: u64,
    deposit: u64,
    r: Result<(), EscrowError>,
) -> bool {
    &&& new.program_id == old.program_id
    &&& match make_plan(old, maker@, mint_a@, seed, deposit) {
        Ok(plan) => {
            &&& r is Ok
            &&& new.balances() == with_debit(old.balances(), (maker@, mint_a@), deposit as nat)
            &&& (new.escrow_at(maker@, seed) matches Some(e) && opened(
                e,
                plan,
                maker,
                mint_a,
                mint_b,
                seed,
                receive,
                deposit,
            ))
            &&& forall|mk: Seq<u8>, sd: u64|
                !(mk == maker@ && sd == seed) ==> #[trigger] new.escrow_at(mk, sd) == old.escrow_at(
                    mk,
                    sd,
                )
        },
        Err(err) => r == Err::<(), EscrowError>(err) && new.same_state(&old),
    }
}

/// What Take guarantees: the outcome that `take_plan` gives, with the escrow
/// closed on success and nothing changed on failure.
pub open spec fn take_post(
    old: Ledger,
    new: Ledger,
    taker: Seq<u8>,
    maker: Seq<u8>,
    seed: u64,
    r: Result<(), EscrowError>,
) -> bool {
    match take_plan(old, taker, maker, seed) {
        Ok(b) => r is Ok && new.balances() == b && closed(old, new, maker, seed),
        Err(err) => r == Err::<(), EscrowError>(err) && new.same_state(&old),
    }
}

/// What Refund guarantees: the outcome that `refund_plan` gives, with the
/// escrow closed on success and nothing changed on failure.
pub open spec fn refund_post(
    old: Ledger,
    new: Ledger,
    signer: Seq<u8>,
    maker: Seq<u8>,
    seed: u64,
    r: Result<(), EscrowError>,
) -> bool {
    match refund_plan(old, signer, maker, seed) {
        Ok(b) => r is Ok && new.balances() == b && closed(old, new, maker, seed),
        Err(err) => r == Err::<(), EscrowError>(err) && new.same_state(&old),
    }
}

fn address_bytes(a: &Address) -> (r: Vec<u8>)
    ensures
        r@ == a@,
{
    let mut out: Vec<u8> = Vec::new();
    let mut i: usize = 0;
    while i < 32
        invariant
            0 <= i <= 32,
            a@.len() == 32,
            out@ == a@.subrange(0, i as int),
        decreases 32 - i,
    {
        out.push(a.bytes[i]);
        i = i + 1;
        assert(out@ =~= a@.subrange(0, i as int));
    }
    assert(out@ =~= a@);
    out
}

fn escrow_seed_bytes(maker: &Address, seed: u64) -> (r: Vec<Vec<u8>>)
    ensures
        seeds_view(r@) == escrow_seeds(maker@, seed),
{
    let mut tag: Vec<u8> = Vec::new();
    tag.push(101u8);
    tag.push(115u8);
    tag.push(99u8);
    tag.push(114u8);
    tag.push(111u8);
    tag.push(119u8);
    assert(tag@ =~= escrow_tag());
    let mut r: Vec<Vec<u8>> = Vec::new();
    r.push(tag);
    r.push(address_bytes(maker));
    r.push(u64_le_bytes(seed));
    assert(seeds_view(r@) =~= escrow_seeds(maker@, seed));
    r
}

fn vault_seed_bytes(record: &Address) -> (r: Vec<Vec<u8>>)
    ensures
        seeds_view(r@) == vault_seeds(record@),
{
    let mut tag: Vec<u8> = Vec::new();
    tag.push(118u8);
    tag.push(97u8);
    tag.push(117u8);
    tag.push(108u8);
    tag.push(116u8);
    assert(tag@ =~= vault_tag());
    let mut r: Vec<Vec<u8>> = Vec::new();
    r.push(tag);
    r.push(address_bytes(record));
    assert(seeds_view(r@) =~= vault_seeds(record@));
    r
}

/// Rebuilds the record's address from its maker, seed and stored bump, and
/// tells whether it is the address the record stands at.
pub fn reproduce_and_verify(e: &Escrow, program: &Address) -> (ok: bool)
    ensures
        ok == reproduces(*e, program@),
{
    let mut seeds = escrow_seed_bytes(&e.record.maker, e.record.seed);
    let mut bump: Vec<u8> = Vec::new();
    bump.push(e.record.bump);
    let ghost base = seeds@;
    seeds.push(bump);
    proof {
        assert(seeds_view(seeds@) =~= seeds_view(base).push(seq![e.record.bump]));
        le_bytes_len(e.record.seed as nat, 8);
    }
    match create_address(&seeds, program) {
        Some(a) => same_address(&a, &e.address),
        None => false,
    }
}

proof fn le_bytes_len(x: nat, n: nat)
    ensures
        le_bytes(x, n).len() == n,
    decreases n,
{
    if n > 0 {
        le_bytes_len(x / 256, (n - 1) as nat);
    }
}

/// Tells whether an open escrow has its record or its vault at `a`.
fn address_in_use(es: &Vec<Escrow>, a: &Address) -> (r: bool)
    ensures
        r == address_taken(es@, a@),
{
    let mut i: usize = 0;
    while i < es.len()
        invariant
            0 <= i <= es@.len(),
            forall|j: int| 0 <= j < i ==> !uses_address(#[trigger] es@[j], a@),
        decreases es@.len() - i,
    {
        if same_address(&es[i].address, a) || same_address(&es[i].vault, a) {
            assert(uses_address(es@[i as int], a@));
            return true;
        }
        i = i + 1;
    }
    false
}

/// The index of the open escrow of `maker` with number `seed`.
fn find_escrow(es: &Vec<Escrow>, maker: &Address, seed: u64) -> (r: Option<usize>)
    ensures
        match r {
            Some(i) => i < es@.len() && is_escrow(es@[i as int], maker@, seed)
                && forall|j: int| 0 <= j < i ==> !is_escrow(#[trigger] es@[j], maker@, seed),
            None => forall|j: int| 0 <= j < es@.len() ==> !is_escrow(#[trigger] es@[j], maker@, seed),
        },
{
    let mut i: usize = 0;
    while i < es.len()
        invariant
            0 <= i <= es@.len(),
            forall|j: int| 0 <= j < i ==> !is_escrow(#[trigger] es@[j], maker@, seed),
        decreases es@.len() - i,
    {
        if es[i].record.seed == seed && same_address(&es[i].record.maker, maker) {
            return Some(i);
        }
        i = i + 1;
    }
    None
}

/// Removing an escrow keeps the store well formed, leaves no escrow under
/// its key and keeps every other key's escrow.
proof fn lemma_remove_escrow(es: Seq<Escrow>, program: Seq<u8>, i: int)
    requires
        escrows_wf(es, program),
        0 <= i < es.len(),
    ensures
        escrows_wf(es.remove(i), program),
        first(es.remove(i), escrow_key(es[i].record.maker@, es[i].record.seed)) is None,
        forall|mk: Seq<u8>, sd: u64|
            !(mk == es[i].record.maker@ && sd == es[i].record.seed) ==> #[trigger] first(
                es.remove(i),
                escrow_key(mk, sd),
            ) == first(es, escrow_key(mk, sd)),
{
    let s = es.remove(i);
    assert forall|j: int| 0 <= j < s.len() implies derived(#[trigger] s[j], program) by {
        if j < i {
            assert(s[j] == es[j]);
        } else {
            assert(s[j] == es[j + 1]);
        }
    }
    assert forall|j: int, k: int|
        #![trigger s[j], s[k]]
        0 <= j < s.len() && 0 <= k < s.len() && j != k implies !is_escrow(
            s[k],
            s[j].record.maker@,
            s[j].record.seed,
        ) by {
        let jj = if j < i { j } else { j + 1 };
        let kk = if k < i { k } else { k + 1 };
        assert(s[j] == es[jj]);
        assert(s[k] == es[kk]);
        assert(!is_escrow(es[kk], es[jj].record.maker@, es[jj].record.seed));
    }
    assert forall|j: int| 0 <= j < s.len() implies !is_escrow(
        #[trigger] s[j],
        es[i].record.maker@,
        es[i].record.seed,
    ) by {
        let jj = if j < i { j } else { j + 1 };
        assert(s[j] == es[jj]);
        assert(!is_escrow(es[jj], es[i].record.maker@, es[i].record.seed));
    }
    lemma_first_none(s, escrow_key(es[i].record.maker@, es[i].record.seed));
    assert forall|mk: Seq<u8>, sd: u64|
        !(mk == es[i].record.maker@ && sd == es[i].record.seed) implies #[trigger] first(
            es.remove(i),
            escrow_key(mk, sd),
        ) == first(es, escrow_key(mk, sd)) by {
        lemma_first_remove_other(es, escrow_key(mk, sd), i);
    }
}

/// Opens an escrow: derives the record and vault addresses from `maker` and
/// `seed`, moves `deposit` of `mint_a` from the maker into the vault, and
/// records that `receive` of `mint_b` is wanted in return.
pub fn make(
    ledger: &mut Ledger,
    maker: &Address,
    mint_a: &Address,
    mint_b: &Address,
    seed: u64,
    receive: u64,
    deposit: u64,
) -> (r: Result<(), EscrowError>)
    requires
        old(ledger).wf(),
    ensures
        final(ledger).wf(),
        final(ledger).program_id == old(ledger).program_id,
        make_post(*old(ledger), *final(ledger), *maker, *mint_a, *mint_b, seed, receive, deposit, r),
{
    let ghost old_es = ledger.escrows@;
    let ghost pid = ledger.program_id@;
    let seeds = escrow_seed_bytes(maker, seed);
    let (addr, bump) = match find_address(&seeds, &ledger.program_id) {
        Some(p) => p,
        None => {
            return Err(EscrowError::DerivationMismatch);
        },
    };
    if address_in_use(&ledger.escrows, &addr) {
        return Err(EscrowError::DuplicateEscrow);
    }
    let vseeds = vault_seed_bytes(&addr);
    let vault = match find_address(&vseeds, &ledger.program_id) {
        Some(p) => p.0,
        None => {
            return Err(EscrowError::DerivationMismatch);
        },
    };
    if address_in_use(&ledger.escrows, &vault) {
        return Err(EscrowError::DuplicateEscrow);
    }
    if !debit(&mut ledger.holdings, maker, mint_a, deposit) {
        return Err(EscrowError::InsufficientFunds);
    }
    let e = Escrow {
        address: addr,
        record: EscrowRecord { seed, maker: *maker, mint_a: *mint_a, mint_b: *mint_b, receive, bump },
        vault,
        vault_amount: deposit,
    };
    proof {
        assert forall|j: int| 0 <= j < old_es.len() implies !is_escrow(
            #[trigger] old_es[j],
            maker@,
            seed,
        ) by {
            if is_escrow(old_es[j], maker@, seed) {
                assert(derived(old_es[j], pid));
                assert(uses_address(old_es[j], addr@));
            }
        }
        lemma_first_none(old_es, escrow_key(maker@, seed));
        lemma_first_push(old_es, escrow_key(maker@, seed), e);
        assert forall|mk: Seq<u8>, sd: u64|
            !(mk == maker@ && sd == seed) implies #[trigger] first(
                old_es.push(e),
                escrow_key(mk, sd),
            ) == first(old_es, escrow_key(mk, sd)) by {
            lemma_first_push(old_es, escrow_key(mk, sd), e);
        }
    }
    ledger.escrows.push(e);
    proof {
        let es = ledger.escrows@;
        assert(es == old_es.push(e));
        assert forall|j: int| 0 <= j < es.len() implies derived(#[trigger] es[j], pid) by {
            if j < old_es.len() {
                assert(es[j] == old_es[j]);
            }
        }
        assert forall|j: int, k: int|
            #![trigger es[j], es[k]]
            0 <= j < es.len() && 0 <= k < es.len() && j != k implies !is_escrow(
                es[k],
                es[j].record.maker@,
                es[j].record.seed,
            ) by {
            if j < old_es.len() && k < old_es.len() {
                assert(es[j] == old_es[j]);
                assert(es[k] == old_es[k]);
            } else if j < old_es.len() {
                assert(es[j] == old_es[j]);
                assert(!is_escrow(old_es[j], maker@, seed));
            } else {
                assert(es[k] == old_es[k]);
                assert(!is_escrow(old_es[k], maker@, seed));
            }
        }
    }
    Ok(())
}

/// Settles an escrow: the taker pays the maker the amount of asset B that
/// was asked, receives the whole vault, and the escrow is closed.
pub fn take(ledger: &mut Ledger, taker: &Address, maker: &Address, seed: u64) -> (r: Result<
    (),
    EscrowError,
>)
    requires
        old(ledger).wf(),
    ensures
        final(ledger).wf(),
        final(ledger).program_id == old(ledger).program_id,
        take_post(*old(ledger), *final(ledger), taker@, maker@, seed, r),
{
    let ghost old_es = ledger.escrows@;
    let i = match find_escrow(&ledger.escrows, maker, seed) {
        Some(i) => i,
        None => {
            proof {
                lemma_first_none(old_es, escrow_key(maker@, seed));
            }
            return Err(EscrowError::RecordNotFound);
        },
    };
    proof {
        lemma_first_at(old_es, escrow_key(maker@, seed), i as int);
    }
    let e = ledger.escrows[i];
    if !reproduce_and_verify(&e, &ledger.program_id) {
        return Err(EscrowError::DerivationMismatch);
    }
    let mut staged = copy_holdings(&ledger.holdings);
    if !debit(&mut staged, taker, &e.record.mint_b, e.record.receive) {
        return Err(EscrowError::InsufficientFunds);
    }
    if !credit(&mut staged, &e.record.maker, &e.record.mint_b, e.record.receive) {
        return Err(EscrowError::Overflow);
    }
    if !credit(&mut staged, taker, &e.record.mint_a, e.vault_amount) {
        return Err(EscrowError::Overflow);
    }
    ledger.holdings = staged;
    let _ = ledger.escrows.remove(i);
    proof {
        lemma_remove_escrow(old_es, ledger.program_id@, i as int);
    }
    Ok(())
}

/// Cancels an escrow: the maker gets the whole vault back and the escrow is
/// closed. Only the maker may do so.
pub fn refund(ledger: &mut Ledger, signer: &Address, maker: &Address, seed: u64) -> (r: Result<
    (),
    EscrowError,
>)
    requires
        old(ledger).wf(),
    ensures
        final(ledger).wf(),
        final(ledger).program_id == old(ledger).program_id,
        refund_post(*old(ledger), *final(ledger), signer@, maker@, seed, r),
{
    let ghost old_es = ledger.escrows@;
    let i = match find_escrow(&ledger.escrows, maker, seed) {
        Some(i) => i,
        None => {
            proof {
                lemma_first_none(old_es, escrow_key(maker@, seed));
            }
            return Err(EscrowError::RecordNotFound);
        },
    };
    proof {
        lemma_first_at(old_es, escrow_key(maker@, seed), i as int);
    }
    let e = ledger.escrows[i];
    if !same_address(signer, &e.record.maker) {
        return Err(EscrowError::Unauthorized);
    }
    if !reproduce_and_verify(&e, &ledger.program_id) {
        return Err(EscrowError::DerivationMismatch);
    }
    if !credit(&mut ledger.holdings, &e.record.maker, &e.record.mint_a, e.vault_amount) {
        return Err(EscrowError::Overflow);
    }
    let _ = ledger.escrows.remove(i);
    proof {
        lemma_remove_escrow(old_es, ledger.program_id@, i as int);
    }
    Ok(())
}

} // verus!
