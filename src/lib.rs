//! A two-party escrow: a maker locks an amount of one asset in a vault owned
//! by a derived address and names the amount of a second asset wanted in
//! return; a taker settles the trade, or the maker takes the deposit back.
//! Each operation either takes full effect or changes nothing.
mod address;
mod store;
mod ledger;
mod escrow;
mod laws;

pub use address::{Address, same_address, u64_le_bytes, le_bytes, created_address, found_address};
pub use store::first;
pub use ledger::{Holding, BalanceKey, balance_in, balances_of, with_credit, with_debit};
pub use escrow::{
    Escrow, EscrowError, EscrowRecord, Ledger, make, take, refund, reproduce_and_verify,
    make_plan, take_plan, refund_plan, make_post, take_post, refund_post, closed, opened,
    escrow_seeds, vault_seeds, escrow_tag, vault_tag,
};
pub use laws::{
    addresses_free, make_then_take, make_then_refund, refund_by_other, take_without_record,
    take_after_close, refund_after_close, make_twice,
};
