//! A two-party escrow for token swaps: an initiator deposits tokens into a
//! custodial account owned by a keyless program authority and publishes an
//! offer; the named counterparty accepts it atomically, or the initiator
//! closes it and takes the deposit back.

pub mod address;
pub mod ledger;
pub mod offer;
pub mod laws;
