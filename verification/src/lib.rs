//! A custodial escrow ledger: parties deposit fungible tokens into
//! program-controlled vaults and later withdraw up to the deposited amount,
//! subject to authorization and sufficiency checks. Storage addresses for
//! entries and vaults are derived deterministically from the owner and mint
//! identities, entries are created lazily on first deposit, and every
//! operation either moves the tokens and updates the balance together or
//! fails with nothing changed.

pub mod directory;
pub mod errors;
pub mod ledger;
pub mod processor;
pub mod state;
pub mod token;
pub mod utils;
