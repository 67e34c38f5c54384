//! Weekly "drop" tracker: accounts, the next weekly occurrence of each, a flat
//! binary store for the account list and a single-slot edit guard.

pub mod clock;
pub mod recurrence;
pub mod codec;
pub mod account;
pub mod store;
pub mod edit;
pub mod format;
