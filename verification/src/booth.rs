//! The exchange booth: a registry record that binds an administrator, two
//! vaults and a price feed, and the operations that move assets under it.

pub mod instruction;
pub mod processor;
pub mod state;
