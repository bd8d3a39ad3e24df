//! Capability buffers: fixed-size records that announce data, either once for
//! all, or again and again under a derived authority, or for a price.

pub mod error;
pub mod instruction;
pub mod processor;
pub mod state;
