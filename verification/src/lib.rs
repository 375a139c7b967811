//! A price feed for asset pairs: the latest rate of each pair, the full
//! history of the rates it replaced, and a single owner who may write.

pub mod error;
pub mod state;
pub mod msg;
pub mod store;
pub mod contract;
pub mod laws;
