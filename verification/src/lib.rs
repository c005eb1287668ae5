//! Verified core of the vote-escrow locking contract: locking governance
//! tokens for vtokens, proposals and voting, bribes, emission, rebase and
//! delegation of voting power.

pub mod model;
pub mod table;
pub mod decimal;
pub mod state;
pub mod error;
pub mod env;
pub mod response;
pub mod store;
pub mod msg;
pub mod text;
pub mod contract;
pub mod emission;
pub mod coins;
pub mod voting;
pub mod withdraw;
pub mod rewards;
pub mod delegated;
pub mod rebase;
pub mod transfer;
pub mod sudo;
pub mod query;
pub mod dispatch;
pub mod laws;
