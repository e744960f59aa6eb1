//! A permissionless lending pool with flash loans.
//!
//! Depositors pay an asset into a pool and hold vouchers against it, one for
//! one. A borrower takes an uncollateralised loan out of the pool, on the
//! condition that a later instruction of the same transaction repays it with
//! the pool's fee. The transaction is atomic, so a loan whose repay does not
//! go through has never been made.
//!
//! - [`engine`]: borrow and repay, the search of the instruction log for the
//!   repay, and the check that a call was not forwarded by another program.
//! - [`vault`]: deposit and withdraw.
//! - [`registry`]: the global state and the pools, with initialize, set_fee
//!   and add_pool.
//! - [`log`]: the instruction log of the executing transaction.
//! - [`wire`]: the bytes of a repay instruction.
//! - [`state`]: the records of the global state and of a pool, and their layout.
//! - [`token`]: what the engine asks of the token module.
//! - [`ledger`]: a token module in memory, against which the requests are
//!   carried out and the laws are stated.
//! - [`atomic`]: borrow and repay carried out against that ledger as whole
//!   instructions, which happen entirely or not at all.
//! - [`laws`]: what holds of all of these together.
//!
//! No function of this library moves a token. An instruction comes to a list
//! of requests to the token module, or to a failure; whoever hosts the
//! library carries the requests out and drops the whole transaction where
//! one of them is refused.

pub mod atomic;
pub mod engine;
pub mod error;
pub mod identity;
pub mod laws;
pub mod ledger;
pub mod log;
pub mod registry;
pub mod state;
pub mod token;
pub mod vault;
pub mod wire;

pub use engine::borrow;
pub use engine::repay;
pub use engine::Borrow;
pub use engine::Repay;
pub use error::AdobeError;
pub use error::Failure;
pub use identity::Identity;
pub use registry::add_pool;
pub use registry::initialize;
pub use registry::set_fee;
pub use registry::AddPool;
pub use registry::Initialize;
pub use registry::SetFee;
pub use state::Pool;
pub use state::State;
pub use vault::deposit;
pub use vault::withdraw;
pub use vault::Deposit;
pub use vault::Withdraw;
