//! Routing of token swaps across two kinds of automated market makers.
//!
//! A route is a list of segments, each served by one exchange: the
//! constant-product exchange, which trades along a sequence of currencies, or a
//! curve pool, which trades between two of its assets. This crate validates
//! routes, quotes and executes them as one atomic operation, chooses between
//! the exchanges for a single pair, keeps the table of fixed routes, and decides
//! what the periodic search for profitable round trips proposes.
//!
//! The exchanges themselves, the balances they move and the storage that holds
//! them are reached through the [`Backends`] trait.

pub mod types;
pub mod backends;
pub mod validator;
pub mod engine;
pub mod registry;
pub mod router;
pub mod rebalance;

pub use backends::Backends;
pub use types::{
    AccountId, Balance, BackendError, CurrencyId, Error, PoolId, PoolTokenIndex, Segment,
    SwapLimit, SwapPath,
};
pub use engine::{do_aggregated_swap, get_aggregated_swap_amount};
pub use validator::check_swap_paths;
