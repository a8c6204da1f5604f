//! The values that routes and swaps are made of.

use vstd::prelude::*;

verus! {

/// An amount of some token. There are no fractions of the smallest unit.
pub type Balance = u128;

/// Identifies a curve pool.
pub type PoolId = u32;

/// Position of an asset in a curve pool's asset list.
pub type PoolTokenIndex = u32;

/// Identifies a token.
#[derive(Clone, Copy, Debug, PartialEq, Eq, PartialOrd, Ord, Hash, Structural)]
pub struct CurrencyId(pub u32);

/// Identifies an account: a trader, the controller or the treasury.
#[derive(Clone, Copy, Debug, PartialEq, Eq, PartialOrd, Ord, Hash, Structural)]
pub struct AccountId(pub u64);

/// What a trader asks of a swap.
#[derive(Clone, Copy, Debug, PartialEq, Eq, Structural)]
pub enum SwapLimit {
    /// `ExactSupply(supply, min_target)`: give exactly `supply`, and receive at
    /// least `min_target`.
    ExactSupply(Balance, Balance),
    /// `ExactTarget(max_supply, target)`: receive at least `target`, and give at
    /// most `max_supply`.
    ExactTarget(Balance, Balance),
}

/// One segment of a route.
#[derive(Clone, Debug, PartialEq, Eq)]
pub enum SwapPath {
    /// A chain of hops on the constant-product exchange, from the first currency
    /// of the sequence to the last.
    Dex(Vec<CurrencyId>),
    /// `Taiga(pool, supply_index, target_index)`: one hop through a curve pool,
    /// from the asset at `supply_index` to the asset at `target_index`.
    Taiga(PoolId, PoolTokenIndex, PoolTokenIndex),
}

/// The mathematical value of a [`SwapPath`].
pub enum Segment {
    Dex(Seq<CurrencyId>),
    Taiga(PoolId, PoolTokenIndex, PoolTokenIndex),
}

impl View for SwapPath {
    type V = Segment;

    open spec fn view(&self) -> Segment {
        match *self {
            SwapPath::Dex(path) => Segment::Dex(path@),
            SwapPath::Taiga(pool, supply_index, target_index) => Segment::Taiga(
                pool,
                supply_index,
                target_index,
            ),
        }
    }
}

/// The route that a list of segments stands for.
pub open spec fn route_of(paths: Seq<SwapPath>) -> Seq<Segment> {
    Seq::new(paths.len(), |k: int| paths[k]@)
}

/// The error of an exchange, passed on as it came.
#[derive(Clone, Copy, Debug, PartialEq, Eq, Structural)]
pub struct BackendError(pub u32);

/// Why an operation was refused.
#[derive(Clone, Copy, Debug, PartialEq, Eq, Structural)]
pub enum Error {
    /// The route is well formed, but the exchanges cannot serve it within the
    /// limit.
    CannotSwap,
    /// The route, or an entry of the route table, is malformed.
    InvalidSwapPath,
    /// A segment names a curve pool that does not exist.
    InvalidPoolId,
    /// A segment names an asset position that its curve pool does not have.
    InvalidTokenIndex,
    /// The caller is not the controller.
    BadOrigin,
    /// An exchange refused while executing.
    Backend(BackendError),
}

impl SwapLimit {
    /// The supply that the limit names: the exact one, or the ceiling.
    pub open spec fn supply(self) -> Balance {
        match self {
            SwapLimit::ExactSupply(supply, _) => supply,
            SwapLimit::ExactTarget(max_supply, _) => max_supply,
        }
    }

    /// The target that the limit names: the floor, or the exact one.
    pub open spec fn target(self) -> Balance {
        match self {
            SwapLimit::ExactSupply(_, min_target) => min_target,
            SwapLimit::ExactTarget(_, target) => target,
        }
    }

    /// Whether a swap that took `supply` and gave `target` honours the limit.
    pub open spec fn met_by(self, supply: Balance, target: Balance) -> bool {
        match self {
            SwapLimit::ExactSupply(_, min_target) => target >= min_target,
            SwapLimit::ExactTarget(max_supply, wanted) => target >= wanted && supply
                <= max_supply,
        }
    }

    /// Decides [`SwapLimit::met_by`].
    pub fn is_met_by(&self, supply: Balance, target: Balance) -> (met: bool)
        ensures
            met == self.met_by(supply, target),
    {
        match *self {
            SwapLimit::ExactSupply(_, min_target) => target >= min_target,
            SwapLimit::ExactTarget(max_supply, wanted) => target >= wanted && supply
                <= max_supply,
        }
    }
}

} // verus!
