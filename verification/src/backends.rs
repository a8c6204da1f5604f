//! The exchanges and the ledger, as this crate sees them.

use vstd::prelude::*;
use crate::types::{AccountId, Balance, BackendError, CurrencyId, PoolId, PoolTokenIndex, SwapLimit};

verus! {

/// The two exchanges, together with the ledger that their swaps write to.
///
/// A value of the implementing type is one state of the whole: what the
/// exchanges would answer, and which scopes are open. The `spec` functions give
/// names to those answers; an implementation that is itself verified defines
/// them, and the contracts of this crate speak through them. Each executable
/// method returns what the function of the same purpose names.
///
/// Writes happen inside scopes. [`Backends::begin_scope`] opens one,
/// [`Backends::commit_scope`] keeps what was written since, and
/// [`Backends::rollback_scope`] discards it, so that the state is again the one
/// in which the scope was opened. Swaps neither open nor close a scope.
pub trait Backends: Sized {
    /// The constant-product exchange's answer to a quote along `path`: the
    /// supply taken and the target given, or `None` where the limit cannot be
    /// met.
    open spec fn dex_quote(&self, path: Seq<CurrencyId>, limit: SwapLimit) -> Option<
        (Balance, Balance),
    > {
        arbitrary()
    }

    /// The state after the constant-product exchange was asked to swap along
    /// `path` for `who`, and its answer.
    open spec fn dex_outcome(
        &self,
        who: AccountId,
        path: Seq<CurrencyId>,
        limit: SwapLimit,
    ) -> (Self, Result<(Balance, Balance), BackendError>) {
        arbitrary()
    }

    /// The assets of the curve pool `pool`, in the pool's own order, or `None`
    /// where no such pool exists.
    open spec fn pool_assets(&self, pool: PoolId) -> Option<Seq<CurrencyId>> {
        arbitrary()
    }

    /// The curve pool and the asset positions that serve `supply` to `target`
    /// best for the amount `amount`, with the amount it would give.
    open spec fn best_route(&self, supply: CurrencyId, target: CurrencyId, amount: Balance)
        -> Option<(PoolId, PoolTokenIndex, PoolTokenIndex, Balance)> {
        arbitrary()
    }

    /// What the pool gives for `supply_amount`: the supply taken and the target
    /// given.
    open spec fn pool_output(
        &self,
        pool: PoolId,
        supply_index: PoolTokenIndex,
        target_index: PoolTokenIndex,
        supply_amount: Balance,
    ) -> Option<(Balance, Balance)> {
        arbitrary()
    }

    /// What the pool asks for `target_amount`: the supply needed and the target
    /// given.
    open spec fn pool_input(
        &self,
        pool: PoolId,
        supply_index: PoolTokenIndex,
        target_index: PoolTokenIndex,
        target_amount: Balance,
    ) -> Option<(Balance, Balance)> {
        arbitrary()
    }

    /// The state after the pool was asked to swap `supply_amount` for `who`,
    /// refusing less than `min_target`, and its answer.
    open spec fn pool_outcome(
        &self,
        who: AccountId,
        pool: PoolId,
        supply_index: PoolTokenIndex,
        target_index: PoolTokenIndex,
        supply_amount: Balance,
        min_target: Balance,
    ) -> (Self, Result<(Balance, Balance), BackendError>) {
        arbitrary()
    }

    /// The state in which the innermost open scope was opened, or `None` where
    /// no scope is open.
    open spec fn scope_base(&self) -> Option<Self> {
        arbitrary()
    }

    /// The state once a scope has been opened.
    open spec fn opened(&self) -> Self {
        arbitrary()
    }

    /// The state once the innermost scope has been committed.
    open spec fn committed(&self) -> Self {
        arbitrary()
    }

    /// Quotes a swap along `path` on the constant-product exchange.
    fn dex_get_swap_amount(&self, path: &Vec<CurrencyId>, limit: SwapLimit) -> (quote: Option<
        (Balance, Balance),
    >)
        ensures
            quote == self.dex_quote(path@, limit),
    ;

    /// Swaps along `path` on the constant-product exchange, for `who`.
    fn dex_swap_with_specific_path(
        &mut self,
        who: AccountId,
        path: &Vec<CurrencyId>,
        limit: SwapLimit,
    ) -> (done: Result<(Balance, Balance), BackendError>)
        ensures
            (*final(self), done) == old(self).dex_outcome(who, path@, limit),
            final(self).scope_base() == old(self).scope_base(),
    ;

    /// Looks up the assets of a curve pool.
    fn stable_pool_assets(&self, pool: PoolId) -> (assets: Option<Vec<CurrencyId>>)
        ensures
            match assets {
                Some(list) => self.pool_assets(pool) == Some(list@),
                None => self.pool_assets(pool) is None,
            },
    ;

    /// Finds the curve pool that serves `supply` to `target` best.
    fn stable_get_best_route(&self, supply: CurrencyId, target: CurrencyId, amount: Balance) -> (route:
        Option<(PoolId, PoolTokenIndex, PoolTokenIndex, Balance)>)
        ensures
            route == self.best_route(supply, target, amount),
    ;

    /// Quotes what a curve pool gives for `supply_amount`.
    fn stable_get_swap_output_amount(
        &self,
        pool: PoolId,
        supply_index: PoolTokenIndex,
        target_index: PoolTokenIndex,
        supply_amount: Balance,
    ) -> (quote: Option<(Balance, Balance)>)
        ensures
            quote == self.pool_output(pool, supply_index, target_index, supply_amount),
    ;

    /// Quotes what a curve pool asks for `target_amount`.
    fn stable_get_swap_input_amount(
        &self,
        pool: PoolId,
        supply_index: PoolTokenIndex,
        target_index: PoolTokenIndex,
        target_amount: Balance,
    ) -> (quote: Option<(Balance, Balance)>)
        ensures
            quote == self.pool_input(pool, supply_index, target_index, target_amount),
    ;

    /// Swaps `supply_amount` through a curve pool, for `who`.
    fn stable_swap(
        &mut self,
        who: AccountId,
        pool: PoolId,
        supply_index: PoolTokenIndex,
        target_index: PoolTokenIndex,
        supply_amount: Balance,
        min_target: Balance,
    ) -> (done: Result<(Balance, Balance), BackendError>)
        ensures
            (*final(self), done) == old(self).pool_outcome(
                who,
                pool,
                supply_index,
                target_index,
                supply_amount,
                min_target,
            ),
            final(self).scope_base() == old(self).scope_base(),
    ;

    /// Opens a scope.
    fn begin_scope(&mut self)
        ensures
            *final(self) == old(self).opened(),
            final(self).scope_base() == Some(*old(self)),
    ;

    /// Keeps what was written since the innermost scope was opened, and closes
    /// it.
    fn commit_scope(&mut self)
        requires
            old(self).scope_base() is Some,
        ensures
            *final(self) == old(self).committed(),
            final(self).scope_base() == old(self).scope_base().unwrap().scope_base(),
    ;

    /// Discards what was written since the innermost scope was opened, and
    /// closes it.
    fn rollback_scope(&mut self)
        requires
            old(self).scope_base() is Some,
        ensures
            *final(self) == old(self).scope_base().unwrap(),
    ;
}

} // verus!
