//! Swaps between a pair of currencies, by four providers.
//!
//! [`DexSwap`] serves a pair on the constant-product exchange, directly or
//! through a joint; [`TaigaSwap`] serves it through the curve pool that suits it
//! best; [`EitherDexOrTaigaSwap`] asks both and takes the better quote;
//! [`AggregatedSwap`] follows the pair's fixed route where there is one, and
//! otherwise takes the better quote.
//!
//! Every swap here runs in a scope of its own: it either returns amounts that
//! honour the limit, or returns an error and leaves everything as it was.

use vstd::prelude::*;
use crate::backends::Backends;
use crate::engine::{do_aggregated_swap, get_aggregated_swap_amount, quoted, swapped};
use crate::registry::AggregatedDex;
use crate::types::{
    route_of, AccountId, Balance, BackendError, CurrencyId, Error, PoolId, PoolTokenIndex, Segment,
    SwapLimit, SwapPath,
};

verus! {

/// The state and the result once an exchange has answered `attempt` to a swap
/// asked of it in a scope opened in the state `b`: its error is passed on, and
/// amounts that do not honour `limit` are refused with `CannotSwap`, both with
/// the state `b` restored; amounts that honour it are kept and the scope is
/// committed.
pub open spec fn settled<B: Backends>(
    b: B,
    attempt: (B, Result<(Balance, Balance), BackendError>),
    limit: SwapLimit,
) -> (B, Result<(Balance, Balance), Error>) {
    match attempt.1 {
        Err(e) => (b, Err(Error::Backend(e))),
        Ok((taken, given)) => if limit.met_by(taken, given) {
            (attempt.0.committed(), Ok((taken, given)))
        } else {
            (b, Err(Error::CannotSwap))
        },
    }
}

/// The joints as sequences of currencies.
pub open spec fn joints_of(joints: Seq<Vec<CurrencyId>>) -> Seq<Seq<CurrencyId>> {
    Seq::new(joints.len(), |k: int| joints[k]@)
}

/// The path from `supply` to `target` that passes through `joint`.
pub open spec fn through(supply: CurrencyId, joint: Seq<CurrencyId>, target: CurrencyId) -> Seq<
    CurrencyId,
> {
    seq![supply] + joint + seq![target]
}

/// The first path through one of `joints`, from position `from` on, that the
/// constant-product exchange can serve within `limit`, with its quote.
pub open spec fn first_joint_route<B: Backends>(
    b: B,
    joints: Seq<Seq<CurrencyId>>,
    supply: CurrencyId,
    target: CurrencyId,
    limit: SwapLimit,
    from: int,
) -> Option<(Seq<CurrencyId>, (Balance, Balance))>
    decreases joints.len() - from,
{
    if from < 0 || from >= joints.len() {
        None
    } else {
        let path = through(supply, joints[from], target);
        match b.dex_quote(path, limit) {
            Some(quote) => Some((path, quote)),
            None => first_joint_route(b, joints, supply, target, limit, from + 1),
        }
    }
}

/// The path by which the constant-product exchange serves the pair within
/// `limit`, with its quote: the direct one where it can be served, else the
/// first one through a joint that can, in the order of `joints`. The first path
/// that can be served is taken, whether or not a later one would quote better.
pub open spec fn dex_route<B: Backends>(
    b: B,
    joints: Seq<Seq<CurrencyId>>,
    supply: CurrencyId,
    target: CurrencyId,
    limit: SwapLimit,
) -> Option<(Seq<CurrencyId>, (Balance, Balance))> {
    let direct = seq![supply, target];
    match b.dex_quote(direct, limit) {
        Some(quote) => Some((direct, quote)),
        None => first_joint_route(b, joints, supply, target, limit, 0),
    }
}

/// The quote of the constant-product exchange for the pair.
pub open spec fn dex_pair_quote<B: Backends>(
    b: B,
    joints: Seq<Seq<CurrencyId>>,
    supply: CurrencyId,
    target: CurrencyId,
    limit: SwapLimit,
) -> Option<(Balance, Balance)> {
    match dex_route(b, joints, supply, target, limit) {
        Some((_, quote)) => Some(quote),
        None => None,
    }
}

/// The state and the result of a swap along `path` on the constant-product
/// exchange, in a scope of its own.
pub open spec fn dex_path_swapped<B: Backends>(
    b: B,
    who: AccountId,
    path: Seq<CurrencyId>,
    limit: SwapLimit,
) -> (B, Result<(Balance, Balance), Error>) {
    settled(b, b.opened().dex_outcome(who, path, limit), limit)
}

/// The state and the result of a swap of the pair on the constant-product
/// exchange: `CannotSwap` where no path can be served, else the swap along the
/// path that [`dex_route`] names.
pub open spec fn dex_pair_swapped<B: Backends>(
    b: B,
    who: AccountId,
    joints: Seq<Seq<CurrencyId>>,
    supply: CurrencyId,
    target: CurrencyId,
    limit: SwapLimit,
) -> (B, Result<(Balance, Balance), Error>) {
    match dex_route(b, joints, supply, target, limit) {
        Some((path, _)) => dex_path_swapped(b, who, path, limit),
        None => (b, Err(Error::CannotSwap)),
    }
}

/// What the curve pool that serves the pair best for `amount` gives for it:
/// the supply taken and the target given, where the target is not zero and not
/// less than `min_target`.
pub open spec fn taiga_output<B: Backends>(
    b: B,
    supply: CurrencyId,
    target: CurrencyId,
    amount: Balance,
    min_target: Balance,
) -> Option<(Balance, Balance)> {
    match b.best_route(supply, target, amount) {
        Some((pool, supply_index, target_index, _)) => match b.pool_output(
            pool,
            supply_index,
            target_index,
            amount,
        ) {
            Some((taken, given)) => if given != 0 && given >= min_target {
                Some((taken, given))
            } else {
                None
            },
            None => None,
        },
        None => None,
    }
}

/// The curve pool that serves the pair best for `max_supply`, the two asset
/// positions, and the supply that the pool needs in order to give `wanted`,
/// where that supply is not zero and not more than `max_supply`.
pub open spec fn taiga_input<B: Backends>(
    b: B,
    supply: CurrencyId,
    target: CurrencyId,
    max_supply: Balance,
    wanted: Balance,
) -> Option<(PoolId, PoolTokenIndex, PoolTokenIndex, Balance)> {
    match b.best_route(supply, target, max_supply) {
        Some((pool, supply_index, target_index, _)) => match b.pool_input(
            pool,
            supply_index,
            target_index,
            wanted,
        ) {
            Some((needed, _)) => if needed != 0 && needed <= max_supply {
                Some((pool, supply_index, target_index, needed))
            } else {
                None
            },
            None => None,
        },
        None => None,
    }
}

/// The quote of the curve pools for the pair. With an exact target, the supply
/// that the pool needs is found first and then quoted as an exact supply, so
/// that the quote names what the pool really gives. A quote that would not
/// honour `limit` is no quote.
pub open spec fn taiga_pair_quote<B: Backends>(
    b: B,
    supply: CurrencyId,
    target: CurrencyId,
    limit: SwapLimit,
) -> Option<(Balance, Balance)> {
    let found = match limit {
        SwapLimit::ExactSupply(amount, min_target) => taiga_output(
            b,
            supply,
            target,
            amount,
            min_target,
        ),
        SwapLimit::ExactTarget(max_supply, wanted) => match taiga_input(
            b,
            supply,
            target,
            max_supply,
            wanted,
        ) {
            Some((_, _, _, needed)) => taiga_output(b, supply, target, needed, wanted),
            None => None,
        },
    };
    match found {
        Some((taken, given)) => if limit.met_by(taken, given) {
            found
        } else {
            None
        },
        None => None,
    }
}

/// What a swap of the pair asks of the curve pools: the pool, the two asset
/// positions, the supply and the least target.
pub open spec fn taiga_plan<B: Backends>(
    b: B,
    supply: CurrencyId,
    target: CurrencyId,
    limit: SwapLimit,
) -> Option<(PoolId, PoolTokenIndex, PoolTokenIndex, Balance, Balance)> {
    match limit {
        SwapLimit::ExactSupply(amount, min_target) => match b.best_route(supply, target, amount) {
            Some((pool, supply_index, target_index, _)) => Some(
                (pool, supply_index, target_index, amount, min_target),
            ),
            None => None,
        },
        SwapLimit::ExactTarget(max_supply, wanted) => match taiga_input(
            b,
            supply,
            target,
            max_supply,
            wanted,
        ) {
            Some((pool, supply_index, target_index, needed)) => Some(
                (pool, supply_index, target_index, needed, wanted),
            ),
            None => None,
        },
    }
}

/// The state and the result of a swap of the pair through the curve pools:
/// `CannotSwap` where there is no plan, else what the pool of the plan answers,
/// in a scope of its own.
pub open spec fn taiga_pair_swapped<B: Backends>(
    b: B,
    who: AccountId,
    supply: CurrencyId,
    target: CurrencyId,
    limit: SwapLimit,
) -> (B, Result<(Balance, Balance), Error>) {
    match taiga_plan(b, supply, target, limit) {
        Some((pool, supply_index, target_index, amount, min_target)) => settled(
            b,
            b.opened().pool_outcome(who, pool, supply_index, target_index, amount, min_target),
            limit,
        ),
        None => (b, Err(Error::CannotSwap)),
    }
}

/// One of the two exchanges.
#[derive(Clone, Copy, Debug, PartialEq, Eq, Structural)]
pub enum Venue {
    /// The constant-product exchange.
    Dex,
    /// The curve pools.
    Taiga,
}

/// The exchange whose quote is the better one: with an exact supply the one
/// that gives more, with an exact target the one that needs less. Where the two
/// are level it is the constant-product exchange; where only one quotes, that
/// one; where none does, none.
pub open spec fn better(
    limit: SwapLimit,
    dex: Option<(Balance, Balance)>,
    taiga: Option<(Balance, Balance)>,
) -> Option<Venue> {
    match (dex, taiga) {
        (Some(d), Some(t)) => match limit {
            SwapLimit::ExactSupply(..) => if t.1 > d.1 {
                Some(Venue::Taiga)
            } else {
                Some(Venue::Dex)
            },
            SwapLimit::ExactTarget(..) => if t.0 < d.0 {
                Some(Venue::Taiga)
            } else {
                Some(Venue::Dex)
            },
        },
        (Some(_), None) => Some(Venue::Dex),
        (None, Some(_)) => Some(Venue::Taiga),
        (None, None) => None,
    }
}

/// The exchange that serves the pair better within `limit`.
pub open spec fn venue<B: Backends>(
    b: B,
    joints: Seq<Seq<CurrencyId>>,
    supply: CurrencyId,
    target: CurrencyId,
    limit: SwapLimit,
) -> Option<Venue> {
    better(
        limit,
        dex_pair_quote(b, joints, supply, target, limit),
        taiga_pair_quote(b, supply, target, limit),
    )
}

/// The better of the two exchanges' quotes for the pair.
pub open spec fn either_pair_quote<B: Backends>(
    b: B,
    joints: Seq<Seq<CurrencyId>>,
    supply: CurrencyId,
    target: CurrencyId,
    limit: SwapLimit,
) -> Option<(Balance, Balance)> {
    match venue(b, joints, supply, target, limit) {
        Some(Venue::Dex) => dex_pair_quote(b, joints, supply, target, limit),
        Some(Venue::Taiga) => taiga_pair_quote(b, supply, target, limit),
        None => None,
    }
}

/// The state and the result of a swap of the pair on the exchange that quotes
/// better, and on that one alone.
pub open spec fn either_pair_swapped<B: Backends>(
    b: B,
    who: AccountId,
    joints: Seq<Seq<CurrencyId>>,
    supply: CurrencyId,
    target: CurrencyId,
    limit: SwapLimit,
) -> (B, Result<(Balance, Balance), Error>) {
    match venue(b, joints, supply, target, limit) {
        Some(Venue::Dex) => dex_pair_swapped(b, who, joints, supply, target, limit),
        Some(Venue::Taiga) => taiga_pair_swapped(b, who, supply, target, limit),
        None => (b, Err(Error::CannotSwap)),
    }
}

/// The quote for the pair: that of its fixed route where it has one, else the
/// better of the two exchanges' quotes.
pub open spec fn routed_pair_quote<B: Backends>(
    b: B,
    dex: AggregatedDex,
    joints: Seq<Seq<CurrencyId>>,
    supply: CurrencyId,
    target: CurrencyId,
    limit: SwapLimit,
) -> Option<(Balance, Balance)> {
    if dex.routes().contains_key((supply, target)) {
        quoted(b, dex.routes()[(supply, target)], limit)
    } else {
        either_pair_quote(b, joints, supply, target, limit)
    }
}

/// The state and the result of a swap of the pair: along its fixed route where
/// it has one, else on the exchange that quotes better.
pub open spec fn routed_pair_swapped<B: Backends>(
    b: B,
    who: AccountId,
    dex: AggregatedDex,
    joints: Seq<Seq<CurrencyId>>,
    supply: CurrencyId,
    target: CurrencyId,
    limit: SwapLimit,
) -> (B, Result<(Balance, Balance), Error>) {
    if dex.routes().contains_key((supply, target)) {
        swapped(b, who, dex.routes()[(supply, target)], limit)
    } else {
        either_pair_swapped(b, who, joints, supply, target, limit)
    }
}

/// Builds the path from `supply` to `target` through `joint`.
fn path_through(supply: CurrencyId, joint: &Vec<CurrencyId>, target: CurrencyId) -> (path: Vec<
    CurrencyId,
>)
    ensures
        path@ == through(supply, joint@, target),
{
    let mut path: Vec<CurrencyId> = Vec::new();
    path.push(supply);
    let mut k: usize = 0;
    while k < joint.len()
        invariant
            k <= joint.len(),
            path@ == seq![supply] + joint@.take(k as int),
        decreases joint.len() - k,
    {
        path.push(joint[k]);
        k = k + 1;
    }
    path.push(target);
    path
}

/// Asks the pool of a plan to swap, in a scope of its own.
fn pool_swap_in_scope<B: Backends>(
    b: &mut B,
    who: AccountId,
    pool: PoolId,
    supply_index: PoolTokenIndex,
    target_index: PoolTokenIndex,
    amount: Balance,
    min_target: Balance,
    limit: SwapLimit,
) -> (done: Result<(Balance, Balance), Error>)
    ensures
        (*final(b), done) == settled(
            *old(b),
            old(b).opened().pool_outcome(who, pool, supply_index, target_index, amount, min_target),
            limit,
        ),
        done is Err ==> *final(b) == *old(b),
        done matches Ok((taken, given)) ==> limit.met_by(taken, given),
        final(b).scope_base() == old(b).scope_base(),
{
    b.begin_scope();
    match b.stable_swap(who, pool, supply_index, target_index, amount, min_target) {
        Err(e) => {
            b.rollback_scope();
            Err(Error::Backend(e))
        },
        Ok((taken, given)) => {
            if limit.is_met_by(taken, given) {
                b.commit_scope();
                Ok((taken, given))
            } else {
                b.rollback_scope();
                Err(Error::CannotSwap)
            }
        },
    }
}

/// Swaps on the constant-product exchange, along the direct path or through a
/// joint.
pub struct DexSwap;

impl DexSwap {
    /// Finds the path by which the constant-product exchange serves the pair
    /// within `limit`: the direct one, else the first through a joint that can
    /// be served.
    pub fn find_route<B: Backends>(
        b: &B,
        joints: &Vec<Vec<CurrencyId>>,
        supply: CurrencyId,
        target: CurrencyId,
        limit: SwapLimit,
    ) -> (found: Option<(Vec<CurrencyId>, (Balance, Balance))>)
        ensures
            match found {
                Some((path, quote)) => dex_route(*b, joints_of(joints@), supply, target, limit)
                    == Some((path@, quote)),
                None => dex_route(*b, joints_of(joints@), supply, target, limit) is None,
            },
    {
        let mut direct: Vec<CurrencyId> = Vec::new();
        direct.push(supply);
        direct.push(target);
        assert(direct@ =~= seq![supply, target]);
        if let Some(quote) = b.dex_get_swap_amount(&direct, limit) {
            return Some((direct, quote));
        }
        let ghost all = joints_of(joints@);
        let n = joints.len();
        let mut k: usize = 0;
        while k < n
            invariant
                n == joints.len(),
                all == joints_of(joints@),
                k <= n,
                b.dex_quote(seq![supply, target], limit) is None,
                first_joint_route(*b, all, supply, target, limit, 0) == first_joint_route(
                    *b,
                    all,
                    supply,
                    target,
                    limit,
                    k as int,
                ),
            decreases n - k,
        {
            let path = path_through(supply, &joints[k], target);
            if let Some(quote) = b.dex_get_swap_amount(&path, limit) {
                return Some((path, quote));
            }
            k = k + 1;
        }
        None
    }

    /// Quotes the pair on the constant-product exchange.
    pub fn get_swap_amount<B: Backends>(
        b: &B,
        joints: &Vec<Vec<CurrencyId>>,
        supply: CurrencyId,
        target: CurrencyId,
        limit: SwapLimit,
    ) -> (quote: Option<(Balance, Balance)>)
        ensures
            quote == dex_pair_quote(*b, joints_of(joints@), supply, target, limit),
    {
        match Self::find_route(b, joints, supply, target, limit) {
            Some((_, quote)) => Some(quote),
            None => None,
        }
    }

    /// Swaps the pair on the constant-product exchange, along the path that
    /// [`DexSwap::find_route`] finds; `CannotSwap` where it finds none.
    pub fn swap<B: Backends>(
        b: &mut B,
        who: AccountId,
        joints: &Vec<Vec<CurrencyId>>,
        supply: CurrencyId,
        target: CurrencyId,
        limit: SwapLimit,
    ) -> (done: Result<(Balance, Balance), Error>)
        ensures
            (*final(b), done) == dex_pair_swapped(
                *old(b),
                who,
                joints_of(joints@),
                supply,
                target,
                limit,
            ),
            done is Err ==> *final(b) == *old(b),
            done matches Ok((taken, given)) ==> limit.met_by(taken, given),
            final(b).scope_base() == old(b).scope_base(),
    {
        match Self::find_route(&*b, joints, supply, target, limit) {
            Some((path, _)) => Self::swap_by_path(b, who, &path, limit),
            None => Err(Error::CannotSwap),
        }
    }

    /// Swaps along `path` on the constant-product exchange. The exchange's own
    /// error is passed on.
    pub fn swap_by_path<B: Backends>(
        b: &mut B,
        who: AccountId,
        path: &Vec<CurrencyId>,
        limit: SwapLimit,
    ) -> (done: Result<(Balance, Balance), Error>)
        ensures
            (*final(b), done) == dex_path_swapped(*old(b), who, path@, limit),
            done is Err ==> *final(b) == *old(b),
            done matches Ok((taken, given)) ==> limit.met_by(taken, given),
            final(b).scope_base() == old(b).scope_base(),
    {
        b.begin_scope();
        match b.dex_swap_with_specific_path(who, path, limit) {
            Err(e) => {
                b.rollback_scope();
                Err(Error::Backend(e))
            },
            Ok((taken, given)) => {
                if limit.is_met_by(taken, given) {
                    b.commit_scope();
                    Ok((taken, given))
                } else {
                    b.rollback_scope();
                    Err(Error::CannotSwap)
                }
            },
        }
    }

    /// This provider serves no route of several segments: always `CannotSwap`.
    pub fn swap_by_aggregated_path<B: Backends>(
        b: &mut B,
        who: AccountId,
        paths: &Vec<SwapPath>,
        limit: SwapLimit,
    ) -> (done: Result<(Balance, Balance), Error>)
        ensures
            done == Err::<(Balance, Balance), Error>(Error::CannotSwap),
            *final(b) == *old(b),
    {
        Err(Error::CannotSwap)
    }
}

/// Swaps through the curve pool that serves a pair best.
pub struct TaigaSwap;

impl TaigaSwap {
    fn quote_output<B: Backends>(
        b: &B,
        supply: CurrencyId,
        target: CurrencyId,
        amount: Balance,
        min_target: Balance,
    ) -> (quote: Option<(Balance, Balance)>)
        ensures
            quote == taiga_output(*b, supply, target, amount, min_target),
    {
        match b.stable_get_best_route(supply, target, amount) {
            Some((pool, supply_index, target_index, _)) => {
                match b.stable_get_swap_output_amount(pool, supply_index, target_index, amount) {
                    Some((taken, given)) => {
                        if given != 0 && given >= min_target {
                            Some((taken, given))
                        } else {
                            None
                        }
                    },
                    None => None,
                }
            },
            None => None,
        }
    }

    fn quote_input<B: Backends>(
        b: &B,
        supply: CurrencyId,
        target: CurrencyId,
        max_supply: Balance,
        wanted: Balance,
    ) -> (found: Option<(PoolId, PoolTokenIndex, PoolTokenIndex, Balance)>)
        ensures
            found == taiga_input(*b, supply, target, max_supply, wanted),
    {
        match b.stable_get_best_route(supply, target, max_supply) {
            Some((pool, supply_index, target_index, _)) => {
                match b.stable_get_swap_input_amount(pool, supply_index, target_index, wanted) {
                    Some((needed, _)) => {
                        if needed != 0 && needed <= max_supply {
                            Some((pool, supply_index, target_index, needed))
                        } else {
                            None
                        }
                    },
                    None => None,
                }
            },
            None => None,
        }
    }

    /// Quotes the pair on the curve pools.
    pub fn get_swap_amount<B: Backends>(
        b: &B,
        supply: CurrencyId,
        target: CurrencyId,
        limit: SwapLimit,
    ) -> (quote: Option<(Balance, Balance)>)
        ensures
            quote == taiga_pair_quote(*b, supply, target, limit),
            quote matches Some((taken, given)) ==> limit.met_by(taken, given),
    {
        let found = match limit {
            SwapLimit::ExactSupply(amount, min_target) => Self::quote_output(
                b,
                supply,
                target,
                amount,
                min_target,
            ),
            SwapLimit::ExactTarget(max_supply, wanted) => {
                match Self::quote_input(b, supply, target, max_supply, wanted) {
                    Some((_, _, _, needed)) => Self::quote_output(
                        b,
                        supply,
                        target,
                        needed,
                        wanted,
                    ),
                    None => None,
                }
            },
        };
        match found {
            Some((taken, given)) => {
                if limit.is_met_by(taken, given) {
                    found
                } else {
                    None
                }
            },
            None => None,
        }
    }

    /// Swaps the pair through the curve pool that serves it best. `CannotSwap`
    /// where no pool serves the pair or, with an exact target, the pool needs
    /// more than the limit allows; the pool's own error is passed on.
    pub fn swap<B: Backends>(
        b: &mut B,
        who: AccountId,
        supply: CurrencyId,
        target: CurrencyId,
        limit: SwapLimit,
    ) -> (done: Result<(Balance, Balance), Error>)
        ensures
            (*final(b), done) == taiga_pair_swapped(*old(b), who, supply, target, limit),
            done is Err ==> *final(b) == *old(b),
            done matches Ok((taken, given)) ==> limit.met_by(taken, given),
            final(b).scope_base() == old(b).scope_base(),
    {
        let plan = match limit {
            SwapLimit::ExactSupply(amount, min_target) => {
                match b.stable_get_best_route(supply, target, amount) {
                    Some((pool, supply_index, target_index, _)) => Some(
                        (pool, supply_index, target_index, amount, min_target),
                    ),
                    None => None,
                }
            },
            SwapLimit::ExactTarget(max_supply, wanted) => {
                match Self::quote_input(&*b, supply, target, max_supply, wanted) {
                    Some((pool, supply_index, target_index, needed)) => Some(
                        (pool, supply_index, target_index, needed, wanted),
                    ),
                    None => None,
                }
            },
        };
        match plan {
            Some((pool, supply_index, target_index, amount, min_target)) => pool_swap_in_scope(
                b,
                who,
                pool,
                supply_index,
                target_index,
                amount,
                min_target,
                limit,
            ),
            None => Err(Error::CannotSwap),
        }
    }

    /// This provider serves no path of currencies: always `CannotSwap`.
    pub fn swap_by_path<B: Backends>(
        b: &mut B,
        who: AccountId,
        path: &Vec<CurrencyId>,
        limit: SwapLimit,
    ) -> (done: Result<(Balance, Balance), Error>)
        ensures
            done == Err::<(Balance, Balance), Error>(Error::CannotSwap),
            *final(b) == *old(b),
    {
        Err(Error::CannotSwap)
    }

    /// This provider serves no route of several segments: always `CannotSwap`.
    pub fn swap_by_aggregated_path<B: Backends>(
        b: &mut B,
        who: AccountId,
        paths: &Vec<SwapPath>,
        limit: SwapLimit,
    ) -> (done: Result<(Balance, Balance), Error>)
        ensures
            done == Err::<(Balance, Balance), Error>(Error::CannotSwap),
            *final(b) == *old(b),
    {
        Err(Error::CannotSwap)
    }
}

/// Swaps on whichever of the two exchanges quotes better.
pub struct EitherDexOrTaigaSwap;

impl EitherDexOrTaigaSwap {
    /// Decides [`better`].
    pub fn pick(
        limit: SwapLimit,
        dex: Option<(Balance, Balance)>,
        taiga: Option<(Balance, Balance)>,
    ) -> (chosen: Option<Venue>)
        ensures
            chosen == better(limit, dex, taiga),
    {
        match (dex, taiga) {
            (Some(d), Some(t)) => match limit {
                SwapLimit::ExactSupply(..) => if t.1 > d.1 {
                    Some(Venue::Taiga)
                } else {
                    Some(Venue::Dex)
                },
                SwapLimit::ExactTarget(..) => if t.0 < d.0 {
                    Some(Venue::Taiga)
                } else {
                    Some(Venue::Dex)
                },
            },
            (Some(_), None) => Some(Venue::Dex),
            (None, Some(_)) => Some(Venue::Taiga),
            (None, None) => None,
        }
    }

    /// Quotes the pair on both exchanges and returns the better quote.
    pub fn get_swap_amount<B: Backends>(
        b: &B,
        joints: &Vec<Vec<CurrencyId>>,
        supply: CurrencyId,
        target: CurrencyId,
        limit: SwapLimit,
    ) -> (quote: Option<(Balance, Balance)>)
        ensures
            quote == either_pair_quote(*b, joints_of(joints@), supply, target, limit),
    {
        let dex = DexSwap::get_swap_amount(b, joints, supply, target, limit);
        let taiga = TaigaSwap::get_swap_amount(b, supply, target, limit);
        match Self::pick(limit, dex, taiga) {
            Some(Venue::Dex) => dex,
            Some(Venue::Taiga) => taiga,
            None => None,
        }
    }

    /// Swaps the pair on the exchange that quotes better, and on that one
    /// alone; `CannotSwap` where neither quotes.
    pub fn swap<B: Backends>(
        b: &mut B,
        who: AccountId,
        joints: &Vec<Vec<CurrencyId>>,
        supply: CurrencyId,
        target: CurrencyId,
        limit: SwapLimit,
    ) -> (done: Result<(Balance, Balance), Error>)
        ensures
            (*final(b), done) == either_pair_swapped(
                *old(b),
                who,
                joints_of(joints@),
                supply,
                target,
                limit,
            ),
            done is Err ==> *final(b) == *old(b),
            done matches Ok((taken, given)) ==> limit.met_by(taken, given),
            final(b).scope_base() == old(b).scope_base(),
    {
        let dex = DexSwap::get_swap_amount(&*b, joints, supply, target, limit);
        let taiga = TaigaSwap::get_swap_amount(&*b, supply, target, limit);
        match Self::pick(limit, dex, taiga) {
            Some(Venue::Dex) => DexSwap::swap(b, who, joints, supply, target, limit),
            Some(Venue::Taiga) => TaigaSwap::swap(b, who, supply, target, limit),
            None => Err(Error::CannotSwap),
        }
    }

    /// Swaps along `path` on the constant-product exchange.
    pub fn swap_by_path<B: Backends>(
        b: &mut B,
        who: AccountId,
        path: &Vec<CurrencyId>,
        limit: SwapLimit,
    ) -> (done: Result<(Balance, Balance), Error>)
        ensures
            (*final(b), done) == dex_path_swapped(*old(b), who, path@, limit),
            done is Err ==> *final(b) == *old(b),
            done matches Ok((taken, given)) ==> limit.met_by(taken, given),
            final(b).scope_base() == old(b).scope_base(),
    {
        DexSwap::swap_by_path(b, who, path, limit)
    }

    /// This provider serves no route of several segments: always `CannotSwap`.
    pub fn swap_by_aggregated_path<B: Backends>(
        b: &mut B,
        who: AccountId,
        paths: &Vec<SwapPath>,
        limit: SwapLimit,
    ) -> (done: Result<(Balance, Balance), Error>)
        ensures
            done == Err::<(Balance, Balance), Error>(Error::CannotSwap),
            *final(b) == *old(b),
    {
        Err(Error::CannotSwap)
    }
}

/// Swaps along the fixed route of a pair, or on whichever exchange quotes
/// better where the pair has none.
pub struct AggregatedSwap;

impl AggregatedSwap {
    /// Quotes the pair: along its fixed route where it has one, else on both
    /// exchanges.
    pub fn get_swap_amount<B: Backends>(
        b: &B,
        dex: &AggregatedDex,
        joints: &Vec<Vec<CurrencyId>>,
        supply: CurrencyId,
        target: CurrencyId,
        limit: SwapLimit,
    ) -> (quote: Option<(Balance, Balance)>)
        ensures
            quote == routed_pair_quote(*b, *dex, joints_of(joints@), supply, target, limit),
    {
        match dex.aggregated_swap_paths((supply, target)) {
            Some(paths) => get_aggregated_swap_amount(b, paths, limit),
            None => EitherDexOrTaigaSwap::get_swap_amount(b, joints, supply, target, limit),
        }
    }

    /// Swaps the pair: along its fixed route where it has one, else on the
    /// exchange that quotes better.
    pub fn swap<B: Backends>(
        b: &mut B,
        who: AccountId,
        dex: &AggregatedDex,
        joints: &Vec<Vec<CurrencyId>>,
        supply: CurrencyId,
        target: CurrencyId,
        limit: SwapLimit,
    ) -> (done: Result<(Balance, Balance), Error>)
        ensures
            (*final(b), done) == routed_pair_swapped(
                *old(b),
                who,
                *dex,
                joints_of(joints@),
                supply,
                target,
                limit,
            ),
            done is Err ==> *final(b) == *old(b),
            done matches Ok((taken, given)) ==> limit.met_by(taken, given),
            final(b).scope_base() == old(b).scope_base(),
    {
        match dex.aggregated_swap_paths((supply, target)) {
            Some(paths) => do_aggregated_swap(b, who, paths, limit),
            None => EitherDexOrTaigaSwap::swap(b, who, joints, supply, target, limit),
        }
    }

    /// Swaps along `path`, taken as a route of one segment on the
    /// constant-product exchange.
    pub fn swap_by_path<B: Backends>(
        b: &mut B,
        who: AccountId,
        path: &Vec<CurrencyId>,
        limit: SwapLimit,
    ) -> (done: Result<(Balance, Balance), Error>)
        ensures
            (*final(b), done) == swapped(*old(b), who, seq![Segment::Dex(path@)], limit),
            done is Err ==> *final(b) == *old(b),
            done matches Ok((taken, given)) ==> limit.met_by(taken, given),
            final(b).scope_base() == old(b).scope_base(),
    {
        let mut copy: Vec<CurrencyId> = Vec::new();
        let mut k: usize = 0;
        while k < path.len()
            invariant
                k <= path.len(),
                copy@ == path@.take(k as int),
            decreases path.len() - k,
        {
            copy.push(path[k]);
            k = k + 1;
        }
        assert(path@.take(path.len() as int) == path@);
        let mut paths: Vec<SwapPath> = Vec::new();
        paths.push(SwapPath::Dex(copy));
        assert(route_of(paths@) =~= seq![Segment::Dex(path@)]);
        do_aggregated_swap(b, who, &paths, limit)
    }

    /// Swaps along the route `paths`.
    pub fn swap_by_aggregated_path<B: Backends>(
        b: &mut B,
        who: AccountId,
        paths: &Vec<SwapPath>,
        limit: SwapLimit,
    ) -> (done: Result<(Balance, Balance), Error>)
        ensures
            (*final(b), done) == swapped(*old(b), who, route_of(paths@), limit),
            done is Err ==> *final(b) == *old(b),
            done matches Ok((taken, given)) ==> limit.met_by(taken, given),
            final(b).scope_base() == old(b).scope_base(),
    {
        do_aggregated_swap(b, who, paths, limit)
    }
}

} // verus!
