//! Quotes for a whole route, and its execution as one atomic operation.
//!
//! A route is quoted hop by hop. With an exact supply the walk goes forward:
//! each segment is asked what it gives for what the one before it gave. With an
//! exact target the walk goes backward: each segment is asked what it needs in
//! order to give what the one after it needs; the supply found that way is then
//! quoted forward, so that the quote names what the route really gives, which
//! may be more than the target asked for and is never less.
//!
//! Execution always runs forward, from the supply that the quote names.

use vstd::prelude::*;
use crate::backends::Backends;
use crate::types::{
    route_of, AccountId, Balance, BackendError, Error, Segment, SwapLimit, SwapPath,
};
use crate::validator::{check_swap_paths, checked, valid};

verus! {

/// What `segment` gives for `supply`, with no floor set on it.
pub open spec fn hop_output<B: Backends>(b: B, segment: Segment, supply: Balance) -> Option<
    Balance,
> {
    match segment {
        Segment::Dex(path) => match b.dex_quote(path, SwapLimit::ExactSupply(supply, 0)) {
            Some((_, given)) => Some(given),
            None => None,
        },
        Segment::Taiga(pool, supply_index, target_index) => match b.pool_output(
            pool,
            supply_index,
            target_index,
            supply,
        ) {
            Some((_, given)) => Some(given),
            None => None,
        },
    }
}

/// What `segment` needs in order to give `target`, with no ceiling set on it.
pub open spec fn hop_input<B: Backends>(b: B, segment: Segment, target: Balance) -> Option<
    Balance,
> {
    match segment {
        Segment::Dex(path) => match b.dex_quote(path, SwapLimit::ExactTarget(u128::MAX, target)) {
            Some((needed, _)) => Some(needed),
            None => None,
        },
        Segment::Taiga(pool, supply_index, target_index) => match b.pool_input(
            pool,
            supply_index,
            target_index,
            target,
        ) {
            Some((needed, _)) => Some(needed),
            None => None,
        },
    }
}

/// What the first `n` segments of `route` give for `supply`, each one fed what
/// the one before it gave; `None` as soon as one of them cannot serve.
pub open spec fn output_after<B: Backends>(b: B, route: Seq<Segment>, n: nat, supply: Balance)
    -> Option<Balance>
    decreases n,
{
    if n == 0 {
        Some(supply)
    } else {
        match output_after(b, route, (n - 1) as nat, supply) {
            Some(mid) => hop_output(b, route[n - 1], mid),
            None => None,
        }
    }
}

/// What the last `n` segments of `route` need in order to give `target`, each
/// one asked for what the one after it needs; `None` as soon as one of them
/// cannot serve.
pub open spec fn input_before<B: Backends>(b: B, route: Seq<Segment>, n: nat, target: Balance)
    -> Option<Balance>
    decreases n,
{
    if n == 0 {
        Some(target)
    } else {
        match input_before(b, route, (n - 1) as nat, target) {
            Some(mid) => hop_input(b, route[route.len() - n], mid),
            None => None,
        }
    }
}

/// The quote for walking the whole of `route` forward from `supply`: the pair
/// of `supply` and what the route gives, where every segment can serve and the
/// route gives `min_target` or more.
pub open spec fn forward_quote<B: Backends>(
    b: B,
    route: Seq<Segment>,
    supply: Balance,
    min_target: Balance,
) -> Option<(Balance, Balance)> {
    match output_after(b, route, route.len(), supply) {
        Some(given) => if given >= min_target {
            Some((supply, given))
        } else {
            None
        },
        None => None,
    }
}

/// The quote for `route` under `limit`: the supply taken and the target given,
/// or `None` where the route is malformed or cannot serve within the limit.
pub open spec fn quoted<B: Backends>(b: B, route: Seq<Segment>, limit: SwapLimit) -> Option<
    (Balance, Balance),
> {
    if !valid(b, route) {
        None
    } else {
        match limit {
            SwapLimit::ExactSupply(supply, min_target) => forward_quote(
                b,
                route,
                supply,
                min_target,
            ),
            SwapLimit::ExactTarget(max_supply, target) => match input_before(
                b,
                route,
                route.len(),
                target,
            ) {
                Some(needed) => if needed <= max_supply {
                    forward_quote(b, route, needed, target)
                } else {
                    None
                },
                None => None,
            },
        }
    }
}

/// The state after `segment` was asked to swap `supply` for `who`, and what it
/// gave.
pub open spec fn hop_outcome<B: Backends>(b: B, who: AccountId, segment: Segment, supply: Balance)
    -> (B, Result<Balance, BackendError>) {
    let (after, done) = match segment {
        Segment::Dex(path) => b.dex_outcome(who, path, SwapLimit::ExactSupply(supply, 0)),
        Segment::Taiga(pool, supply_index, target_index) => b.pool_outcome(
            who,
            pool,
            supply_index,
            target_index,
            supply,
            0,
        ),
    };
    match done {
        Ok((_, given)) => (after, Ok(given)),
        Err(e) => (after, Err(e)),
    }
}

/// The state after the first `n` segments of `route` were asked, in turn, to
/// swap for `who`, the first one `supply` and each other one what the one before
/// it gave; and what the last of them gave, or the error of the first that
/// refused.
pub open spec fn outcome_after<B: Backends>(
    b: B,
    who: AccountId,
    route: Seq<Segment>,
    n: nat,
    supply: Balance,
) -> (B, Result<Balance, BackendError>)
    decreases n,
{
    if n == 0 {
        (b, Ok(supply))
    } else {
        let (mid, done) = outcome_after(b, who, route, (n - 1) as nat, supply);
        match done {
            Ok(amount) => hop_outcome(mid, who, route[n - 1], amount),
            Err(e) => (mid, Err(e)),
        }
    }
}

/// The state after `route` was executed for `who` under `limit`, and the
/// result.
///
/// A malformed route fails with the error of the rule it breaks, and a route
/// that has no quote under `limit` fails with `CannotSwap`. Otherwise the
/// segments are executed forward inside a scope of their own, from the supply
/// that the quote names. If one of them refuses, its error is passed on; if the
/// route gives less than the limit's target, the error is `CannotSwap`.
/// Whenever the result is an error the state is the one before the call.
pub open spec fn swapped<B: Backends>(b: B, who: AccountId, route: Seq<Segment>, limit: SwapLimit)
    -> (B, Result<(Balance, Balance), Error>) {
    match checked(b, route) {
        Err(e) => (b, Err(e)),
        Ok(_) => match quoted(b, route, limit) {
            None => (b, Err(Error::CannotSwap)),
            Some((supply, _)) => {
                let (after, done) = outcome_after(b.opened(), who, route, route.len(), supply);
                match done {
                    Err(e) => (b, Err(Error::Backend(e))),
                    Ok(given) => if given >= limit.target() {
                        (after.committed(), Ok((supply, given)))
                    } else {
                        (b, Err(Error::CannotSwap))
                    },
                }
            },
        },
    }
}

/// Walks `paths` forward from `supply`.
fn walk_forward<B: Backends>(b: &B, paths: &Vec<SwapPath>, supply: Balance) -> (given: Option<
    Balance,
>)
    ensures
        given == output_after(*b, route_of(paths@), paths.len() as nat, supply),
{
    let ghost route = route_of(paths@);
    let n = paths.len();
    let mut amount = supply;
    let mut k: usize = 0;
    while k < n
        invariant
            n == paths.len(),
            route == route_of(paths@),
            k <= n,
            output_after(*b, route, k as nat, supply) == Some(amount),
        decreases n - k,
    {
        let quote = match &paths[k] {
            SwapPath::Dex(path) => b.dex_get_swap_amount(path, SwapLimit::ExactSupply(amount, 0)),
            SwapPath::Taiga(pool, supply_index, target_index) => b.stable_get_swap_output_amount(
                *pool,
                *supply_index,
                *target_index,
                amount,
            ),
        };
        match quote {
            Some((_, given)) => {
                amount = given;
            },
            None => {
                proof {
                    lemma_output_stays_none(*b, route, (k + 1) as nat, n as nat, supply);
                }
                return None;
            },
        }
        k = k + 1;
    }
    Some(amount)
}

/// Walks `paths` backward from `target`.
fn walk_backward<B: Backends>(b: &B, paths: &Vec<SwapPath>, target: Balance) -> (needed: Option<
    Balance,
>)
    ensures
        needed == input_before(*b, route_of(paths@), paths.len() as nat, target),
{
    let ghost route = route_of(paths@);
    let n = paths.len();
    let mut amount = target;
    let mut k: usize = 0;
    while k < n
        invariant
            n == paths.len(),
            route == route_of(paths@),
            k <= n,
            input_before(*b, route, k as nat, target) == Some(amount),
        decreases n - k,
    {
        let quote = match &paths[n - 1 - k] {
            SwapPath::Dex(path) => b.dex_get_swap_amount(
                path,
                SwapLimit::ExactTarget(u128::MAX, amount),
            ),
            SwapPath::Taiga(pool, supply_index, target_index) => b.stable_get_swap_input_amount(
                *pool,
                *supply_index,
                *target_index,
                amount,
            ),
        };
        match quote {
            Some((needed, _)) => {
                amount = needed;
            },
            None => {
                proof {
                    lemma_input_stays_none(*b, route, (k + 1) as nat, n as nat, target);
                }
                return None;
            },
        }
        k = k + 1;
    }
    Some(amount)
}

/// Once a segment cannot serve, no longer walk forward can.
proof fn lemma_output_stays_none<B: Backends>(
    b: B,
    route: Seq<Segment>,
    n: nat,
    m: nat,
    supply: Balance,
)
    requires
        n <= m,
        output_after(b, route, n, supply) is None,
    ensures
        output_after(b, route, m, supply) is None,
    decreases m,
{
    if n < m {
        lemma_output_stays_none(b, route, n, (m - 1) as nat, supply);
    }
}

/// Once a segment cannot serve, no longer walk backward can.
proof fn lemma_input_stays_none<B: Backends>(
    b: B,
    route: Seq<Segment>,
    n: nat,
    m: nat,
    target: Balance,
)
    requires
        n <= m,
        input_before(b, route, n, target) is None,
    ensures
        input_before(b, route, m, target) is None,
    decreases m,
{
    if n < m {
        lemma_input_stays_none(b, route, n, (m - 1) as nat, target);
    }
}

/// Once a segment has refused, the later ones are not asked.
proof fn lemma_outcome_stays_err<B: Backends>(
    b: B,
    who: AccountId,
    route: Seq<Segment>,
    n: nat,
    m: nat,
    supply: Balance,
)
    requires
        n <= m,
        outcome_after(b, who, route, n, supply).1 is Err,
    ensures
        outcome_after(b, who, route, m, supply) == outcome_after(b, who, route, n, supply),
    decreases m,
{
    if n < m {
        lemma_outcome_stays_err(b, who, route, n, (m - 1) as nat, supply);
    }
}

/// Quotes a route under a limit, asking each of its segments in turn.
///
/// Returns the supply that the route would take and the target that it would
/// give, or `None` where the route is malformed, a segment cannot serve, or the
/// limit cannot be met. A quote always honours the limit it was made under.
pub fn get_aggregated_swap_amount<B: Backends>(b: &B, paths: &Vec<SwapPath>, limit: SwapLimit) -> (quote:
    Option<(Balance, Balance)>)
    ensures
        quote == quoted(*b, route_of(paths@), limit),
        quote matches Some((supply, given)) ==> limit.met_by(supply, given),
{
    if check_swap_paths(b, paths).is_err() {
        return None;
    }
    let (supply, min_target) = match limit {
        SwapLimit::ExactSupply(supply, min_target) => (supply, min_target),
        SwapLimit::ExactTarget(max_supply, target) => {
            match walk_backward(b, paths, target) {
                Some(needed) => {
                    if needed > max_supply {
                        return None;
                    }
                    (needed, target)
                },
                None => {
                    return None;
                },
            }
        },
    };
    match walk_forward(b, paths, supply) {
        Some(given) => {
            if given >= min_target {
                Some((supply, given))
            } else {
                None
            }
        },
        None => None,
    }
}

/// Executes a route for `who` under a limit, as one atomic operation.
///
/// The route is checked and quoted first: a malformed route fails with the
/// error of the rule it breaks, one without a quote with `CannotSwap`. Then the
/// segments are executed in order, the first with the supply that the quote
/// names and each other one with what the one before it gave. The error of a
/// segment that refuses is passed on. Returns the supply taken and the target
/// given, which honour the limit. On any error nothing has changed.
pub fn do_aggregated_swap<B: Backends>(
    b: &mut B,
    who: AccountId,
    paths: &Vec<SwapPath>,
    limit: SwapLimit,
) -> (done: Result<(Balance, Balance), Error>)
    ensures
        (*final(b), done) == swapped(*old(b), who, route_of(paths@), limit),
        done is Err ==> *final(b) == *old(b),
        done matches Ok((supply, given)) ==> limit.met_by(supply, given),
        final(b).scope_base() == old(b).scope_base(),
{
    let ghost start = *b;
    let ghost route = route_of(paths@);
    if let Err(e) = check_swap_paths(&*b, paths) {
        return Err(e);
    }
    let supply = match get_aggregated_swap_amount(&*b, paths, limit) {
        Some((supply, _)) => supply,
        None => {
            return Err(Error::CannotSwap);
        },
    };
    let min_target = match limit {
        SwapLimit::ExactSupply(_, min_target) => min_target,
        SwapLimit::ExactTarget(_, target) => target,
    };
    b.begin_scope();
    let n = paths.len();
    let mut amount = supply;
    let mut k: usize = 0;
    while k < n
        invariant
            n == paths.len(),
            route == route_of(paths@),
            k <= n,
            start == *old(b),
            checked(start, route) is Ok,
            quoted(start, route, limit) matches Some((named, _)) && named == supply,
            b.scope_base() == Some(start),
            outcome_after(start.opened(), who, route, k as nat, supply) == (
                *b,
                Ok::<Balance, BackendError>(amount),
            ),
        decreases n - k,
    {
        let swap = match &paths[k] {
            SwapPath::Dex(path) => b.dex_swap_with_specific_path(
                who,
                path,
                SwapLimit::ExactSupply(amount, 0),
            ),
            SwapPath::Taiga(pool, supply_index, target_index) => b.stable_swap(
                who,
                *pool,
                *supply_index,
                *target_index,
                amount,
                0,
            ),
        };
        match swap {
            Ok((_, given)) => {
                amount = given;
            },
            Err(e) => {
                proof {
                    lemma_outcome_stays_err(
                        start.opened(),
                        who,
                        route,
                        (k + 1) as nat,
                        n as nat,
                        supply,
                    );
                }
                b.rollback_scope();
                return Err(Error::Backend(e));
            },
        }
        k = k + 1;
    }
    if amount < min_target {
        b.rollback_scope();
        return Err(Error::CannotSwap);
    }
    b.commit_scope();
    Ok((supply, amount))
}

/// Whether `segment`, having given something for `supply`, asks no more than
/// `supply` for any target that is no more than what it gave.
pub open spec fn asks_no_more<B: Backends>(b: B, segment: Segment, supply: Balance, less: Balance)
    -> bool {
    match hop_output(b, segment, supply) {
        Some(given) => less <= given ==> match hop_input(b, segment, less) {
            Some(needed) => needed <= supply,
            None => false,
        },
        None => true,
    }
}

/// Whether `segment`, given the supply it asks for `target`, gives `target` or
/// more.
pub open spec fn gives_enough<B: Backends>(b: B, segment: Segment, target: Balance) -> bool {
    match hop_input(b, segment, target) {
        Some(needed) => match hop_output(b, segment, needed) {
            Some(given) => given >= target,
            None => false,
        },
        None => true,
    }
}

/// Whether `segment`, being able to serve the supplies `low` and `high`, can
/// serve `mid` between them, and gives for it no less than for `low` and no
/// more than for `high`.
pub open spec fn grows_between<B: Backends>(
    b: B,
    segment: Segment,
    low: Balance,
    mid: Balance,
    high: Balance,
) -> bool {
    (low <= mid <= high && hop_output(b, segment, low) is Some && hop_output(b, segment, high)
        is Some) ==> {
        &&& hop_output(b, segment, mid) is Some
        &&& hop_output(b, segment, low).unwrap() <= hop_output(b, segment, mid).unwrap()
        &&& hop_output(b, segment, mid).unwrap() <= hop_output(b, segment, high).unwrap()
    }
}

/// Whether the two kinds of quote of `segment` agree with each other: what it
/// asks and what it gives are inverse to each other up to rounding in the
/// trader's disfavour, and what it gives grows with what it is given.
pub open spec fn well_behaved<B: Backends>(b: B, segment: Segment) -> bool {
    &&& forall|supply: Balance, less: Balance| #[trigger] asks_no_more(b, segment, supply, less)
    &&& forall|target: Balance| #[trigger] gives_enough(b, segment, target)
    &&& forall|low: Balance, mid: Balance, high: Balance| #[trigger]
        grows_between(b, segment, low, mid, high)
}

/// A walk forward that gets through the whole route gets through each part of
/// it.
proof fn lemma_output_defined_before<B: Backends>(
    b: B,
    route: Seq<Segment>,
    k: nat,
    n: nat,
    supply: Balance,
)
    requires
        k <= n,
        output_after(b, route, n, supply) is Some,
    ensures
        output_after(b, route, k, supply) is Some,
{
    if output_after(b, route, k, supply) is None {
        lemma_output_stays_none(b, route, k, n, supply);
    }
}

/// Walking backward from what the route gave for `supply`, the last `m`
/// segments ask no more than what the segments before them gave.
proof fn lemma_backward_asks_no_more<B: Backends>(
    b: B,
    route: Seq<Segment>,
    supply: Balance,
    target: Balance,
    m: nat,
)
    requires
        m <= route.len(),
        forall|k: int| 0 <= k < route.len() ==> well_behaved(b, #[trigger] route[k]),
        output_after(b, route, route.len(), supply) == Some(target),
    ensures
        input_before(b, route, m, target) is Some,
        output_after(b, route, (route.len() - m) as nat, supply) is Some,
        input_before(b, route, m, target).unwrap() <= output_after(
            b,
            route,
            (route.len() - m) as nat,
            supply,
        ).unwrap(),
    decreases m,
{
    let n = route.len();
    lemma_output_defined_before(b, route, (n - m) as nat, n, supply);
    if m > 0 {
        lemma_backward_asks_no_more(b, route, supply, target, (m - 1) as nat);
        let segment = route[n - m];
        let before = output_after(b, route, (n - m) as nat, supply).unwrap();
        let asked = input_before(b, route, (m - 1) as nat, target).unwrap();
        assert(asks_no_more(b, segment, before, asked));
    }
}

/// Walking forward again from the supply that the walk backward found, the
/// first `k` segments give no less than the segments after them ask, and no more
/// than they gave for `supply`.
proof fn lemma_forward_gives_enough<B: Backends>(
    b: B,
    route: Seq<Segment>,
    supply: Balance,
    target: Balance,
    k: nat,
)
    requires
        k <= route.len(),
        forall|j: int| 0 <= j < route.len() ==> well_behaved(b, #[trigger] route[j]),
        output_after(b, route, route.len(), supply) == Some(target),
    ensures
        input_before(b, route, route.len(), target) is Some,
        input_before(b, route, (route.len() - k) as nat, target) is Some,
        output_after(b, route, k, supply) is Some,
        output_after(b, route, k, input_before(b, route, route.len(), target).unwrap()) is Some,
        input_before(b, route, (route.len() - k) as nat, target).unwrap() <= output_after(
            b,
            route,
            k,
            input_before(b, route, route.len(), target).unwrap(),
        ).unwrap(),
        output_after(b, route, k, input_before(b, route, route.len(), target).unwrap()).unwrap()
            <= output_after(b, route, k, supply).unwrap(),
    decreases k,
{
    let n = route.len();
    lemma_backward_asks_no_more(b, route, supply, target, n);
    lemma_backward_asks_no_more(b, route, supply, target, (n - k) as nat);
    let start = input_before(b, route, n, target).unwrap();
    if k > 0 {
        lemma_forward_gives_enough(b, route, supply, target, (k - 1) as nat);
        let segment = route[k - 1];
        let low = input_before(b, route, (n - k + 1) as nat, target).unwrap();
        let mid = output_after(b, route, (k - 1) as nat, start).unwrap();
        let high = output_after(b, route, (k - 1) as nat, supply).unwrap();
        let asked = input_before(b, route, (n - k) as nat, target).unwrap();
        assert(gives_enough(b, segment, asked));
        assert(grows_between(b, segment, low, mid, high));
    }
}

/// Where every segment of a route is well behaved, what the route gives for an
/// exact supply can be had back as an exact target: if the quote for giving
/// exactly `supply` names `target`, then the quote for receiving `target` while
/// giving at most `supply` exists, takes no more than `supply` and gives no less
/// than `target`.
pub proof fn lemma_round_trip<B: Backends>(
    b: B,
    route: Seq<Segment>,
    supply: Balance,
    target: Balance,
)
    requires
        forall|k: int| 0 <= k < route.len() ==> well_behaved(b, #[trigger] route[k]),
        quoted(b, route, SwapLimit::ExactSupply(supply, 0)) == Some((supply, target)),
    ensures
        quoted(b, route, SwapLimit::ExactTarget(supply, target)) is Some,
        quoted(b, route, SwapLimit::ExactTarget(supply, target)).unwrap().0 <= supply,
        quoted(b, route, SwapLimit::ExactTarget(supply, target)).unwrap().1 >= target,
{
    lemma_forward_gives_enough(b, route, supply, target, route.len());
    lemma_forward_gives_enough(b, route, supply, target, 0);
}

} // verus!
