//! Whether a route is well formed.
//!
//! A route is judged by four rules, in this order: it has a segment; each of
//! its segments on the constant-product exchange is a sequence of two or more
//! currencies in which no currency is followed by itself; each of its segments
//! through a curve pool names a pool that exists and two different, valid asset
//! positions of it; and each segment starts from the currency in which the one
//! before it ends. The first rule that the route breaks decides the error.

use vstd::prelude::*;
use crate::backends::Backends;
use crate::types::{route_of, CurrencyId, Error, PoolTokenIndex, Segment, SwapPath};

verus! {

/// Whether the currency at position `k` of `path` differs from the next one.
pub open spec fn step_differs(path: Seq<CurrencyId>, k: int) -> bool {
    path[k] != path[k + 1]
}

/// Whether `path` can be a segment on the constant-product exchange: two or
/// more currencies, none followed by itself.
pub open spec fn dex_segment_ok(path: Seq<CurrencyId>) -> bool {
    &&& path.len() >= 2
    &&& forall|k: int| 0 <= k < path.len() - 1 ==> #[trigger] step_differs(path, k)
}

/// Whether `segment` is on the constant-product exchange and malformed.
pub open spec fn is_bad_dex(segment: Segment) -> bool {
    match segment {
        Segment::Dex(path) => !dex_segment_ok(path),
        Segment::Taiga(..) => false,
    }
}

/// What is wrong with a hop between two positions of a pool whose assets are
/// `assets`: that the pool does not exist, that the two positions are the same,
/// or that one of them is not a position of the pool.
pub open spec fn taiga_fault(
    assets: Option<Seq<CurrencyId>>,
    supply_index: PoolTokenIndex,
    target_index: PoolTokenIndex,
) -> Option<Error> {
    match assets {
        None => Some(Error::InvalidPoolId),
        Some(list) => if supply_index == target_index {
            Some(Error::InvalidSwapPath)
        } else if supply_index >= list.len() || target_index >= list.len() {
            Some(Error::InvalidTokenIndex)
        } else {
            None
        },
    }
}

/// What is wrong with `segment` as a hop through a curve pool; nothing, where
/// it is on the constant-product exchange.
pub open spec fn pool_fault<B: Backends>(b: B, segment: Segment) -> Option<Error> {
    match segment {
        Segment::Dex(_) => None,
        Segment::Taiga(pool, supply_index, target_index) => taiga_fault(
            b.pool_assets(pool),
            supply_index,
            target_index,
        ),
    }
}

/// The fault of the first segment of `route`, from position `from` on, that
/// has one as a hop through a curve pool.
pub open spec fn first_pool_fault<B: Backends>(b: B, route: Seq<Segment>, from: int) -> Option<
    Error,
>
    decreases route.len() - from,
{
    if from < 0 || from >= route.len() {
        None
    } else if pool_fault(b, route[from]) is Some {
        pool_fault(b, route[from])
    } else {
        first_pool_fault(b, route, from + 1)
    }
}

/// The currency that a well-formed segment takes.
pub open spec fn source<B: Backends>(b: B, segment: Segment) -> CurrencyId {
    match segment {
        Segment::Dex(path) => path[0],
        Segment::Taiga(pool, supply_index, _) => b.pool_assets(pool).unwrap()[supply_index as int],
    }
}

/// The currency that a well-formed segment gives.
pub open spec fn target<B: Backends>(b: B, segment: Segment) -> CurrencyId {
    match segment {
        Segment::Dex(path) => path[path.len() - 1],
        Segment::Taiga(pool, _, target_index) => b.pool_assets(pool).unwrap()[target_index as int],
    }
}

/// Whether the segment at position `k` gives what the next one takes.
pub open spec fn linked<B: Backends>(b: B, route: Seq<Segment>, k: int) -> bool {
    target(b, route[k]) == source(b, route[k + 1])
}

/// The verdict on `route`: the currency it takes and the currency it gives, or
/// the error of the first rule it breaks.
pub open spec fn checked<B: Backends>(b: B, route: Seq<Segment>) -> Result<
    (CurrencyId, CurrencyId),
    Error,
> {
    if route.len() == 0 {
        Err(Error::InvalidSwapPath)
    } else if exists|k: int| 0 <= k < route.len() && is_bad_dex(#[trigger] route[k]) {
        Err(Error::InvalidSwapPath)
    } else if first_pool_fault(b, route, 0) is Some {
        Err(first_pool_fault(b, route, 0).unwrap())
    } else if exists|k: int| 0 <= k < route.len() - 1 && !#[trigger] linked(b, route, k) {
        Err(Error::InvalidSwapPath)
    } else {
        Ok((source(b, route[0]), target(b, route[route.len() - 1])))
    }
}

/// Whether `route` is well formed.
pub open spec fn valid<B: Backends>(b: B, route: Seq<Segment>) -> bool {
    checked(b, route) is Ok
}

/// Decides [`dex_segment_ok`].
pub fn dex_path_ok(path: &Vec<CurrencyId>) -> (ok: bool)
    ensures
        ok == dex_segment_ok(path@),
{
    let n = path.len();
    if n < 2 {
        return false;
    }
    let mut k: usize = 0;
    while k + 1 < n
        invariant
            n == path.len(),
            n >= 2,
            k + 1 <= n,
            forall|m: int| 0 <= m < k ==> #[trigger] step_differs(path@, m),
        decreases n - k,
    {
        if path[k] == path[k + 1] {
            assert(!step_differs(path@, k as int));
            return false;
        }
        k = k + 1;
    }
    true
}

/// Where no segment before `upto` has a fault as a hop through a pool, the
/// first such fault of the route is the first one from `upto` on.
proof fn lemma_first_pool_fault_skips<B: Backends>(b: B, route: Seq<Segment>, upto: int)
    requires
        0 <= upto <= route.len(),
        forall|m: int| 0 <= m < upto ==> pool_fault(b, #[trigger] route[m]) is None,
    ensures
        first_pool_fault(b, route, 0) == first_pool_fault(b, route, upto),
    decreases upto,
{
    if upto > 0 {
        lemma_first_pool_fault_skips(b, route, upto - 1);
    }
}

/// Checks a route against the four rules.
///
/// Returns the currency that the route takes and the currency that it gives,
/// or the error of the first rule that it breaks. Nothing is asked of the
/// exchanges but which pools exist and what their assets are.
pub fn check_swap_paths<B: Backends>(b: &B, paths: &Vec<SwapPath>) -> (verdict: Result<
    (CurrencyId, CurrencyId),
    Error,
>)
    ensures
        verdict == checked(*b, route_of(paths@)),
{
    let ghost route = route_of(paths@);
    let n = paths.len();
    if n == 0 {
        return Err(Error::InvalidSwapPath);
    }
    let mut k: usize = 0;
    while k < n
        invariant
            n == paths.len(),
            route == route_of(paths@),
            k <= n,
            forall|m: int| 0 <= m < k ==> !is_bad_dex(#[trigger] route[m]),
        decreases n - k,
    {
        match &paths[k] {
            SwapPath::Dex(path) => {
                if !dex_path_ok(path) {
                    assert(is_bad_dex(route[k as int]));
                    return Err(Error::InvalidSwapPath);
                }
            },
            SwapPath::Taiga(..) => {},
        }
        k = k + 1;
    }
    let mut ends: Vec<(CurrencyId, CurrencyId)> = Vec::new();
    k = 0;
    while k < n
        invariant
            n == paths.len(),
            route == route_of(paths@),
            k <= n,
            ends.len() == k,
            forall|m: int| 0 <= m < n ==> !is_bad_dex(#[trigger] route[m]),
            forall|m: int| 0 <= m < k ==> pool_fault(*b, #[trigger] route[m]) is None,
            forall|m: int|
                0 <= m < k ==> #[trigger] ends[m] == (source(*b, route[m]), target(*b, route[m])),
        decreases n - k,
    {
        proof {
            lemma_first_pool_fault_skips(*b, route, k as int);
        }
        match &paths[k] {
            SwapPath::Dex(path) => {
                ends.push((path[0], path[path.len() - 1]));
            },
            SwapPath::Taiga(pool, supply_index, target_index) => {
                match b.stable_pool_assets(*pool) {
                    None => {
                        return Err(Error::InvalidPoolId);
                    },
                    Some(assets) => {
                        if *supply_index == *target_index {
                            return Err(Error::InvalidSwapPath);
                        }
                        let i = *supply_index as usize;
                        let j = *target_index as usize;
                        if i >= assets.len() || j >= assets.len() {
                            return Err(Error::InvalidTokenIndex);
                        }
                        ends.push((assets[i], assets[j]));
                    },
                }
            },
        }
        k = k + 1;
    }
    proof {
        lemma_first_pool_fault_skips(*b, route, n as int);
    }
    k = 0;
    while k + 1 < n
        invariant
            n == paths.len(),
            n > 0,
            route == route_of(paths@),
            k + 1 <= n,
            ends.len() == n,
            forall|m: int| 0 <= m < n ==> !is_bad_dex(#[trigger] route[m]),
            first_pool_fault(*b, route, 0) is None,
            forall|m: int|
                0 <= m < n ==> #[trigger] ends[m] == (source(*b, route[m]), target(*b, route[m])),
            forall|m: int| 0 <= m < k ==> #[trigger] linked(*b, route, m),
        decreases n - k,
    {
        if ends[k].1 != ends[k + 1].0 {
            assert(!linked(*b, route, k as int));
            return Err(Error::InvalidSwapPath);
        }
        k = k + 1;
    }
    Ok((ends[0].0, ends[n - 1].1))
}

/// A route made only of well-formed segments on the constant-product exchange,
/// each starting from the currency in which the one before it ends, is accepted,
/// whatever pools exist. It takes the first currency of its first segment and
/// gives the last currency of its last.
pub proof fn lemma_linked_dex_route_is_accepted<B: Backends>(b: B, route: Seq<Segment>)
    requires
        route.len() > 0,
        forall|k: int|
            0 <= k < route.len() ==> (#[trigger] route[k]) is Dex && dex_segment_ok(
                route[k]->Dex_0,
            ),
        forall|k: int|
            0 <= k < route.len() - 1 ==> (#[trigger] route[k])->Dex_0.last() == route[k
                + 1]->Dex_0[0],
    ensures
        checked(b, route) == Ok::<(CurrencyId, CurrencyId), Error>(
            (route[0]->Dex_0[0], route[route.len() - 1]->Dex_0.last()),
        ),
{
    lemma_first_pool_fault_skips(b, route, route.len() as int);
    assert forall|k: int| 0 <= k < route.len() - 1 implies #[trigger] linked(b, route, k) by {
        assert(route[k]->Dex_0.last() == route[k + 1]->Dex_0[0]);
    }
}

/// A route that holds a segment on the constant-product exchange with no
/// currency, with a single currency, or with a currency followed by itself is
/// refused as malformed, whatever else it holds.
pub proof fn lemma_bad_dex_segment_is_refused<B: Backends>(b: B, route: Seq<Segment>, k: int)
    requires
        0 <= k < route.len(),
        route[k] is Dex,
        ({
            let path = route[k]->Dex_0;
            path.len() < 2 || exists|m: int|
                0 <= m < path.len() - 1 && !#[trigger] step_differs(path, m)
        }),
    ensures
        checked(b, route) == Err::<(CurrencyId, CurrencyId), Error>(Error::InvalidSwapPath),
{
    assert(is_bad_dex(route[k]));
}

/// A route of two segments, each well formed by itself, is accepted if and
/// only if the second starts from the currency in which the first ends; where
/// it does not, the route is refused as malformed.
pub proof fn lemma_two_segments_must_link<B: Backends>(b: B, first: Segment, second: Segment)
    requires
        !is_bad_dex(first),
        !is_bad_dex(second),
        pool_fault(b, first) is None,
        pool_fault(b, second) is None,
    ensures
        target(b, first) != source(b, second) ==> checked(b, seq![first, second]) == Err::<
            (CurrencyId, CurrencyId),
            Error,
        >(Error::InvalidSwapPath),
        target(b, first) == source(b, second) ==> checked(b, seq![first, second]) == Ok::<
            (CurrencyId, CurrencyId),
            Error,
        >((source(b, first), target(b, second))),
{
    let route = seq![first, second];
    lemma_first_pool_fault_skips(b, route, 2);
    if target(b, first) != source(b, second) {
        assert(!linked(b, route, 0));
    }
}

} // verus!
