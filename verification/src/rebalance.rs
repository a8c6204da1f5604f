//! The search for profitable round trips, and their execution.
//!
//! A round trip starts from a hub currency, passes through two other
//! currencies and returns to the hub. The search walks the graph of trading
//! pairs a bounded number of nodes at a time, under a lock that expires by
//! itself, and remembers where it stopped. What it proposes is executed later,
//! after the round trip has been quoted anew: the exchanges may have moved in
//! between.

use vstd::prelude::*;
use crate::backends::Backends;
use crate::engine::{do_aggregated_swap, get_aggregated_swap_amount, quoted, swapped};
use crate::registry::AggregatedDex;
use crate::types::{route_of, Balance, CurrencyId, Error, Segment, SwapLimit, SwapPath};

verus! {

/// For how long, in milliseconds, a search keeps others out.
pub const LOCK_DURATION: u64 = 100;

/// How many nodes a search examines where no other number is set.
pub const DEFAULT_MAX_ITERATIONS: u32 = 1000;

/// A node of the graph of trading pairs: a currency, and the currencies that
/// trade against it on the constant-product exchange.
#[derive(Clone, Debug, PartialEq, Eq)]
pub struct TradingNode {
    pub currency: CurrencyId,
    pub partners: Vec<CurrencyId>,
}

/// A round trip: the hub and the two currencies it passes through, in order.
pub type Triangle = (CurrencyId, CurrencyId, CurrencyId);

/// What outlives a search: until when the lock is held, the node at which the
/// last search stopped, and the number of nodes that one search may examine.
#[derive(Clone, Copy, Debug, PartialEq, Eq, Structural)]
pub struct ScannerState {
    /// The lock is held up to and including this time. `None`: never taken.
    pub lock_deadline: Option<u64>,
    /// The currency of the last node that a search took from the graph, or
    /// `None` to start from the first node.
    pub cursor: Option<CurrencyId>,
    /// How many nodes one search may examine; `None` for
    /// [`DEFAULT_MAX_ITERATIONS`].
    pub max_iterations: Option<u32>,
}

/// The record of a round trip that was executed.
#[derive(Clone, Copy, Debug, PartialEq, Eq, Structural)]
pub struct RebalanceTrading {
    pub currency_1: CurrencyId,
    pub currency_2: CurrencyId,
    pub currency_3: CurrencyId,
    pub supply_amount: Balance,
    pub target_amount: Balance,
}

/// The route of a round trip: from the hub to the first currency, then from
/// the first through the second back to the hub.
pub open spec fn round_trip(triangle: Triangle) -> Seq<Segment> {
    seq![
        Segment::Dex(seq![triangle.0, triangle.1]),
        Segment::Dex(seq![triangle.1, triangle.2, triangle.0]),
    ]
}

/// What the round trip gives back for `supply`, if it can be served.
pub open spec fn round_trip_return<B: Backends>(b: B, triangle: Triangle, supply: Balance)
    -> Option<Balance> {
    match quoted(b, round_trip(triangle), SwapLimit::ExactSupply(supply, 0)) {
        Some((_, given)) => Some(given),
        None => None,
    }
}

/// Whether the round trip gives back more than `threshold` for `supply`.
pub open spec fn profitable<B: Backends>(
    b: B,
    triangle: Triangle,
    supply: Balance,
    threshold: Balance,
) -> bool {
    match round_trip_return(b, triangle, supply) {
        Some(given) => given > threshold,
        None => false,
    }
}

/// The first profitable round trip from `hub` through two of `partners`, the
/// first of the two standing before the second; the pairs are tried in the order
/// of their positions, from the pair at `(i, j)` on.
pub open spec fn first_profitable<B: Backends>(
    b: B,
    hub: CurrencyId,
    partners: Seq<CurrencyId>,
    supply: Balance,
    threshold: Balance,
    i: int,
    j: int,
) -> Option<Triangle>
    decreases partners.len() - i, partners.len() - j,
{
    if i < 0 || j <= i || i + 1 >= partners.len() {
        None
    } else if j >= partners.len() {
        first_profitable(b, hub, partners, supply, threshold, i + 1, i + 2)
    } else if profitable(b, (hub, partners[i], partners[j]), supply, threshold) {
        Some((hub, partners[i], partners[j]))
    } else {
        first_profitable(b, hub, partners, supply, threshold, i, j + 1)
    }
}

/// What examining a node finds: the first profitable round trip from it, where
/// it is a hub currency; nothing, where it is not.
pub open spec fn node_find<B: Backends>(
    b: B,
    thresholds: Map<CurrencyId, (Balance, Balance)>,
    node: TradingNode,
) -> Option<Triangle> {
    if thresholds.contains_key(node.currency) {
        first_profitable(
            b,
            node.currency,
            node.partners@,
            thresholds[node.currency].0,
            thresholds[node.currency].1,
            0,
            1,
        )
    } else {
        None
    }
}

/// The position of the first node of `graph`, from position `from` on, whose
/// currency is `currency`.
pub open spec fn position_of(graph: Seq<TradingNode>, currency: CurrencyId, from: int) -> Option<
    int,
>
    decreases graph.len() - from,
{
    if from < 0 || from >= graph.len() {
        None
    } else if graph[from].currency == currency {
        Some(from)
    } else {
        position_of(graph, currency, from + 1)
    }
}

/// Where a search starts: behind the node that the cursor names, or at the
/// first node where there is no cursor or the graph does not hold its node.
pub open spec fn resume_at(graph: Seq<TradingNode>, cursor: Option<CurrencyId>) -> int {
    match cursor {
        Some(currency) => match position_of(graph, currency, 0) {
            Some(at) => at + 1,
            None => 0,
        },
        None => 0,
    }
}

/// What a search finds and where it stops, when it is at position `at` with
/// `left` nodes still to examine and `last` the cursor so far.
///
/// With nothing left to examine the search stops, and the cursor stays. At the
/// end of the graph it stops too, and the cursor is cleared. A node with fewer
/// than two partners is passed over without being counted. Any other node is
/// examined and counted. If a round trip is found the search stops: the cursor
/// is cleared where that node was the last of the graph and the search could
/// have examined more, and names that node otherwise.
pub open spec fn scan_from<B: Backends>(
    b: B,
    thresholds: Map<CurrencyId, (Balance, Balance)>,
    graph: Seq<TradingNode>,
    at: int,
    left: nat,
    last: Option<CurrencyId>,
) -> (Option<Triangle>, Option<CurrencyId>)
    decreases graph.len() - at,
{
    if left == 0 {
        (None, last)
    } else if at < 0 || at >= graph.len() {
        (None, None)
    } else if graph[at].partners@.len() < 2 {
        scan_from(b, thresholds, graph, at + 1, left, Some(graph[at].currency))
    } else {
        match node_find(b, thresholds, graph[at]) {
            Some(triangle) => (
                Some(triangle),
                if at + 1 >= graph.len() && left > 1 {
                    None
                } else {
                    Some(graph[at].currency)
                },
            ),
            None => scan_from(
                b,
                thresholds,
                graph,
                at + 1,
                (left - 1) as nat,
                Some(graph[at].currency),
            ),
        }
    }
}

/// How many of the nodes of `graph` at the positions from `from` up to, not
/// including, `to` have two partners or more.
pub open spec fn examined_between(graph: Seq<TradingNode>, from: int, to: int) -> nat
    decreases to - from,
{
    if from >= to || from < 0 || to > graph.len() {
        0
    } else if graph[from].partners@.len() < 2 {
        examined_between(graph, from + 1, to)
    } else {
        1 + examined_between(graph, from + 1, to)
    }
}

/// Whether the lock is held at the time `now`.
pub open spec fn lock_held(deadline: Option<u64>, now: u64) -> bool {
    match deadline {
        Some(until) => now <= until,
        None => false,
    }
}

/// The deadline of a lock taken at the time `now`.
pub open spec fn deadline_from(now: u64) -> u64 {
    if now + LOCK_DURATION > u64::MAX {
        u64::MAX
    } else {
        (now + LOCK_DURATION) as u64
    }
}

/// The state and the result of executing a round trip: nothing happens where
/// the hub has no amounts set or the round trip, quoted now, does not give back
/// more than the threshold; otherwise it is executed for the treasury.
pub open spec fn rebalanced<B: Backends>(b: B, dex: AggregatedDex, triangle: Triangle) -> (
    B,
    Result<Option<RebalanceTrading>, Error>,
) {
    if !dex.thresholds().contains_key(triangle.0) {
        (b, Ok(None))
    } else {
        let (supply, threshold) = dex.thresholds()[triangle.0];
        if !profitable(b, triangle, supply, threshold) {
            (b, Ok(None))
        } else {
            let (after, done) = swapped(
                b,
                dex.treasury(),
                round_trip(triangle),
                SwapLimit::ExactSupply(supply, 0),
            );
            match done {
                Ok((taken, given)) => (
                    after,
                    Ok(
                        Some(
                            RebalanceTrading {
                                currency_1: triangle.0,
                                currency_2: triangle.1,
                                currency_3: triangle.2,
                                supply_amount: taken,
                                target_amount: given,
                            },
                        ),
                    ),
                ),
                Err(e) => (after, Err(e)),
            }
        }
    }
}

/// Builds the route of a round trip.
fn round_trip_paths(triangle: Triangle) -> (paths: Vec<SwapPath>)
    ensures
        route_of(paths@) == round_trip(triangle),
{
    let mut out: Vec<CurrencyId> = Vec::new();
    out.push(triangle.0);
    out.push(triangle.1);
    let mut back: Vec<CurrencyId> = Vec::new();
    back.push(triangle.1);
    back.push(triangle.2);
    back.push(triangle.0);
    assert(out@ =~= seq![triangle.0, triangle.1]);
    assert(back@ =~= seq![triangle.1, triangle.2, triangle.0]);
    let mut paths: Vec<SwapPath> = Vec::new();
    paths.push(SwapPath::Dex(out));
    paths.push(SwapPath::Dex(back));
    paths
}

/// Decides [`profitable`].
pub fn is_profitable<B: Backends>(b: &B, triangle: Triangle, supply: Balance, threshold: Balance)
    -> (yes: bool)
    ensures
        yes == profitable(*b, triangle, supply, threshold),
{
    let paths = round_trip_paths(triangle);
    match get_aggregated_swap_amount(b, &paths, SwapLimit::ExactSupply(supply, 0)) {
        Some((_, given)) => given > threshold,
        None => false,
    }
}

/// Examines a node.
fn examine<B: Backends>(b: &B, dex: &AggregatedDex, node: &TradingNode) -> (found: Option<
    Triangle,
>)
    ensures
        found == node_find(*b, dex.thresholds(), *node),
{
    let (supply, threshold) = match dex.rebalance_supply_threshold(node.currency) {
        Some(amounts) => amounts,
        None => {
            return None;
        },
    };
    let hub = node.currency;
    let n = node.partners.len();
    if n < 2 {
        return None;
    }
    let mut i: usize = 0;
    let mut j: usize = 1;
    while i + 1 < n
        invariant
            n == node.partners.len(),
            hub == node.currency,
            i < j <= n,
            dex.thresholds().contains_key(hub),
            dex.thresholds()[hub] == (supply, threshold),
            first_profitable(*b, hub, node.partners@, supply, threshold, 0, 1) == first_profitable(
                *b,
                hub,
                node.partners@,
                supply,
                threshold,
                i as int,
                j as int,
            ),
        decreases n - i, n - j,
    {
        if j >= n {
            i = i + 1;
            j = i + 1;
        } else {
            let triangle = (hub, node.partners[i], node.partners[j]);
            if is_profitable(b, triangle, supply, threshold) {
                return Some(triangle);
            }
            j = j + 1;
        }
    }
    None
}

/// Finds where a search starts.
fn find_start(graph: &Vec<TradingNode>, cursor: Option<CurrencyId>) -> (at: usize)
    ensures
        at == resume_at(graph@, cursor),
        at <= graph.len(),
{
    let currency = match cursor {
        Some(currency) => currency,
        None => {
            return 0;
        },
    };
    let mut k: usize = 0;
    while k < graph.len()
        invariant
            k <= graph.len(),
            cursor == Some(currency),
            position_of(graph@, currency, 0) == position_of(graph@, currency, k as int),
        decreases graph.len() - k,
    {
        if graph[k].currency == currency {
            return k + 1;
        }
        k = k + 1;
    }
    0
}

/// Searches the graph for a profitable round trip, from the node behind the
/// cursor on, examining at most `max_nodes` nodes.
///
/// Returns the first round trip found, if any, and the new cursor: see
/// [`scan_from`].
pub fn scan<B: Backends>(
    b: &B,
    dex: &AggregatedDex,
    graph: &Vec<TradingNode>,
    cursor: Option<CurrencyId>,
    max_nodes: u32,
) -> (found: (Option<Triangle>, Option<CurrencyId>))
    ensures
        found == scan_from(
            *b,
            dex.thresholds(),
            graph@,
            resume_at(graph@, cursor),
            max_nodes as nat,
            cursor,
        ),
{
    let ghost whole = scan_from(
        *b,
        dex.thresholds(),
        graph@,
        resume_at(graph@, cursor),
        max_nodes as nat,
        cursor,
    );
    let n = graph.len();
    let mut at = find_start(graph, cursor);
    let mut left = max_nodes;
    let mut last = cursor;
    while left > 0 && at < n
        invariant
            n == graph.len(),
            at <= n,
            whole == scan_from(
                *b,
                dex.thresholds(),
                graph@,
                resume_at(graph@, cursor),
                max_nodes as nat,
                cursor,
            ),
            whole == scan_from(*b, dex.thresholds(), graph@, at as int, left as nat, last),
        decreases n - at,
    {
        let node = &graph[at];
        if node.partners.len() >= 2 {
            match examine(b, dex, node) {
                Some(triangle) => {
                    let stop = if at + 1 >= n && left > 1 {
                        None
                    } else {
                        Some(node.currency)
                    };
                    return (Some(triangle), stop);
                },
                None => {
                    left = left - 1;
                },
            }
        }
        last = Some(node.currency);
        at = at + 1;
    }
    if left == 0 {
        (None, last)
    } else {
        (None, None)
    }
}

/// Takes the lock at the time `now`, if it is not held: returns the new
/// deadline, or `None` where the lock is held.
pub fn try_lock(deadline: Option<u64>, now: u64) -> (taken: Option<u64>)
    ensures
        taken == if lock_held(deadline, now) {
            None
        } else {
            Some(deadline_from(now))
        },
{
    if let Some(until) = deadline {
        if now <= until {
            return None;
        }
    }
    Some(now.saturating_add(LOCK_DURATION))
}

/// One run of the search, at the time `now`.
///
/// Where the lock is held, nothing is searched and the state stays as it is.
/// Otherwise the lock is taken until [`deadline_from`]`(now)` and is not given
/// back; the graph is searched from the cursor of the state on, for at most as
/// many nodes as the state allows; the cursor of the state becomes the one that
/// the search stopped at. Returns the round trip to propose, if one was found.
pub fn offchain_worker<B: Backends>(
    b: &B,
    dex: &AggregatedDex,
    graph: &Vec<TradingNode>,
    state: &mut ScannerState,
    now: u64,
) -> (proposal: Option<Triangle>)
    ensures
        lock_held(old(state).lock_deadline, now) ==> proposal is None && *final(state) == *old(
            state,
        ),
        !lock_held(old(state).lock_deadline, now) ==> {
            &&& final(state).lock_deadline == Some(deadline_from(now))
            &&& final(state).max_iterations == old(state).max_iterations
            &&& (proposal, final(state).cursor) == scan_from(
                *b,
                dex.thresholds(),
                graph@,
                resume_at(graph@, old(state).cursor),
                match old(state).max_iterations {
                    Some(max) => max as nat,
                    None => DEFAULT_MAX_ITERATIONS as nat,
                },
                old(state).cursor,
            )
        },
{
    let deadline = match try_lock(state.lock_deadline, now) {
        Some(deadline) => deadline,
        None => {
            return None;
        },
    };
    let max_nodes = match state.max_iterations {
        Some(max) => max,
        None => DEFAULT_MAX_ITERATIONS,
    };
    let (proposal, cursor) = scan(b, dex, graph, state.cursor, max_nodes);
    state.lock_deadline = Some(deadline);
    state.cursor = cursor;
    proposal
}

/// Executes a proposed round trip, if it is still worth it.
///
/// The round trip is quoted anew against the amounts set for its hub. Where
/// the hub has none, or the round trip does not give back more than the
/// threshold, nothing happens and the result is `Ok(None)`. Otherwise the round
/// trip is executed for the treasury, as one atomic operation, and the result is
/// its record; if the execution fails, the error says why and nothing has
/// changed.
pub fn rebalance_swap<B: Backends>(
    b: &mut B,
    dex: &AggregatedDex,
    currency_1: CurrencyId,
    currency_2: CurrencyId,
    currency_3: CurrencyId,
) -> (done: Result<Option<RebalanceTrading>, Error>)
    ensures
        (*final(b), done) == rebalanced(*old(b), *dex, (currency_1, currency_2, currency_3)),
        !(done matches Ok(Some(_))) ==> *final(b) == *old(b),
        final(b).scope_base() == old(b).scope_base(),
{
    let triangle = (currency_1, currency_2, currency_3);
    let (supply, threshold) = match dex.rebalance_supply_threshold(currency_1) {
        Some(amounts) => amounts,
        None => {
            return Ok(None);
        },
    };
    if !is_profitable(&*b, triangle, supply, threshold) {
        return Ok(None);
    }
    let paths = round_trip_paths(triangle);
    match do_aggregated_swap(
        b,
        dex.treasury_account(),
        &paths,
        SwapLimit::ExactSupply(supply, 0),
    ) {
        Ok((taken, given)) => Ok(
            Some(
                RebalanceTrading {
                    currency_1,
                    currency_2,
                    currency_3,
                    supply_amount: taken,
                    target_amount: given,
                },
            ),
        ),
        Err(e) => Err(e),
    }
}

/// A search that examines as many nodes as it may, and finds nothing in them,
/// stops at the last node it examined: the new cursor names that node, whether
/// or not nodes follow it.
pub proof fn lemma_scan_stops_at_budget<B: Backends>(
    b: B,
    thresholds: Map<CurrencyId, (Balance, Balance)>,
    graph: Seq<TradingNode>,
    at: int,
    left: nat,
    last: Option<CurrencyId>,
    stop: int,
)
    requires
        0 <= at <= stop < graph.len(),
        left > 0,
        graph[stop].partners@.len() >= 2,
        examined_between(graph, at, stop) == left - 1,
        forall|k: int| at <= k <= stop ==> node_find(b, thresholds, #[trigger] graph[k]) is None,
    ensures
        scan_from(b, thresholds, graph, at, left, last) == (
            None::<Triangle>,
            Some(graph[stop].currency),
        ),
    decreases stop - at,
{
    if at == stop {
        assert(scan_from(b, thresholds, graph, at + 1, 0, Some(graph[at].currency)) == (
            None::<Triangle>,
            Some(graph[at].currency),
        ));
    } else if graph[at].partners@.len() < 2 {
        lemma_scan_stops_at_budget(b, thresholds, graph, at + 1, left, Some(graph[at].currency), stop);
    } else {
        lemma_scan_stops_at_budget(
            b,
            thresholds,
            graph,
            at + 1,
            (left - 1) as nat,
            Some(graph[at].currency),
            stop,
        );
    }
}

/// A search that may not examine more nodes than lie before it stops inside
/// the graph: where the graph holds, from the position of the search on, at
/// least as many nodes with two partners or more as the search may examine, the
/// new cursor is not cleared. It names a node that the search has reached
/// within what it may examine.
pub proof fn lemma_scan_within_budget_keeps_a_cursor<B: Backends>(
    b: B,
    thresholds: Map<CurrencyId, (Balance, Balance)>,
    graph: Seq<TradingNode>,
    at: int,
    left: nat,
    last: Option<CurrencyId>,
) -> (stop: int)
    requires
        0 <= at <= graph.len(),
        left > 0,
        examined_between(graph, at, graph.len() as int) >= left,
    ensures
        at <= stop < graph.len(),
        graph[stop].partners@.len() >= 2,
        1 <= examined_between(graph, at, stop + 1) <= left,
        scan_from(b, thresholds, graph, at, left, last).1 == Some(graph[stop].currency),
    decreases graph.len() - at,
{
    let end = graph.len() as int;
    let here = Some(graph[at].currency);
    assert(at < end);
    if graph[at].partners@.len() < 2 {
        let stop = lemma_scan_within_budget_keeps_a_cursor(b, thresholds, graph, at + 1, left, here);
        lemma_examined_splits(graph, at, at + 1, stop + 1);
        stop
    } else if node_find(b, thresholds, graph[at]) is Some || left == 1 {
        assert(examined_between(graph, at + 1, at + 1) == 0);
        if at + 1 >= end {
            assert(examined_between(graph, at + 1, end) == 0);
        }
        if node_find(b, thresholds, graph[at]) is None {
            assert(scan_from(b, thresholds, graph, at + 1, 0, here) == (None::<Triangle>, here));
        }
        at
    } else {
        let stop = lemma_scan_within_budget_keeps_a_cursor(
            b,
            thresholds,
            graph,
            at + 1,
            (left - 1) as nat,
            here,
        );
        lemma_examined_splits(graph, at, at + 1, stop + 1);
        stop
    }
}

/// The nodes with two partners or more between two positions are those up to
/// a position in between and those from it on.
proof fn lemma_examined_splits(graph: Seq<TradingNode>, from: int, mid: int, to: int)
    requires
        0 <= from <= mid <= to <= graph.len(),
    ensures
        examined_between(graph, from, to) == examined_between(graph, from, mid) + examined_between(
            graph,
            mid,
            to,
        ),
    decreases mid - from,
{
    if from < mid {
        lemma_examined_splits(graph, from + 1, mid, to);
    }
}

} // verus!
