//! The routing engine against exchanges that answer from a script, so that
//! each decision of the engine can be seen by itself, also where an exchange
//! misbehaves.

use aggregated_dex::rebalance::{
    offchain_worker, rebalance_swap, scan, try_lock, ScannerState, TradingNode,
    DEFAULT_MAX_ITERATIONS, LOCK_DURATION,
};
use aggregated_dex::registry::{copy_paths, AggregatedDex, Update};
use aggregated_dex::router::{
    AggregatedSwap, DexSwap, EitherDexOrTaigaSwap, TaigaSwap, Venue,
};
use aggregated_dex::validator::dex_path_ok;
use aggregated_dex::{
    check_swap_paths, do_aggregated_swap, get_aggregated_swap_amount, AccountId, BackendError,
    Backends, Balance, CurrencyId, Error, PoolId, PoolTokenIndex, SwapLimit, SwapPath,
};

const A: CurrencyId = CurrencyId(10);
const B: CurrencyId = CurrencyId(20);
const C: CurrencyId = CurrencyId(30);
const D: CurrencyId = CurrencyId(40);

const TRADER: AccountId = AccountId(7);
const CONTROLLER: AccountId = AccountId(1);
const TREASURY: AccountId = AccountId(2);

const REFUSED: BackendError = BackendError(77);
const UNSCRIPTED: BackendError = BackendError(404);

/// Exchanges that answer what the script says, and `None` or `UNSCRIPTED` to
/// everything else. Every swap asked of them is written to the journal, whether
/// or not it succeeds.
#[derive(Clone, Debug, Default, PartialEq)]
struct Script {
    dex_quotes: Vec<(Vec<CurrencyId>, SwapLimit, (Balance, Balance))>,
    dex_swaps: Vec<(Vec<CurrencyId>, SwapLimit, Result<(Balance, Balance), BackendError>)>,
    pools: Vec<Vec<CurrencyId>>,
    best_routes: Vec<((CurrencyId, CurrencyId, Balance), (PoolId, PoolTokenIndex, PoolTokenIndex, Balance))>,
    pool_outputs: Vec<((PoolId, PoolTokenIndex, PoolTokenIndex, Balance), (Balance, Balance))>,
    pool_inputs: Vec<((PoolId, PoolTokenIndex, PoolTokenIndex, Balance), (Balance, Balance))>,
    pool_swaps: Vec<(
        (PoolId, PoolTokenIndex, PoolTokenIndex, Balance, Balance),
        Result<(Balance, Balance), BackendError>,
    )>,
    journal: Vec<String>,
    scopes: Vec<Vec<String>>,
}

impl Backends for Script {
    fn dex_get_swap_amount(&self, path: &Vec<CurrencyId>, limit: SwapLimit) -> Option<(Balance, Balance)> {
        self.dex_quotes.iter().find(|q| q.0 == *path && q.1 == limit).map(|q| q.2)
    }

    fn dex_swap_with_specific_path(
        &mut self,
        who: AccountId,
        path: &Vec<CurrencyId>,
        limit: SwapLimit,
    ) -> Result<(Balance, Balance), BackendError> {
        self.journal.push(format!("dex {:?} {:?} {:?}", who, path, limit));
        match self.dex_swaps.iter().find(|q| q.0 == *path && q.1 == limit) {
            Some(found) => found.2,
            None => Err(UNSCRIPTED),
        }
    }

    fn stable_pool_assets(&self, pool: PoolId) -> Option<Vec<CurrencyId>> {
        self.pools.get(pool as usize).cloned()
    }

    fn stable_get_best_route(
        &self,
        supply: CurrencyId,
        target: CurrencyId,
        amount: Balance,
    ) -> Option<(PoolId, PoolTokenIndex, PoolTokenIndex, Balance)> {
        self.best_routes.iter().find(|q| q.0 == (supply, target, amount)).map(|q| q.1)
    }

    fn stable_get_swap_output_amount(
        &self,
        pool: PoolId,
        supply_index: PoolTokenIndex,
        target_index: PoolTokenIndex,
        supply_amount: Balance,
    ) -> Option<(Balance, Balance)> {
        let key = (pool, supply_index, target_index, supply_amount);
        self.pool_outputs.iter().find(|q| q.0 == key).map(|q| q.1)
    }

    fn stable_get_swap_input_amount(
        &self,
        pool: PoolId,
        supply_index: PoolTokenIndex,
        target_index: PoolTokenIndex,
        target_amount: Balance,
    ) -> Option<(Balance, Balance)> {
        let key = (pool, supply_index, target_index, target_amount);
        self.pool_inputs.iter().find(|q| q.0 == key).map(|q| q.1)
    }

    fn stable_swap(
        &mut self,
        who: AccountId,
        pool: PoolId,
        supply_index: PoolTokenIndex,
        target_index: PoolTokenIndex,
        supply_amount: Balance,
        min_target: Balance,
    ) -> Result<(Balance, Balance), BackendError> {
        let key = (pool, supply_index, target_index, supply_amount, min_target);
        self.journal.push(format!("pool {:?} {:?}", who, key));
        match self.pool_swaps.iter().find(|q| q.0 == key) {
            Some(found) => found.1,
            None => Err(UNSCRIPTED),
        }
    }

    fn begin_scope(&mut self) {
        self.scopes.push(self.journal.clone());
    }

    fn commit_scope(&mut self) {
        self.scopes.pop().expect("a scope is open");
    }

    fn rollback_scope(&mut self) {
        self.journal = self.scopes.pop().expect("a scope is open");
    }
}

fn supply(amount: Balance) -> SwapLimit {
    SwapLimit::ExactSupply(amount, 0)
}

fn any_supply(amount: Balance) -> SwapLimit {
    SwapLimit::ExactTarget(u128::MAX, amount)
}

fn dex_segment(path: &[CurrencyId]) -> SwapPath {
    SwapPath::Dex(path.to_vec())
}

fn new_dex() -> AggregatedDex {
    AggregatedDex::new(CONTROLLER, TREASURY, 3)
}

// ---- the four rules ----

#[test]
fn linked_dex_routes_are_accepted_with_their_ends() {
    let script = Script::default();
    assert_eq!(check_swap_paths(&script, &vec![dex_segment(&[A, B])]), Ok((A, B)));
    assert_eq!(check_swap_paths(&script, &vec![dex_segment(&[A, B, A, C])]), Ok((A, C)));
    assert_eq!(
        check_swap_paths(&script, &vec![dex_segment(&[A, B]), dex_segment(&[B, C, D])]),
        Ok((A, D))
    );
    // A route may end where it began.
    assert_eq!(
        check_swap_paths(&script, &vec![dex_segment(&[A, B]), dex_segment(&[B, A])]),
        Ok((A, A))
    );
}

#[test]
fn a_bad_dex_segment_is_refused_wherever_it_stands() {
    let script = Script { pools: vec![vec![A, B]], ..Script::default() };
    for bad in [vec![], vec![A], vec![A, A], vec![A, B, B], vec![A, A, B]] {
        assert_eq!(dex_path_ok(&bad), false);
        assert_eq!(
            check_swap_paths(&script, &vec![SwapPath::Dex(bad.clone())]),
            Err(Error::InvalidSwapPath)
        );
        assert_eq!(
            check_swap_paths(&script, &vec![dex_segment(&[A, B]), SwapPath::Dex(bad.clone())]),
            Err(Error::InvalidSwapPath)
        );
        // The rule on these segments comes before the rule on pools.
        assert_eq!(
            check_swap_paths(&script, &vec![SwapPath::Taiga(9, 0, 1), SwapPath::Dex(bad.clone())]),
            Err(Error::InvalidSwapPath)
        );
    }
    assert_eq!(dex_path_ok(&vec![A, B]), true);
    assert_eq!(dex_path_ok(&vec![A, B, A]), true);
}

#[test]
fn pool_segments_are_judged_by_pool_then_positions() {
    let script = Script { pools: vec![vec![A, B, C]], ..Script::default() };
    assert_eq!(check_swap_paths(&script, &vec![SwapPath::Taiga(0, 0, 2)]), Ok((A, C)));
    assert_eq!(check_swap_paths(&script, &vec![SwapPath::Taiga(0, 2, 1)]), Ok((C, B)));
    assert_eq!(check_swap_paths(&script, &vec![SwapPath::Taiga(1, 0, 1)]), Err(Error::InvalidPoolId));
    assert_eq!(check_swap_paths(&script, &vec![SwapPath::Taiga(1, 0, 0)]), Err(Error::InvalidPoolId));
    assert_eq!(check_swap_paths(&script, &vec![SwapPath::Taiga(0, 1, 1)]), Err(Error::InvalidSwapPath));
    assert_eq!(check_swap_paths(&script, &vec![SwapPath::Taiga(0, 3, 3)]), Err(Error::InvalidSwapPath));
    assert_eq!(check_swap_paths(&script, &vec![SwapPath::Taiga(0, 3, 1)]), Err(Error::InvalidTokenIndex));
    assert_eq!(check_swap_paths(&script, &vec![SwapPath::Taiga(0, 1, 3)]), Err(Error::InvalidTokenIndex));
    // The first pool segment at fault decides.
    assert_eq!(
        check_swap_paths(&script, &vec![SwapPath::Taiga(0, 0, 5), SwapPath::Taiga(4, 0, 1)]),
        Err(Error::InvalidTokenIndex)
    );
    // The rule on pools comes before the rule on links.
    assert_eq!(
        check_swap_paths(
            &script,
            &vec![dex_segment(&[A, B]), dex_segment(&[C, D]), SwapPath::Taiga(4, 0, 1)]
        ),
        Err(Error::InvalidPoolId)
    );
}

#[test]
fn two_segments_must_link() {
    let script = Script { pools: vec![vec![A, B]], ..Script::default() };
    let broken = vec![SwapPath::Taiga(0, 0, 1), dex_segment(&[C, B])];
    assert_eq!(check_swap_paths(&script, &broken), Err(Error::InvalidSwapPath));
    let mended = vec![SwapPath::Taiga(0, 0, 1), dex_segment(&[B, C])];
    assert_eq!(check_swap_paths(&script, &mended), Ok((A, C)));

    let broken = vec![dex_segment(&[C, D]), dex_segment(&[C, A])];
    assert_eq!(check_swap_paths(&script, &broken), Err(Error::InvalidSwapPath));
    let mended = vec![dex_segment(&[C, D]), dex_segment(&[D, A])];
    assert_eq!(check_swap_paths(&script, &mended), Ok((C, A)));
}

// ---- quotes ----

fn two_hop_script() -> Script {
    Script {
        pools: vec![vec![A, B]],
        pool_outputs: vec![((0, 0, 1, 100), (100, 90)), ((0, 0, 1, 60), (60, 55))],
        pool_inputs: vec![((0, 0, 1, 50), (60, 50))],
        dex_quotes: vec![
            (vec![B, C], supply(90), (90, 80)),
            (vec![B, C], supply(55), (55, 41)),
            (vec![B, C], any_supply(40), (50, 40)),
        ],
        pool_swaps: vec![((0, 0, 1, 100, 0), Ok((100, 91))), ((0, 0, 1, 60, 0), Ok((60, 55)))],
        dex_swaps: vec![
            (vec![B, C], supply(91), Ok((91, 81))),
            (vec![B, C], supply(55), Ok((55, 41))),
        ],
        ..Script::default()
    }
}

fn two_hops() -> Vec<SwapPath> {
    vec![SwapPath::Taiga(0, 0, 1), dex_segment(&[B, C])]
}

#[test]
fn a_quote_feeds_each_hop_what_the_hop_before_gave() {
    let script = two_hop_script();
    assert_eq!(
        get_aggregated_swap_amount(&script, &two_hops(), SwapLimit::ExactSupply(100, 0)),
        Some((100, 80))
    );
    assert_eq!(
        get_aggregated_swap_amount(&script, &two_hops(), SwapLimit::ExactSupply(100, 80)),
        Some((100, 80))
    );
    assert_eq!(
        get_aggregated_swap_amount(&script, &two_hops(), SwapLimit::ExactSupply(100, 81)),
        None
    );
    // The second hop has no answer for what the first gives for 60.
    let mut script = script;
    script.dex_quotes.remove(1);
    assert_eq!(get_aggregated_swap_amount(&script, &two_hops(), SwapLimit::ExactSupply(60, 0)), None);
    // The first hop has no answer.
    assert_eq!(get_aggregated_swap_amount(&script, &two_hops(), SwapLimit::ExactSupply(7, 0)), None);
}

#[test]
fn a_quote_for_a_target_walks_back_and_then_forward() {
    let script = two_hop_script();
    // Back: 40 needs 50 of B, which needs 60 of A. Forward from 60: 55 of B,
    // then 41 of C.
    assert_eq!(
        get_aggregated_swap_amount(&script, &two_hops(), SwapLimit::ExactTarget(60, 40)),
        Some((60, 41))
    );
    assert_eq!(
        get_aggregated_swap_amount(&script, &two_hops(), SwapLimit::ExactTarget(u128::MAX, 40)),
        Some((60, 41))
    );
    assert_eq!(
        get_aggregated_swap_amount(&script, &two_hops(), SwapLimit::ExactTarget(59, 40)),
        None
    );
    // No hop can say what it needs for 39.
    assert_eq!(
        get_aggregated_swap_amount(&script, &two_hops(), SwapLimit::ExactTarget(60, 39)),
        None
    );
}

#[test]
fn a_quote_for_a_target_never_gives_less_than_the_target() {
    let mut script = two_hop_script();
    // Forward from 60 the route now gives 39, less than the 40 asked for.
    script.dex_quotes[1] = (vec![B, C], supply(55), (55, 39));
    assert_eq!(
        get_aggregated_swap_amount(&script, &two_hops(), SwapLimit::ExactTarget(60, 40)),
        None
    );
}

#[test]
fn a_malformed_route_has_no_quote() {
    let script = two_hop_script();
    assert_eq!(get_aggregated_swap_amount(&script, &vec![], supply(100)), None);
    assert_eq!(
        get_aggregated_swap_amount(
            &script,
            &vec![SwapPath::Taiga(0, 0, 1), dex_segment(&[C, B])],
            supply(100)
        ),
        None
    );
}

// ---- execution ----

#[test]
fn a_route_is_executed_forward_from_the_quoted_supply() {
    let mut script = two_hop_script();
    // The pool gives 91 where it quoted 90; the next hop is given the 91.
    assert_eq!(
        do_aggregated_swap(&mut script, TRADER, &two_hops(), SwapLimit::ExactSupply(100, 0)),
        Ok((100, 81))
    );
    assert_eq!(script.journal.len(), 2);
    assert!(script.journal[0].starts_with("pool"));
    assert!(script.journal[1].starts_with("dex"));
    assert!(script.scopes.is_empty());

    let mut script = two_hop_script();
    assert_eq!(
        do_aggregated_swap(&mut script, TRADER, &two_hops(), SwapLimit::ExactTarget(60, 40)),
        Ok((60, 41))
    );
    assert_eq!(script.journal.len(), 2);
}

#[test]
fn a_refusal_at_the_second_hop_undoes_the_first() {
    let mut script = two_hop_script();
    script.dex_swaps[0] = (vec![B, C], supply(91), Err(REFUSED));
    let before = script.clone();
    assert_eq!(
        do_aggregated_swap(&mut script, TRADER, &two_hops(), SwapLimit::ExactSupply(100, 0)),
        Err(Error::Backend(REFUSED))
    );
    assert_eq!(script, before);
}

#[test]
fn a_route_that_gives_too_little_is_undone() {
    let mut script = two_hop_script();
    // Quoted 80, but the exchange gives 70.
    script.dex_swaps[0] = (vec![B, C], supply(91), Ok((91, 70)));
    let before = script.clone();
    assert_eq!(
        do_aggregated_swap(&mut script, TRADER, &two_hops(), SwapLimit::ExactSupply(100, 75)),
        Err(Error::CannotSwap)
    );
    assert_eq!(script, before);
    assert_eq!(
        do_aggregated_swap(&mut script, TRADER, &two_hops(), SwapLimit::ExactSupply(100, 70)),
        Ok((100, 70))
    );
}

#[test]
fn a_route_without_quote_is_not_executed() {
    let mut script = two_hop_script();
    let before = script.clone();
    assert_eq!(
        do_aggregated_swap(&mut script, TRADER, &two_hops(), SwapLimit::ExactSupply(7, 0)),
        Err(Error::CannotSwap)
    );
    assert_eq!(
        do_aggregated_swap(&mut script, TRADER, &vec![], SwapLimit::ExactSupply(100, 0)),
        Err(Error::InvalidSwapPath)
    );
    assert_eq!(
        do_aggregated_swap(&mut script, TRADER, &vec![SwapPath::Taiga(3, 0, 1)], supply(100)),
        Err(Error::InvalidPoolId)
    );
    assert_eq!(
        do_aggregated_swap(&mut script, TRADER, &vec![SwapPath::Taiga(0, 0, 2)], supply(100)),
        Err(Error::InvalidTokenIndex)
    );
    assert_eq!(script, before);
}

#[test]
fn an_outer_scope_stays_open() {
    let mut script = two_hop_script();
    script.begin_scope();
    assert!(do_aggregated_swap(&mut script, TRADER, &two_hops(), supply(100)).is_ok());
    assert_eq!(script.scopes.len(), 1);
    script.rollback_scope();
    assert!(script.journal.is_empty());
}

// ---- the four providers ----

#[test]
fn the_first_path_that_can_be_served_is_taken() {
    let limit = supply(100);
    let script = Script {
        dex_quotes: vec![
            (vec![A, C, B], limit, (100, 50)),
            (vec![A, D, B], limit, (100, 90)),
        ],
        dex_swaps: vec![(vec![A, C, B], limit, Ok((100, 50)))],
        ..Script::default()
    };
    let joints = vec![vec![D, D], vec![C], vec![D]];
    assert_eq!(
        DexSwap::find_route(&script, &joints, A, B, limit),
        Some((vec![A, C, B], (100, 50)))
    );
    assert_eq!(DexSwap::get_swap_amount(&script, &joints, A, B, limit), Some((100, 50)));
    assert_eq!(DexSwap::get_swap_amount(&script, &vec![vec![D], vec![C]], A, B, limit), Some((100, 90)));
    assert_eq!(DexSwap::get_swap_amount(&script, &vec![], A, B, limit), None);

    let mut script = script;
    assert_eq!(DexSwap::swap(&mut script, TRADER, &joints, A, B, limit), Ok((100, 50)));
    assert_eq!(script.journal.len(), 1);

    // The direct path comes first.
    script.dex_quotes.push((vec![A, B], limit, (100, 10)));
    assert_eq!(DexSwap::get_swap_amount(&script, &joints, A, B, limit), Some((100, 10)));
}

#[test]
fn amounts_that_break_the_limit_are_refused_and_undone() {
    let limit = SwapLimit::ExactTarget(100, 50);
    let mut script = Script {
        dex_swaps: vec![
            (vec![A, B], limit, Ok((101, 50))),
            (vec![A, C], limit, Ok((100, 49))),
            (vec![A, D], limit, Ok((100, 50))),
        ],
        ..Script::default()
    };
    let before = script.clone();
    assert_eq!(DexSwap::swap_by_path(&mut script, TRADER, &vec![A, B], limit), Err(Error::CannotSwap));
    assert_eq!(DexSwap::swap_by_path(&mut script, TRADER, &vec![A, C], limit), Err(Error::CannotSwap));
    assert_eq!(
        DexSwap::swap_by_path(&mut script, TRADER, &vec![B, C], limit),
        Err(Error::Backend(UNSCRIPTED))
    );
    assert_eq!(script, before);
    assert_eq!(DexSwap::swap_by_path(&mut script, TRADER, &vec![A, D], limit), Ok((100, 50)));
    assert_eq!(script.journal.len(), 1);
    assert!(script.scopes.is_empty());

    assert_eq!(limit.is_met_by(100, 50), true);
    assert_eq!(limit.is_met_by(101, 50), false);
    assert_eq!(limit.is_met_by(100, 49), false);
    assert_eq!(SwapLimit::ExactSupply(100, 50).is_met_by(7, 50), true);
    assert_eq!(SwapLimit::ExactSupply(100, 50).is_met_by(100, 49), false);
}

fn pool_script() -> Script {
    Script {
        pools: vec![vec![A, B]],
        best_routes: vec![((A, B, 100), (0, 0, 1, 90)), ((A, B, 60), (0, 0, 1, 55))],
        pool_outputs: vec![((0, 0, 1, 100), (100, 90)), ((0, 0, 1, 60), (60, 55))],
        pool_inputs: vec![((0, 0, 1, 50), (60, 50))],
        pool_swaps: vec![((0, 0, 1, 100, 80), Ok((100, 90))), ((0, 0, 1, 60, 50), Ok((60, 55)))],
        ..Script::default()
    }
}

#[test]
fn the_pool_is_asked_in_the_way_the_limit_says() {
    let script = pool_script();
    assert_eq!(
        TaigaSwap::get_swap_amount(&script, A, B, SwapLimit::ExactSupply(100, 90)),
        Some((100, 90))
    );
    assert_eq!(TaigaSwap::get_swap_amount(&script, A, B, SwapLimit::ExactSupply(100, 91)), None);
    assert_eq!(TaigaSwap::get_swap_amount(&script, B, A, SwapLimit::ExactSupply(100, 0)), None);
    // The pool for the ceiling of 100 needs 60 for 50, and gives 55 for 60.
    assert_eq!(
        TaigaSwap::get_swap_amount(&script, A, B, SwapLimit::ExactTarget(100, 50)),
        Some((60, 55))
    );
    // No pool is found for a ceiling of 99.
    assert_eq!(TaigaSwap::get_swap_amount(&script, A, B, SwapLimit::ExactTarget(99, 50)), None);

    let mut script = script;
    assert_eq!(
        TaigaSwap::swap(&mut script, TRADER, A, B, SwapLimit::ExactSupply(100, 80)),
        Ok((100, 90))
    );
    assert_eq!(
        TaigaSwap::swap(&mut script, TRADER, A, B, SwapLimit::ExactTarget(100, 50)),
        Ok((60, 55))
    );
    assert_eq!(script.journal.len(), 2);
    let before = script.clone();
    assert_eq!(
        TaigaSwap::swap(&mut script, TRADER, A, B, SwapLimit::ExactSupply(100, 85)),
        Err(Error::Backend(UNSCRIPTED))
    );
    assert_eq!(
        TaigaSwap::swap(&mut script, TRADER, B, A, SwapLimit::ExactSupply(100, 0)),
        Err(Error::CannotSwap)
    );
    assert_eq!(script, before);
}

#[test]
fn a_quote_of_nothing_is_no_quote() {
    let mut script = pool_script();
    script.pool_outputs[0] = ((0, 0, 1, 100), (100, 0));
    assert_eq!(TaigaSwap::get_swap_amount(&script, A, B, SwapLimit::ExactSupply(100, 0)), None);
    script.pool_inputs[0] = ((0, 0, 1, 50), (0, 50));
    assert_eq!(TaigaSwap::get_swap_amount(&script, A, B, SwapLimit::ExactTarget(100, 50)), None);
}

#[test]
fn the_better_quote_wins_and_the_dex_wins_a_tie() {
    let more = SwapLimit::ExactSupply(1, 0);
    let less = SwapLimit::ExactTarget(9, 1);
    assert_eq!(EitherDexOrTaigaSwap::pick(more, None, None), None);
    assert_eq!(EitherDexOrTaigaSwap::pick(more, Some((5, 7)), None), Some(Venue::Dex));
    assert_eq!(EitherDexOrTaigaSwap::pick(more, None, Some((5, 7))), Some(Venue::Taiga));
    assert_eq!(EitherDexOrTaigaSwap::pick(more, Some((5, 7)), Some((5, 8))), Some(Venue::Taiga));
    assert_eq!(EitherDexOrTaigaSwap::pick(more, Some((5, 7)), Some((4, 7))), Some(Venue::Dex));
    assert_eq!(EitherDexOrTaigaSwap::pick(more, Some((5, 7)), Some((5, 6))), Some(Venue::Dex));
    assert_eq!(EitherDexOrTaigaSwap::pick(less, Some((5, 7)), Some((4, 7))), Some(Venue::Taiga));
    assert_eq!(EitherDexOrTaigaSwap::pick(less, Some((5, 7)), Some((5, 9))), Some(Venue::Dex));
    assert_eq!(EitherDexOrTaigaSwap::pick(less, Some((5, 7)), Some((6, 9))), Some(Venue::Dex));
}

#[test]
fn only_the_winner_is_asked_to_swap() {
    let limit = SwapLimit::ExactSupply(100, 80);
    let mut script = pool_script();
    script.dex_quotes = vec![(vec![A, B], limit, (100, 90))];
    script.dex_swaps = vec![(vec![A, B], limit, Ok((100, 90)))];
    let joints = vec![];
    assert_eq!(EitherDexOrTaigaSwap::get_swap_amount(&script, &joints, A, B, limit), Some((100, 90)));
    assert_eq!(EitherDexOrTaigaSwap::swap(&mut script, TRADER, &joints, A, B, limit), Ok((100, 90)));
    assert_eq!(script.journal.len(), 1);
    assert!(script.journal[0].starts_with("dex"));

    // The pool quotes better now.
    script.pool_outputs[0] = ((0, 0, 1, 100), (100, 95));
    script.pool_swaps[0] = ((0, 0, 1, 100, 80), Ok((100, 95)));
    assert_eq!(EitherDexOrTaigaSwap::get_swap_amount(&script, &joints, A, B, limit), Some((100, 95)));
    assert_eq!(EitherDexOrTaigaSwap::swap(&mut script, TRADER, &joints, A, B, limit), Ok((100, 95)));
    assert_eq!(script.journal.len(), 2);
    assert!(script.journal[1].starts_with("pool"));
}

#[test]
fn a_fixed_route_goes_before_the_exchanges() {
    let mut script = two_hop_script();
    script.dex_quotes.push((vec![A, C], supply(100), (100, 99)));
    script.dex_swaps.push((vec![A, C], supply(100), Ok((100, 99))));
    let joints = vec![];
    let mut dex = new_dex();
    assert_eq!(AggregatedSwap::get_swap_amount(&script, &dex, &joints, A, C, supply(100)), Some((100, 99)));
    assert_eq!(
        dex.update_aggregated_swap_paths(&script, CONTROLLER, &vec![((A, C), Some(two_hops()))]),
        Ok(())
    );
    assert_eq!(AggregatedSwap::get_swap_amount(&script, &dex, &joints, A, C, supply(100)), Some((100, 80)));
    assert_eq!(AggregatedSwap::swap(&mut script, TRADER, &dex, &joints, A, C, supply(100)), Ok((100, 81)));
    assert_eq!(script.journal.len(), 2);
    // No route is fixed for the way back, and no exchange quotes it.
    assert_eq!(
        AggregatedSwap::swap(&mut script, TRADER, &dex, &joints, C, A, supply(100)),
        Err(Error::CannotSwap)
    );
    // A path is checked as a route of one segment.
    assert_eq!(
        AggregatedSwap::swap_by_path(&mut script, TRADER, &vec![A], supply(100)),
        Err(Error::InvalidSwapPath)
    );
    assert_eq!(
        AggregatedSwap::swap_by_path(&mut script, TRADER, &vec![A, C], supply(100)),
        Ok((100, 99))
    );
}

// ---- the table of fixed routes ----

#[test]
fn a_batch_is_applied_whole_or_not_at_all() {
    let script = Script { pools: vec![vec![A, B]], ..Script::default() };
    let mut dex = new_dex();
    let good: Vec<Update> = vec![
        ((A, C), Some(two_hops())),
        ((B, C), Some(vec![dex_segment(&[B, C])])),
    ];
    assert_eq!(dex.update_aggregated_swap_paths(&script, CONTROLLER, &good), Ok(()));
    assert_eq!(dex.aggregated_swap_paths((A, C)), Some(&two_hops()));
    assert_eq!(dex.aggregated_swap_paths((B, C)), Some(&vec![dex_segment(&[B, C])]));
    assert_eq!(dex.aggregated_swap_paths((C, A)), None);

    // The last entry is at fault: neither the removal nor the new route
    // before it is applied.
    let faults: Vec<(Update, Error)> = vec![
        (((C, D), Some(vec![dex_segment(&[C])])), Error::InvalidSwapPath),
        (((C, D), Some(vec![dex_segment(&[D, C])])), Error::InvalidSwapPath),
        (((C, D), Some(vec![SwapPath::Taiga(5, 0, 1)])), Error::InvalidPoolId),
        (((A, B), Some(vec![SwapPath::Taiga(0, 0, 2)])), Error::InvalidTokenIndex),
        (
            (
                (A, B),
                Some(vec![
                    dex_segment(&[A, C]),
                    dex_segment(&[C, D]),
                    dex_segment(&[D, C]),
                    dex_segment(&[C, B]),
                ]),
            ),
            Error::InvalidSwapPath,
        ),
    ];
    for (bad, error) in faults {
        let batch: Vec<Update> = vec![
            ((A, C), None),
            ((D, C), Some(vec![dex_segment(&[D, C])])),
            bad,
        ];
        assert_eq!(dex.update_aggregated_swap_paths(&script, CONTROLLER, &batch), Err(error));
        assert_eq!(dex.aggregated_swap_paths((A, C)), Some(&two_hops()));
        assert_eq!(dex.aggregated_swap_paths((B, C)), Some(&vec![dex_segment(&[B, C])]));
        assert_eq!(dex.aggregated_swap_paths((D, C)), None);
    }
    assert_eq!(
        dex.update_aggregated_swap_paths(&script, TRADER, &good),
        Err(Error::BadOrigin)
    );

    // Within a batch the later entry for a pair wins.
    let twice: Vec<Update> = vec![
        ((A, C), Some(vec![dex_segment(&[A, C])])),
        ((B, C), None),
        ((A, C), Some(vec![dex_segment(&[A, B, C])])),
    ];
    assert_eq!(dex.update_aggregated_swap_paths(&script, CONTROLLER, &twice), Ok(()));
    assert_eq!(dex.aggregated_swap_paths((A, C)), Some(&vec![dex_segment(&[A, B, C])]));
    assert_eq!(dex.aggregated_swap_paths((B, C)), None);
    // A pair and its reverse are two pairs.
    assert_eq!(dex.aggregated_swap_paths((C, A)), None);
}

#[test]
fn copies_of_routes_are_equal_to_them() {
    let route = vec![SwapPath::Taiga(3, 1, 2), dex_segment(&[A, B, C]), SwapPath::Dex(vec![])];
    assert_eq!(copy_paths(&route), route);
    assert_eq!(copy_paths(&vec![]), vec![]);
}

#[test]
fn only_the_controller_sets_rebalance_amounts() {
    let mut dex = new_dex();
    assert_eq!(dex.treasury_account(), TREASURY);
    assert_eq!(dex.set_rebalance_swap_info(TRADER, A, 10, 20), Err(Error::BadOrigin));
    assert_eq!(dex.rebalance_supply_threshold(A), None);
    assert_eq!(dex.set_rebalance_swap_info(CONTROLLER, A, 10, 20), Ok(()));
    assert_eq!(dex.set_rebalance_swap_info(CONTROLLER, B, 1, 2), Ok(()));
    assert_eq!(dex.set_rebalance_swap_info(CONTROLLER, A, 30, 40), Ok(()));
    assert_eq!(dex.rebalance_supply_threshold(A), Some((30, 40)));
    assert_eq!(dex.rebalance_supply_threshold(B), Some((1, 2)));
    assert_eq!(dex.rebalance_supply_threshold(C), None);
}

// ---- the search ----

fn node(currency: CurrencyId, partners: &[CurrencyId]) -> TradingNode {
    TradingNode { currency, partners: partners.to_vec() }
}

/// A script in which the round trip from `hub` through `first` and `second`
/// gives back `back` for 100.
fn round_trip_script(trips: &[(CurrencyId, CurrencyId, CurrencyId, Balance)]) -> Script {
    let mut script = Script::default();
    for (hub, first, second, back) in trips {
        script.dex_quotes.push((vec![*hub, *first], supply(100), (100, 100)));
        script.dex_quotes.push((vec![*first, *second, *hub], supply(100), (100, *back)));
        script.dex_swaps.push((vec![*hub, *first], supply(100), Ok((100, 100))));
        script.dex_swaps.push((vec![*first, *second, *hub], supply(100), Ok((100, *back))));
    }
    script
}

fn hub_dex(hubs: &[CurrencyId]) -> AggregatedDex {
    let mut dex = new_dex();
    for hub in hubs {
        dex.set_rebalance_swap_info(CONTROLLER, *hub, 100, 110).unwrap();
    }
    dex
}

#[test]
fn a_search_out_of_budget_stops_at_the_last_node_it_examined() {
    let script = Script::default();
    let dex = new_dex();
    let graph = vec![
        node(A, &[B, C]),
        node(B, &[C]),
        node(C, &[A, B, D]),
        node(D, &[A, B]),
        node(CurrencyId(50), &[A, B]),
    ];
    assert_eq!(scan(&script, &dex, &graph, None, 1), (None, Some(A)));
    assert_eq!(scan(&script, &dex, &graph, None, 2), (None, Some(C)));
    assert_eq!(scan(&script, &dex, &graph, None, 3), (None, Some(D)));
    // The budget runs out at the last node: the cursor names it.
    assert_eq!(scan(&script, &dex, &graph, None, 4), (None, Some(CurrencyId(50))));
    // The end is reached within budget: the cursor is cleared.
    assert_eq!(scan(&script, &dex, &graph, None, 5), (None, None));
    assert_eq!(scan(&script, &dex, &graph, None, u32::MAX), (None, None));
    // No budget: nothing is taken from the graph.
    assert_eq!(scan(&script, &dex, &graph, None, 0), (None, None));
    assert_eq!(scan(&script, &dex, &graph, Some(B), 0), (None, Some(B)));
}

#[test]
fn a_search_resumes_behind_the_cursor() {
    let script = Script::default();
    let dex = new_dex();
    let graph = vec![node(A, &[B, C]), node(B, &[C]), node(C, &[A, B]), node(D, &[A, B])];
    assert_eq!(scan(&script, &dex, &graph, Some(A), 1), (None, Some(C)));
    assert_eq!(scan(&script, &dex, &graph, Some(B), 1), (None, Some(C)));
    assert_eq!(scan(&script, &dex, &graph, Some(C), 1), (None, Some(D)));
    assert_eq!(scan(&script, &dex, &graph, Some(D), 1), (None, None));
    // A node that is passed over still moves the cursor.
    assert_eq!(scan(&script, &dex, &vec![node(A, &[B, C]), node(B, &[C])], Some(A), 1), (None, None));
    // A cursor that the graph does not hold: from the start.
    assert_eq!(scan(&script, &dex, &graph, Some(CurrencyId(99)), 1), (None, Some(A)));
    assert_eq!(scan(&script, &dex, &vec![], Some(A), 1), (None, None));
}

#[test]
fn a_search_stops_at_the_first_profitable_round_trip() {
    let script = round_trip_script(&[
        (A, B, C, 110),
        (A, B, D, 111),
        (A, C, D, 200),
        (C, A, B, 150),
    ]);
    let dex = hub_dex(&[A, C]);
    let graph = vec![node(B, &[A, C]), node(A, &[B, C, D]), node(C, &[A, B])];
    // From A: through B and C the return does not exceed 110; through B and D
    // it does, and that pair comes before C and D.
    assert_eq!(scan(&script, &dex, &graph, None, 10), (Some((A, B, D)), Some(A)));
    assert_eq!(scan(&script, &dex, &graph, None, 2), (Some((A, B, D)), Some(A)));
    // B is no hub currency, but it is examined and counted.
    assert_eq!(scan(&script, &dex, &graph, None, 1), (None, Some(B)));
    // Found at the last node with budget to spare: the cursor is cleared.
    assert_eq!(scan(&script, &dex, &graph, Some(A), 10), (Some((C, A, B)), None));
    // Found at the last node with the last of the budget: the cursor names it.
    assert_eq!(scan(&script, &dex, &graph, Some(A), 1), (Some((C, A, B)), Some(C)));
    // The order of the partners is the order of the round trip.
    let reversed = vec![node(A, &[D, C, B])];
    assert_eq!(scan(&script, &dex, &reversed, None, 10), (None, None));
}

#[test]
fn the_lock_expires_by_itself() {
    assert_eq!(try_lock(None, 0), Some(LOCK_DURATION));
    assert_eq!(try_lock(None, 1000), Some(1000 + LOCK_DURATION));
    assert_eq!(try_lock(Some(1100), 1000), None);
    assert_eq!(try_lock(Some(1100), 1100), None);
    assert_eq!(try_lock(Some(1100), 1101), Some(1101 + LOCK_DURATION));
    assert_eq!(try_lock(None, u64::MAX), Some(u64::MAX));
    assert_eq!(try_lock(None, u64::MAX - LOCK_DURATION + 1), Some(u64::MAX));
    assert_eq!(LOCK_DURATION, 100);
    assert_eq!(DEFAULT_MAX_ITERATIONS, 1000);
}

#[test]
fn a_run_under_a_held_lock_does_nothing() {
    let script = round_trip_script(&[(A, B, C, 150)]);
    let dex = hub_dex(&[A]);
    let graph = vec![node(A, &[B, C]), node(B, &[A, C])];
    let mut state = ScannerState { lock_deadline: None, cursor: None, max_iterations: Some(1) };

    assert_eq!(offchain_worker(&script, &dex, &graph, &mut state, 1000), Some((A, B, C)));
    assert_eq!(
        state,
        ScannerState { lock_deadline: Some(1100), cursor: Some(A), max_iterations: Some(1) }
    );
    let held = state;
    assert_eq!(offchain_worker(&script, &dex, &graph, &mut state, 1050), None);
    assert_eq!(offchain_worker(&script, &dex, &graph, &mut state, 1100), None);
    assert_eq!(state, held);
    assert_eq!(offchain_worker(&script, &dex, &graph, &mut state, 1101), None);
    assert_eq!(
        state,
        ScannerState { lock_deadline: Some(1201), cursor: Some(B), max_iterations: Some(1) }
    );
    assert_eq!(offchain_worker(&script, &dex, &graph, &mut state, 1300), None);
    assert_eq!(state.cursor, None);
    assert_eq!(offchain_worker(&script, &dex, &graph, &mut state, 1500), Some((A, B, C)));
}

// ---- the execution of a round trip ----

#[test]
fn a_round_trip_is_executed_only_while_it_pays() {
    let mut script = round_trip_script(&[(A, B, C, 150), (B, A, C, 110)]);
    let dex = hub_dex(&[A, B]);
    let done = rebalance_swap(&mut script, &dex, A, B, C).unwrap().unwrap();
    assert_eq!(
        (done.currency_1, done.currency_2, done.currency_3, done.supply_amount, done.target_amount),
        (A, B, C, 100, 150)
    );
    assert_eq!(script.journal.len(), 2);
    assert!(script.journal[0].contains("AccountId(2)"));

    let before = script.clone();
    // Gives back 110, which is not more than 110.
    assert_eq!(rebalance_swap(&mut script, &dex, B, A, C), Ok(None));
    // C is no hub currency.
    assert_eq!(rebalance_swap(&mut script, &dex, C, A, B), Ok(None));
    // No quote at all.
    assert_eq!(rebalance_swap(&mut script, &dex, A, C, B), Ok(None));
    // Not a round trip through two other currencies.
    assert_eq!(rebalance_swap(&mut script, &dex, A, A, C), Ok(None));
    assert_eq!(script, before);

    // The exchange refuses: the error is passed on and nothing has changed.
    script.dex_swaps[1] = (vec![B, C, A], supply(100), Err(REFUSED));
    let before = script.clone();
    assert_eq!(rebalance_swap(&mut script, &dex, A, B, C), Err(Error::Backend(REFUSED)));
    assert_eq!(script, before);
}

// ---- exchanges whose two kinds of quote agree ----

/// A constant-product exchange without reserves: a hop from one currency to
/// another gives the supply times the number of the target over the number of
/// the supply, rounded down, and asks the least supply that gives the target.
#[derive(Clone, Debug, Default, PartialEq)]
struct Fixed;

impl Fixed {
    fn forward(path: &[CurrencyId], supply: Balance) -> Option<Balance> {
        let mut amount = supply;
        for hop in path.windows(2) {
            amount = amount.checked_mul(hop[1].0 as u128)? / hop[0].0 as u128;
        }
        Some(amount)
    }

    fn backward(path: &[CurrencyId], target: Balance) -> Option<Balance> {
        let mut amount = target;
        for hop in path.windows(2).rev() {
            amount = amount.checked_mul(hop[0].0 as u128)?.div_ceil(hop[1].0 as u128);
        }
        Some(amount)
    }
}

impl Backends for Fixed {
    fn dex_get_swap_amount(&self, path: &Vec<CurrencyId>, limit: SwapLimit) -> Option<(Balance, Balance)> {
        if path.len() < 2 {
            return None;
        }
        match limit {
            SwapLimit::ExactSupply(supply, min_target) => {
                let given = Fixed::forward(path, supply)?;
                if given >= min_target { Some((supply, given)) } else { None }
            }
            SwapLimit::ExactTarget(max_supply, target) => {
                let needed = Fixed::backward(path, target)?;
                if needed <= max_supply { Some((needed, target)) } else { None }
            }
        }
    }

    fn dex_swap_with_specific_path(
        &mut self,
        _who: AccountId,
        path: &Vec<CurrencyId>,
        limit: SwapLimit,
    ) -> Result<(Balance, Balance), BackendError> {
        self.dex_get_swap_amount(path, limit).ok_or(REFUSED)
    }

    fn stable_pool_assets(&self, _pool: PoolId) -> Option<Vec<CurrencyId>> {
        None
    }

    fn stable_get_best_route(
        &self,
        _supply: CurrencyId,
        _target: CurrencyId,
        _amount: Balance,
    ) -> Option<(PoolId, PoolTokenIndex, PoolTokenIndex, Balance)> {
        None
    }

    fn stable_get_swap_output_amount(
        &self,
        _pool: PoolId,
        _supply_index: PoolTokenIndex,
        _target_index: PoolTokenIndex,
        _supply_amount: Balance,
    ) -> Option<(Balance, Balance)> {
        None
    }

    fn stable_get_swap_input_amount(
        &self,
        _pool: PoolId,
        _supply_index: PoolTokenIndex,
        _target_index: PoolTokenIndex,
        _target_amount: Balance,
    ) -> Option<(Balance, Balance)> {
        None
    }

    fn stable_swap(
        &mut self,
        _who: AccountId,
        _pool: PoolId,
        _supply_index: PoolTokenIndex,
        _target_index: PoolTokenIndex,
        _supply_amount: Balance,
        _min_target: Balance,
    ) -> Result<(Balance, Balance), BackendError> {
        Err(REFUSED)
    }

    fn begin_scope(&mut self) {}

    fn commit_scope(&mut self) {}

    fn rollback_scope(&mut self) {}
}

#[test]
fn what_a_route_gives_can_be_had_back_as_a_target() {
    let exchange = Fixed;
    let routes = vec![
        vec![dex_segment(&[A, B])],
        vec![dex_segment(&[D, A])],
        vec![dex_segment(&[D, C, A, B])],
        vec![dex_segment(&[C, A]), dex_segment(&[A, D])],
        vec![dex_segment(&[D, B]), dex_segment(&[B, C, A]), dex_segment(&[A, C])],
    ];
    for route in &routes {
        for supply in [0u128, 1, 2, 3, 7, 10, 99, 1_000, 123_456_789, 1_000_000_000_007] {
            let forward = get_aggregated_swap_amount(&exchange, route, SwapLimit::ExactSupply(supply, 0));
            let (taken, given) = forward.expect("the route can be served");
            assert_eq!(taken, supply);
            let back = get_aggregated_swap_amount(&exchange, route, SwapLimit::ExactTarget(taken, given));
            let (needed, received) = back.expect("the target can be had for the supply");
            assert!(needed <= supply);
            assert!(received >= given);
        }
    }
    // An exact value: 1_000 of D along D, C, A, B is 750, then 250, then 500;
    // 499 of B needs 250 of A, 750 of C, 1_000 of D.
    assert_eq!(
        get_aggregated_swap_amount(&exchange, &routes[2], SwapLimit::ExactSupply(1_000, 0)),
        Some((1_000, 500))
    );
    assert_eq!(
        get_aggregated_swap_amount(&exchange, &routes[2], SwapLimit::ExactTarget(1_000, 499)),
        Some((1_000, 500))
    );
}

#[test]
fn stored_state_comes_back_as_it_was_stored() {
    let routes = vec![
        ((A, C), vec![dex_segment(&[A, C])]),
        ((B, C), vec![SwapPath::Taiga(0, 1, 2)]),
        ((A, C), two_hops()),
    ];
    let thresholds = vec![(A, (10, 20)), (B, (1, 2)), (A, (30, 40))];
    let dex = AggregatedDex::restore(CONTROLLER, TREASURY, 1, &routes, &thresholds);
    assert_eq!(dex.treasury_account(), TREASURY);
    // The later of two entries for one pair is the one that counts, and a
    // stored route is not measured against the limit again.
    assert_eq!(dex.aggregated_swap_paths((A, C)), Some(&two_hops()));
    assert_eq!(dex.aggregated_swap_paths((B, C)), Some(&vec![SwapPath::Taiga(0, 1, 2)]));
    assert_eq!(dex.aggregated_swap_paths((C, B)), None);
    assert_eq!(dex.rebalance_supply_threshold(A), Some((30, 40)));
    assert_eq!(dex.rebalance_supply_threshold(B), Some((1, 2)));
    assert_eq!(dex.rebalance_supply_threshold(D), None);

    // The controller is the one that was stored.
    let mut dex = dex;
    let script = Script::default();
    assert_eq!(
        dex.update_aggregated_swap_paths(&script, TREASURY, &vec![((A, C), None)]),
        Err(Error::BadOrigin)
    );
    // The limit is the one that was stored.
    assert_eq!(
        dex.update_aggregated_swap_paths(
            &script,
            CONTROLLER,
            &vec![((A, C), Some(vec![dex_segment(&[A, B]), dex_segment(&[B, C])]))]
        ),
        Err(Error::InvalidSwapPath)
    );
    assert_eq!(dex.update_aggregated_swap_paths(&script, CONTROLLER, &vec![((A, C), None)]), Ok(()));
    assert_eq!(dex.aggregated_swap_paths((A, C)), None);

    let empty = AggregatedDex::restore(CONTROLLER, TREASURY, 3, &vec![], &vec![]);
    assert_eq!(empty.aggregated_swap_paths((A, C)), None);
    assert_eq!(empty.rebalance_supply_threshold(A), None);
}
