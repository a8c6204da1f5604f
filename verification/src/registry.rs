//! The table of fixed routes, and the amounts that steer rebalancing.
//!
//! Both belong to [`AggregatedDex`] and change only at the word of its
//! controller. A pair of currencies without a fixed route is served by whichever
//! exchange quotes better.

use std::collections::HashMap;
use vstd::prelude::*;
use crate::backends::Backends;
use crate::types::{route_of, AccountId, Balance, CurrencyId, Error, Segment, SwapPath};
use crate::validator::{check_swap_paths, checked};

verus! {

broadcast use vstd::std_specs::hash::group_hash_axioms;

/// A pair of currencies: what a route takes and what it gives.
pub type Pair = (CurrencyId, CurrencyId);

/// One entry of a batch: the pair, and the route to set for it, or `None` to
/// remove the pair's route.
pub type Update = (Pair, Option<Vec<SwapPath>>);

/// The number under which a pair is kept.
pub open spec fn pair_key(pair: Pair) -> u64 {
    (pair.0.0 * 0x1_0000_0000 + pair.1.0) as u64
}

fn key_of(pair: Pair) -> (key: u64)
    ensures
        key == pair_key(pair),
{
    let high: u64 = pair.0.0 as u64;
    let low: u64 = pair.1.0 as u64;
    high * 0x1_0000_0000 + low
}

/// No two pairs are kept under one number.
proof fn lemma_pair_key_is_injective(first: Pair, second: Pair)
    requires
        pair_key(first) == pair_key(second),
    ensures
        first == second,
{
}

/// A copy of a sequence of currencies.
fn copy_currencies(path: &Vec<CurrencyId>) -> (copy: Vec<CurrencyId>)
    ensures
        copy@ == path@,
{
    let mut copy: Vec<CurrencyId> = Vec::new();
    let mut k: usize = 0;
    while k < path.len()
        invariant
            k <= path.len(),
            copy@ == path@.take(k as int),
        decreases path.len() - k,
    {
        copy.push(path[k]);
        k = k + 1;
    }
    copy
}

/// A copy of a route.
pub fn copy_paths(paths: &Vec<SwapPath>) -> (copy: Vec<SwapPath>)
    ensures
        route_of(copy@) == route_of(paths@),
{
    let mut copy: Vec<SwapPath> = Vec::new();
    let mut k: usize = 0;
    while k < paths.len()
        invariant
            k <= paths.len(),
            copy.len() == k,
            forall|m: int| 0 <= m < k ==> (#[trigger] copy@[m])@ == paths@[m]@,
        decreases paths.len() - k,
    {
        let segment = match &paths[k] {
            SwapPath::Dex(path) => SwapPath::Dex(copy_currencies(path)),
            SwapPath::Taiga(pool, supply_index, target_index) => SwapPath::Taiga(
                *pool,
                *supply_index,
                *target_index,
            ),
        };
        copy.push(segment);
        k = k + 1;
    }
    copy
}

/// The fixed routes, by the pair they serve.
pub struct RouteTable {
    entries: HashMap<u64, Vec<SwapPath>>,
}

impl View for RouteTable {
    type V = Map<Pair, Seq<Segment>>;

    closed spec fn view(&self) -> Map<Pair, Seq<Segment>> {
        Map::new(
            |pair: Pair| self.entries@.contains_key(pair_key(pair)),
            |pair: Pair| route_of(self.entries@[pair_key(pair)]@),
        )
    }
}

impl RouteTable {
    /// A table without routes.
    pub fn new() -> (table: Self)
        ensures
            table@ == Map::<Pair, Seq<Segment>>::empty(),
    {
        let table = RouteTable { entries: HashMap::new() };
        table
    }

    /// The route fixed for `pair`, if there is one.
    pub fn get(&self, pair: Pair) -> (found: Option<&Vec<SwapPath>>)
        ensures
            match found {
                Some(paths) => self@.contains_key(pair) && self@[pair] == route_of(paths@),
                None => !self@.contains_key(pair),
            },
    {
        let key = key_of(pair);
        self.entries.get(&key)
    }

    /// Fixes `paths` as the route for `pair`.
    fn insert(&mut self, pair: Pair, paths: Vec<SwapPath>)
        ensures
            final(self)@ == old(self)@.insert(pair, route_of(paths@)),
    {
        let key = key_of(pair);
        self.entries.insert(key, paths);
        proof {
            assert forall|other: Pair| other != pair implies pair_key(other) != pair_key(pair) by {
                if pair_key(other) == pair_key(pair) {
                    lemma_pair_key_is_injective(other, pair);
                }
            }
        }
    }

    /// Forgets the route for `pair`.
    fn remove(&mut self, pair: Pair)
        ensures
            final(self)@ == old(self)@.remove(pair),
    {
        let key = key_of(pair);
        self.entries.remove(&key);
        proof {
            assert forall|other: Pair| other != pair implies pair_key(other) != pair_key(pair) by {
                if pair_key(other) == pair_key(pair) {
                    lemma_pair_key_is_injective(other, pair);
                }
            }
        }
    }
}

/// For each hub currency, the amount to supply to a round trip and the amount
/// that the round trip must give more than.
pub struct Thresholds {
    entries: HashMap<u32, (Balance, Balance)>,
}

impl View for Thresholds {
    type V = Map<CurrencyId, (Balance, Balance)>;

    closed spec fn view(&self) -> Map<CurrencyId, (Balance, Balance)> {
        Map::new(
            |hub: CurrencyId| self.entries@.contains_key(hub.0),
            |hub: CurrencyId| self.entries@[hub.0],
        )
    }
}

impl Thresholds {
    /// No hub currency.
    pub fn new() -> (thresholds: Self)
        ensures
            thresholds@ == Map::<CurrencyId, (Balance, Balance)>::empty(),
    {
        let thresholds = Thresholds { entries: HashMap::new() };
        thresholds
    }

    /// The amounts set for `hub`, if it is a hub currency.
    pub fn get(&self, hub: CurrencyId) -> (found: Option<(Balance, Balance)>)
        ensures
            match found {
                Some(amounts) => self@.contains_key(hub) && self@[hub] == amounts,
                None => !self@.contains_key(hub),
            },
    {
        match self.entries.get(&hub.0) {
            Some(amounts) => Some(*amounts),
            None => None,
        }
    }

    /// Sets the amounts for `hub`.
    fn insert(&mut self, hub: CurrencyId, amounts: (Balance, Balance))
        ensures
            final(self)@ == old(self)@.insert(hub, amounts),
    {
        self.entries.insert(hub.0, amounts);
    }
}

/// The route that an update sets, as a mathematical value.
pub open spec fn update_route(update: Update) -> Option<Seq<Segment>> {
    match update.1 {
        Some(paths) => Some(route_of(paths@)),
        None => None,
    }
}

/// What is wrong with an update: `InvalidSwapPath` where its route has more
/// than `limit` segments, else the error of the rule that its route breaks,
/// else `InvalidSwapPath` where the route does not lead from the first currency
/// of the pair to the second. Nothing is wrong with a removal.
pub open spec fn update_fault<B: Backends>(b: B, limit: u32, update: Update) -> Option<Error> {
    match update_route(update) {
        None => None,
        Some(route) => if route.len() > limit {
            Some(Error::InvalidSwapPath)
        } else {
            match checked(b, route) {
                Err(e) => Some(e),
                Ok(ends) => if ends == update.0 {
                    None
                } else {
                    Some(Error::InvalidSwapPath)
                },
            }
        },
    }
}

/// The fault of the first update of the batch, from position `from` on, that
/// has one.
pub open spec fn first_update_fault<B: Backends>(
    b: B,
    limit: u32,
    updates: Seq<Update>,
    from: int,
) -> Option<Error>
    decreases updates.len() - from,
{
    if from < 0 || from >= updates.len() {
        None
    } else if update_fault(b, limit, updates[from]) is Some {
        update_fault(b, limit, updates[from])
    } else {
        first_update_fault(b, limit, updates, from + 1)
    }
}

/// The table after the first `n` updates of the batch were applied to it, in
/// order.
pub open spec fn applied(table: Map<Pair, Seq<Segment>>, updates: Seq<Update>, n: nat) -> Map<
    Pair,
    Seq<Segment>,
>
    decreases n,
{
    if n == 0 {
        table
    } else {
        let before = applied(table, updates, (n - 1) as nat);
        match update_route(updates[n - 1]) {
            Some(route) => before.insert(updates[n - 1].0, route),
            None => before.remove(updates[n - 1].0),
        }
    }
}

/// Why a batch is refused, if it is: the caller is not the controller, or an
/// update is at fault.
pub open spec fn batch_fault<B: Backends>(
    b: B,
    controller: AccountId,
    limit: u32,
    caller: AccountId,
    updates: Seq<Update>,
) -> Option<Error> {
    if caller != controller {
        Some(Error::BadOrigin)
    } else {
        first_update_fault(b, limit, updates, 0)
    }
}

proof fn lemma_first_update_fault_skips<B: Backends>(
    b: B,
    limit: u32,
    updates: Seq<Update>,
    upto: int,
)
    requires
        0 <= upto <= updates.len(),
        forall|m: int| 0 <= m < upto ==> update_fault(b, limit, #[trigger] updates[m]) is None,
    ensures
        first_update_fault(b, limit, updates, 0) == first_update_fault(b, limit, updates, upto),
    decreases upto,
{
    if upto > 0 {
        lemma_first_update_fault_skips(b, limit, updates, upto - 1);
    }
}

/// The table that holds the first `n` of the stored routes, a later one
/// replacing an earlier one for the same pair.
pub open spec fn table_of(stored: Seq<(Pair, Vec<SwapPath>)>, n: nat) -> Map<Pair, Seq<Segment>>
    decreases n,
{
    if n == 0 {
        Map::empty()
    } else {
        table_of(stored, (n - 1) as nat).insert(stored[n - 1].0, route_of(stored[n - 1].1@))
    }
}

/// The rebalancing amounts that the first `n` of the stored ones make, a later
/// one replacing an earlier one for the same hub currency.
pub open spec fn amounts_of(stored: Seq<(CurrencyId, (Balance, Balance))>, n: nat) -> Map<
    CurrencyId,
    (Balance, Balance),
>
    decreases n,
{
    if n == 0 {
        Map::empty()
    } else {
        amounts_of(stored, (n - 1) as nat).insert(stored[n - 1].0, stored[n - 1].1)
    }
}

/// The routing state that outlives a call: who may change it, who funds
/// rebalancing, how long a fixed route may be, the fixed routes and the
/// rebalancing amounts.
pub struct AggregatedDex {
    controller: AccountId,
    treasury: AccountId,
    swap_path_limit: u32,
    routes: RouteTable,
    thresholds: Thresholds,
}

impl AggregatedDex {
    /// The one account that may change the routes and the amounts.
    pub closed spec fn controller(&self) -> AccountId {
        self.controller
    }

    /// The account that pays for, and receives from, rebalancing.
    pub closed spec fn treasury(&self) -> AccountId {
        self.treasury
    }

    /// The greatest number of segments that a fixed route may have.
    pub closed spec fn swap_path_limit(&self) -> u32 {
        self.swap_path_limit
    }

    /// The fixed routes.
    pub closed spec fn routes(&self) -> Map<Pair, Seq<Segment>> {
        self.routes@
    }

    /// The rebalancing amounts.
    pub closed spec fn thresholds(&self) -> Map<CurrencyId, (Balance, Balance)> {
        self.thresholds@
    }

    /// A state without routes and without hub currencies.
    pub fn new(controller: AccountId, treasury: AccountId, swap_path_limit: u32) -> (dex: Self)
        ensures
            dex.controller() == controller,
            dex.treasury() == treasury,
            dex.swap_path_limit() == swap_path_limit,
            dex.routes() == Map::<Pair, Seq<Segment>>::empty(),
            dex.thresholds() == Map::<CurrencyId, (Balance, Balance)>::empty(),
    {
        AggregatedDex {
            controller,
            treasury,
            swap_path_limit,
            routes: RouteTable::new(),
            thresholds: Thresholds::new(),
        }
    }

    /// The state that was stored: its routes and amounts are taken as they
    /// are, without asking who stored them or whether the routes are still well
    /// formed.
    pub fn restore(
        controller: AccountId,
        treasury: AccountId,
        swap_path_limit: u32,
        routes: &Vec<(Pair, Vec<SwapPath>)>,
        thresholds: &Vec<(CurrencyId, (Balance, Balance))>,
    ) -> (dex: Self)
        ensures
            dex.controller() == controller,
            dex.treasury() == treasury,
            dex.swap_path_limit() == swap_path_limit,
            dex.routes() == table_of(routes@, routes.len() as nat),
            dex.thresholds() == amounts_of(thresholds@, thresholds.len() as nat),
    {
        let mut dex = AggregatedDex::new(controller, treasury, swap_path_limit);
        let mut k: usize = 0;
        while k < routes.len()
            invariant
                k <= routes.len(),
                dex.controller() == controller,
                dex.treasury() == treasury,
                dex.swap_path_limit() == swap_path_limit,
                dex.routes() == table_of(routes@, k as nat),
                dex.thresholds() == Map::<CurrencyId, (Balance, Balance)>::empty(),
            decreases routes.len() - k,
        {
            let entry = &routes[k];
            dex.routes.insert(entry.0, copy_paths(&entry.1));
            k = k + 1;
        }
        k = 0;
        while k < thresholds.len()
            invariant
                k <= thresholds.len(),
                dex.controller() == controller,
                dex.treasury() == treasury,
                dex.swap_path_limit() == swap_path_limit,
                dex.routes() == table_of(routes@, routes.len() as nat),
                dex.thresholds() == amounts_of(thresholds@, k as nat),
            decreases thresholds.len() - k,
        {
            let entry = &thresholds[k];
            dex.thresholds.insert(entry.0, entry.1);
            k = k + 1;
        }
        dex
    }

    /// The account that pays for, and receives from, rebalancing.
    pub fn treasury_account(&self) -> (account: AccountId)
        ensures
            account == self.treasury(),
    {
        self.treasury
    }

    /// The route fixed for `pair`, if there is one.
    pub fn aggregated_swap_paths(&self, pair: Pair) -> (found: Option<&Vec<SwapPath>>)
        ensures
            match found {
                Some(paths) => self.routes().contains_key(pair) && self.routes()[pair] == route_of(
                    paths@,
                ),
                None => !self.routes().contains_key(pair),
            },
    {
        self.routes.get(pair)
    }

    /// The amounts set for `hub`, if it is a hub currency: what to supply, and
    /// what a round trip must give more than.
    pub fn rebalance_supply_threshold(&self, hub: CurrencyId) -> (found: Option<
        (Balance, Balance),
    >)
        ensures
            match found {
                Some(amounts) => self.thresholds().contains_key(hub) && self.thresholds()[hub]
                    == amounts,
                None => !self.thresholds().contains_key(hub),
            },
    {
        self.thresholds.get(hub)
    }

    /// Applies a batch of updates to the fixed routes, all of them or none.
    ///
    /// Only the controller may do so. A route to set must have no more
    /// segments than a fixed route may have, be well formed, and lead from the
    /// first currency of its pair to the second. If the caller is
    /// another account, or any update is at fault, the error says so and nothing
    /// has changed; otherwise every update has been applied, in order.
    pub fn update_aggregated_swap_paths<B: Backends>(
        &mut self,
        b: &B,
        caller: AccountId,
        updates: &Vec<Update>,
    ) -> (done: Result<(), Error>)
        ensures
            match batch_fault(
                *b,
                old(self).controller(),
                old(self).swap_path_limit(),
                caller,
                updates@,
            ) {
                Some(e) => done == Err::<(), Error>(e) && *final(self) == *old(self),
                None => done is Ok && final(self).routes() == applied(
                    old(self).routes(),
                    updates@,
                    updates.len() as nat,
                ),
            },
            final(self).controller() == old(self).controller(),
            final(self).treasury() == old(self).treasury(),
            final(self).swap_path_limit() == old(self).swap_path_limit(),
            final(self).thresholds() == old(self).thresholds(),
    {
        if caller != self.controller {
            return Err(Error::BadOrigin);
        }
        let limit = self.swap_path_limit;
        let n = updates.len();
        let mut k: usize = 0;
        while k < n
            invariant
                n == updates.len(),
                k <= n,
                *self == *old(self),
                caller == self.controller(),
                limit == self.swap_path_limit(),
                forall|m: int|
                    0 <= m < k ==> update_fault(*b, limit, #[trigger] updates@[m]) is None,
            decreases n - k,
        {
            proof {
                lemma_first_update_fault_skips(*b, limit, updates@, k as int);
            }
            let update = &updates[k];
            match &update.1 {
                Some(paths) => {
                    if paths.len() > limit as usize {
                        return Err(Error::InvalidSwapPath);
                    }
                    match check_swap_paths(b, paths) {
                        Err(e) => {
                            return Err(e);
                        },
                        Ok(ends) => {
                            if ends.0 != update.0.0 || ends.1 != update.0.1 {
                                return Err(Error::InvalidSwapPath);
                            }
                        },
                    }
                },
                None => {},
            }
            k = k + 1;
        }
        proof {
            lemma_first_update_fault_skips(*b, limit, updates@, n as int);
        }
        k = 0;
        while k < n
            invariant
                n == updates.len(),
                k <= n,
                self.routes() == applied(old(self).routes(), updates@, k as nat),
                self.controller() == old(self).controller(),
                self.treasury() == old(self).treasury(),
                self.swap_path_limit() == old(self).swap_path_limit(),
                self.thresholds() == old(self).thresholds(),
            decreases n - k,
        {
            let update = &updates[k];
            match &update.1 {
                Some(paths) => {
                    self.routes.insert(update.0, copy_paths(paths));
                },
                None => {
                    self.routes.remove(update.0);
                },
            }
            k = k + 1;
        }
        Ok(())
    }

    /// Makes `hub` a hub currency, or changes its amounts: `supply_amount` is
    /// what a round trip from `hub` is given, and `threshold` is what it must
    /// give more than. Only the controller may do so.
    pub fn set_rebalance_swap_info(
        &mut self,
        caller: AccountId,
        hub: CurrencyId,
        supply_amount: Balance,
        threshold: Balance,
    ) -> (done: Result<(), Error>)
        ensures
            caller != old(self).controller() ==> done == Err::<(), Error>(Error::BadOrigin)
                && *final(self) == *old(self),
            caller == old(self).controller() ==> done is Ok && final(self).thresholds() == old(
                self,
            ).thresholds().insert(hub, (supply_amount, threshold)),
            final(self).controller() == old(self).controller(),
            final(self).treasury() == old(self).treasury(),
            final(self).swap_path_limit() == old(self).swap_path_limit(),
            final(self).routes() == old(self).routes(),
    {
        if caller != self.controller {
            return Err(Error::BadOrigin);
        }
        self.thresholds.insert(hub, (supply_amount, threshold));
        Ok(())
    }
}

/// The position of the last of the first `n` updates of the batch that is for
/// `pair`.
pub open spec fn last_update_for(updates: Seq<Update>, n: nat, pair: Pair) -> Option<int>
    decreases n,
{
    if n == 0 {
        None
    } else if updates[n - 1].0 == pair {
        Some(n - 1)
    } else {
        last_update_for(updates, (n - 1) as nat, pair)
    }
}

/// A batch that is applied sets for each pair what its last update for that
/// pair says, and leaves every pair without an update as it was.
pub proof fn lemma_applied_takes_the_last_update(
    table: Map<Pair, Seq<Segment>>,
    updates: Seq<Update>,
    n: nat,
    pair: Pair,
)
    requires
        n <= updates.len(),
    ensures
        match last_update_for(updates, n, pair) {
            Some(at) => match update_route(updates[at]) {
                Some(route) => applied(table, updates, n).contains_key(pair) && applied(
                    table,
                    updates,
                    n,
                )[pair] == route,
                None => !applied(table, updates, n).contains_key(pair),
            },
            None => applied(table, updates, n).contains_key(pair) == table.contains_key(pair) && (
            table.contains_key(pair) ==> applied(table, updates, n)[pair] == table[pair]),
        },
    decreases n,
{
    if n > 0 {
        lemma_applied_takes_the_last_update(table, updates, (n - 1) as nat, pair);
    }
}

} // verus!
