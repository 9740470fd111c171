//! Lambda client pool for HTTP/2 connection distribution.
//!
//! The AWS SDK's Lambda client uses HTTP/2, which multiplexes requests over a single
//! TCP connection. However, HTTP/2 servers limit concurrent streams per connection
//! (typically ~250 for AWS Lambda). When this limit is reached, requests queue up
//! waiting for stream slots.
//!
//! This module provides a pool of Lambda clients, each with its own HTTP/2 connection,
//! allowing us to scale beyond the single-connection stream limit.

use vstd::arithmetic::div_mod::{
    lemma_add_mod_noop_right, lemma_fundamental_div_mod_converse, lemma_mod_bound, lemma_mod_mod, lemma_mul_mod_noop, lemma_small_mod,
};
use vstd::multiset::Multiset;
use vstd::prelude::*;

verus! {

/// Default number of Lambda clients in the pool. Each client maintains its own
/// HTTP/2 connection, and HTTP/2 servers typically allow ~250 concurrent streams
/// per connection. With 64 clients, we can support ~16,000 concurrent requests.
pub const DEFAULT_POOL_SIZE: usize = 64;

/// A Lambda client with tracking for active requests.
///
/// The `active` counter tracks how many requests are currently using this client,
/// enabling load-balanced client selection.
pub struct PooledClient<C> {
    client: C,
    active: usize,
}

impl<C> PooledClient<C> {
    /// The client itself.
    pub closed spec fn inner(&self) -> C {
        self.client
    }

    /// How many requests are using the client.
    pub closed spec fn load(&self) -> usize {
        self.active
    }

    /// Create a new pooled client.
    pub fn new(client: C) -> (pooled: PooledClient<C>)
        ensures
            pooled.inner() == client,
            pooled.load() == 0,
    {
        PooledClient { client, active: 0 }
    }

    /// Get the current number of active requests on this client.
    pub fn active_count(&self) -> (count: usize)
        ensures
            count == self.load(),
    {
        self.active
    }
}

/// The right to use a client of a pool, until it is given back with `ClientPool::release`.
pub struct ClientGuard {
    index: usize,
}

impl ClientGuard {
    /// Which client of the pool may be used.
    pub closed spec fn at(&self) -> int {
        self.index as int
    }

    /// Get a reference to the underlying Lambda client.
    pub fn client<'a, C>(&self, pool: &'a ClientPool<C>) -> (client: &'a C)
        requires
            0 <= self.at() < pool.inners().len(),
        ensures
            *client == pool.inners()[self.at()],
    {
        &pool.clients[self.index].client
    }
}

/// A pool of Lambda clients for distributing requests across HTTP/2 connections.
///
/// Uses "power of two choices" algorithm for load balancing: randomly select two
/// clients and use the one with fewer active requests. This achieves near-optimal
/// load distribution with O(1) overhead.
pub struct ClientPool<C> {
    clients: Vec<PooledClient<C>>,
    /// Counter for pseudo-random client selection
    counter: usize,
}

/// The two clients of a pool that stand to choice: by the counter, and by a multiplicative hash of
/// it, or the next one where both are the same.
pub open spec fn candidates(r: usize, len: usize) -> (int, int) {
    let first = r as int % len as int;
    let hashed = r.wrapping_mul(2654435761) as int % len as int;
    if hashed == first {
        (first, (first + 1) % len as int)
    } else {
        (first, hashed)
    }
}

/// Picks two clients of a pool of `len` by the counter.
pub fn candidate_indices(r: usize, len: usize) -> (indices: (usize, usize))
    requires
        len > 0,
    ensures
        (indices.0 as int, indices.1 as int) == candidates(r, len),
        indices.0 < len,
        indices.1 < len,
        len > 1 ==> indices.0 != indices.1,
{
    let idx1: usize = r % len;
    let mut idx2: usize = r.wrapping_mul(2654435761) % len;
    proof {
        law_candidates_differ(r, len);
    }
    if idx2 == idx1 {
        idx2 = (idx1 + 1) % len;
    }
    (idx1, idx2)
}

/// The less loaded of two clients, and the first of them where both are loaded alike.
pub open spec fn less_loaded(loads: Seq<usize>, first: int, second: int) -> int {
    if loads[first] <= loads[second] {
        first
    } else {
        second
    }
}

/// The client that a pool hands out next.
pub open spec fn next_client(loads: Seq<usize>, counter: usize) -> int {
    if loads.len() == 1 {
        0
    } else {
        let (first, second) = candidates(counter, loads.len() as usize);
        less_loaded(loads, first, second)
    }
}

/// How many requests use clients in all.
pub open spec fn total_load(loads: Seq<usize>) -> nat
    decreases loads.len(),
{
    if loads.len() == 0 {
        0
    } else {
        total_load(loads.drop_last()) + loads.last() as nat
    }
}

impl<C> ClientPool<C> {
    /// The clients of the pool.
    pub closed spec fn inners(&self) -> Seq<C> {
        Seq::new(self.clients@.len(), |i: int| self.clients@[i].inner())
    }

    /// How many requests use each client.
    pub closed spec fn loads(&self) -> Seq<usize> {
        Seq::new(self.clients@.len(), |i: int| self.clients@[i].load())
    }

    /// The counter that the next choice goes by.
    pub closed spec fn turn(&self) -> usize {
        self.counter
    }

    /// A pool has a client, and no more than can be counted.
    #[verifier::type_invariant]
    pub open spec fn wf(&self) -> bool {
        &&& 0 < self.inners().len() <= usize::MAX
        &&& self.loads().len() == self.inners().len()
    }

    /// Create a new client pool from a vector of Lambda clients.
    pub fn new(clients: Vec<C>) -> (pool: ClientPool<C>)
        requires
            clients@.len() > 0,
        ensures
            pool.wf(),
            pool.inners() == clients@,
            pool.loads() == Seq::new(clients@.len(), |i: int| 0usize),
            pool.turn() == 0,
    {
        let ghost all = clients@;
        let mut pooled: Vec<PooledClient<C>> = Vec::new();
        for client in it: clients
            invariant
                it.seq() == all,
                pooled@.len() == it.index(),
                forall|i: int|
                    0 <= i < pooled@.len() ==> (#[trigger] pooled@[i]).inner() == all[i]
                        && pooled@[i].load() == 0,
        {
            pooled.push(PooledClient::new(client));
        }
        assert(pooled.len() == all.len());
        ClientPool { clients: pooled, counter: 0 }
    }

    /// Acquire a client from the pool using power-of-two choices.
    ///
    /// This selects two random clients and returns the one with fewer active
    /// requests. The active count is decremented when the guard is given back.
    pub fn acquire(&mut self) -> (guard: ClientGuard)
        ensures
            final(self).wf(),
            final(self).inners() == old(self).inners(),
            0 <= guard.at() < old(self).loads().len(),
            guard.at() == next_client(old(self).loads(), old(self).turn()),
            final(self).loads() == old(self).loads().update(
                guard.at(),
                old(self).loads()[guard.at()].wrapping_add(1),
            ),
            final(self).turn() == if old(self).loads().len() == 1 {
                old(self).turn()
            } else {
                old(self).turn().wrapping_add(1)
            },
    {
        proof {
            use_type_invariant(&*self);
        }
        let len: usize = self.clients.len();
        if len == 1 {
            // Fast path for single client
            self.change_load(0, true);
            return ClientGuard { index: 0 };
        }
        // Generate two pseudo-random indices from the counter
        let r: usize = self.counter;
        self.counter = r.wrapping_add(1);
        let (idx1, idx2) = candidate_indices(r, len);
        // Pick the client with fewer active requests
        let chosen: usize = if self.clients[idx1].active <= self.clients[idx2].active {
            idx1
        } else {
            idx2
        };
        self.change_load(chosen, true);
        ClientGuard { index: chosen }
    }

    /// Gives a client back.
    pub fn release(&mut self, guard: ClientGuard)
        requires
            0 <= guard.at() < old(self).loads().len(),
        ensures
            final(self).wf(),
            final(self).inners() == old(self).inners(),
            final(self).turn() == old(self).turn(),
            final(self).loads() == old(self).loads().update(
                guard.at(),
                old(self).loads()[guard.at()].wrapping_sub(1),
            ),
    {
        self.change_load(guard.index, false);
    }

    /// Counts one request more or less on a client.
    fn change_load(&mut self, at: usize, more: bool)
        requires
            at < old(self).loads().len(),
        ensures
            final(self).wf(),
            final(self).counter == old(self).counter,
            final(self).inners() == old(self).inners(),
            final(self).loads() == old(self).loads().update(
                at as int,
                if more {
                    old(self).loads()[at as int].wrapping_add(1)
                } else {
                    old(self).loads()[at as int].wrapping_sub(1)
                },
            ),
    {
        proof {
            use_type_invariant(&*self);
        }
        let active: usize = self.clients[at].active;
        let changed: usize = if more {
            active.wrapping_add(1)
        } else {
            active.wrapping_sub(1)
        };
        let pooled = &mut self.clients[at];
        pooled.active = changed;
    }

    /// Get the number of clients in the pool.
    pub fn len(&self) -> (n: usize)
        ensures
            n == self.inners().len(),
    {
        self.clients.len()
    }

    /// Check if the pool is empty.
    pub fn is_empty(&self) -> (empty: bool)
        ensures
            empty == (self.inners().len() == 0),
            !empty,
    {
        proof {
            use_type_invariant(self);
        }
        self.clients.len() == 0
    }

    /// Get the first client directly (useful for probes).
    ///
    /// This does NOT increment the active count - use only for operations
    /// that don't need load balancing (like health probes).
    pub fn first_client(&self) -> (client: &C)
        ensures
            *client == self.inners()[0],
    {
        proof {
            use_type_invariant(self);
        }
        &self.clients[0].client
    }

    /// Get the total number of active requests across all clients.
    pub fn total_active(&self) -> (total: usize)
        requires
            total_load(self.loads()) <= usize::MAX,
        ensures
            total == total_load(self.loads()),
    {
        let mut total: usize = 0;
        let mut i: usize = 0;
        let ghost loads = self.loads();
        assert(loads.take(0) == Seq::<usize>::empty());
        while i < self.clients.len()
            invariant
                i <= self.clients@.len(),
                loads == self.loads(),
                total == total_load(loads.take(i as int)),
                total_load(loads) <= usize::MAX,
            decreases self.clients@.len() - i,
        {
            proof {
                assert(loads.take(i + 1).drop_last() == loads.take(i as int));
                assert(loads.take(i + 1).last() == self.clients@[i as int].active);
                lemma_total_load_of_part(loads, i + 1);
            }
            total = total + self.clients[i].active;
            i = i + 1;
        }
        assert(loads.take(i as int) == loads);
        total
    }
}

/// The first clients carry no more than all of them.
proof fn lemma_total_load_of_part(loads: Seq<usize>, n: int)
    requires
        0 <= n <= loads.len(),
    ensures
        total_load(loads.take(n)) <= total_load(loads),
    decreases loads.len(),
{
    if n < loads.len() {
        lemma_total_load_of_part(loads.drop_last(), n);
        assert(loads.drop_last().take(n) == loads.take(n));
    } else {
        assert(loads.take(n) == loads);
    }
}

/// The clients that stand to choice are clients of the pool, and where it has more than one, they
/// are two different ones.
pub proof fn law_candidates_differ(r: usize, len: usize)
    requires
        len > 0,
    ensures
        0 <= candidates(r, len).0 < len,
        0 <= candidates(r, len).1 < len,
        len > 1 ==> candidates(r, len).0 != candidates(r, len).1,
{
    let first = r as int % len as int;
    lemma_mod_bound(r as int, len as int);
    lemma_mod_bound(r.wrapping_mul(2654435761) as int, len as int);
    lemma_mod_bound(first + 1, len as int);
    if first + 1 < len {
        lemma_small_mod((first + 1) as nat, len as nat);
    } else {
        assert((first + 1) % len as int == 0) by (nonlinear_arith)
            requires
                first + 1 == len,
                len > 0,
        ;
    }
}

/// While the counter goes through as many values as the pool has clients, every client stands to
/// choice by the counter.
pub proof fn law_every_client_stands_to_choice(r: usize, len: usize, client: int) -> (turn: usize)
    requires
        len > 0,
        r + len <= usize::MAX,
        0 <= client < len,
    ensures
        r <= turn < r + len,
        candidates(turn, len).0 == client,
{
    let n = len as int;
    let step = (client - r) % n;
    lemma_mod_bound(client - r, n);
    lemma_add_mod_noop_right(r as int, client - r, n);
    assert(r + (client - r) == client);
    lemma_small_mod(client as nat, len as nat);
    (r + step) as usize
}

/// Where the hash of a counter leads in a pool of the default size.
#[verifier::spinoff_prover]
proof fn lemma_hash_in_default_pool(r: usize)
    ensures
        r.wrapping_mul(2654435761) as int % 64 == (49 * (r as int % 64)) % 64,
{
    let product = r * 2654435761;
    let range = usize::MAX + 1;
    assert(range == 0x1_0000_0000 || range == 0x1_0000_0000_0000_0000);
    assert(range == 64 * (range / 64));
    lemma_mod_mod(product, 64, range / 64);
    lemma_mul_mod_noop(r as int, 2654435761, 64);
    assert((r as int % 64) * (2654435761int % 64) == 49 * (r as int % 64));
}

/// In a pool of the default size, the hash of a number below the size tells the number, and is the
/// number itself only for multiples of four.
proof fn lemma_hash_can_be_turned_back(a: int)
    requires
        0 <= a < 64,
    ensures
        (17 * ((49 * a) % 64)) % 64 == a,
        (49 * a) % 64 == a ==> a % 4 == 0,
{
    let h = (49 * a) % 64;
    let q = (49 * a) / 64;
    assert(49 * a == 64 * q + h);
    let k = 13 * a - 17 * q;
    assert(17 * h == 64 * k + a);
    lemma_fundamental_div_mod_converse(17 * h, 64, k, a);
    if h == a {
        assert(a == 4 * (a - q));
    }
}

/// The second client that stands to choice in a pool of the default size is where the hash leads,
/// unless the counter is a multiple of four.
proof fn lemma_second_candidate_in_default_pool(r: usize)
    requires
        r as int % 64 % 4 != 0,
    ensures
        candidates(r, DEFAULT_POOL_SIZE).1 == (49 * (r as int % 64)) % 64,
{
    lemma_hash_in_default_pool(r);
    lemma_hash_can_be_turned_back(r as int % 64);
}

/// The second clients that stand to choice spread over a pool of the default size: counters that
/// are no multiples of four lead to different ones, unless they are the same modulo the size.
#[verifier::spinoff_prover]
pub proof fn law_second_candidates_spread(r: usize, s: usize)
    requires
        r % 4 != 0,
        s % 4 != 0,
        r % DEFAULT_POOL_SIZE != s % DEFAULT_POOL_SIZE,
    ensures
        candidates(r, DEFAULT_POOL_SIZE).1 != candidates(s, DEFAULT_POOL_SIZE).1,
{
    lemma_mod_mod(r as int, 4, 16);
    lemma_mod_mod(s as int, 4, 16);
    lemma_second_candidate_in_default_pool(r);
    lemma_second_candidate_in_default_pool(s);
    lemma_hash_can_be_turned_back(r as int % 64);
    lemma_hash_can_be_turned_back(s as int % 64);
}

/// The client that a pool hands out is one that stands to choice, and none that stands to choice has
/// fewer requests.
pub proof fn law_less_loaded_client_is_chosen(loads: Seq<usize>, counter: usize)
    requires
        1 < loads.len() <= usize::MAX,
    ensures
        ({
            let (first, second) = candidates(counter, loads.len() as usize);
            let chosen = next_client(loads, counter);
            &&& chosen == first || chosen == second
            &&& loads[chosen] <= loads[first]
            &&& loads[chosen] <= loads[second]
        }),
{
}

/// The load of a pool after the load of one client has changed.
proof fn lemma_total_load_update(loads: Seq<usize>, at: int, load: usize)
    requires
        0 <= at < loads.len(),
    ensures
        total_load(loads.update(at, load)) == total_load(loads) - loads[at] + load,
    decreases loads.len(),
{
    let updated = loads.update(at, load);
    if at == loads.len() - 1 {
        assert(updated.drop_last() == loads.drop_last());
    } else {
        assert(updated.drop_last() == loads.drop_last().update(at, load));
        lemma_total_load_update(loads.drop_last(), at, load);
    }
}

/// Handing a client out puts one request more on the pool; giving it back leaves every client with
/// the requests it had.
pub proof fn law_release_undoes_acquire(loads: Seq<usize>, at: int)
    requires
        0 <= at < loads.len(),
    ensures
        ({
            let held = loads.update(at, loads[at].wrapping_add(1));
            &&& loads[at] < usize::MAX ==> total_load(held) == total_load(loads) + 1
            &&& held.update(at, held[at].wrapping_sub(1)) == loads
        }),
{
    let held = loads.update(at, loads[at].wrapping_add(1));
    lemma_total_load_update(loads, at, loads[at].wrapping_add(1));
    assert(held.update(at, held[at].wrapping_sub(1)) == loads);
}

/// Whether each client carries one request for each guard that is out for it.
pub open spec fn loads_count_guards(loads: Seq<usize>, out: Multiset<int>) -> bool {
    &&& forall|at: int| 0 <= at < loads.len() ==> #[trigger] loads[at] == out.count(at)
    &&& forall|at: int| #[trigger] out.count(at) > 0 ==> 0 <= at < loads.len()
}

/// The loads of a pool always count the guards that are out: they do before any is handed out, and
/// handing one out and giving one back keeps it so.
pub proof fn law_loads_count_guards(loads: Seq<usize>, out: Multiset<int>, at: int)
    requires
        0 <= at < loads.len(),
    ensures
        loads_count_guards(Seq::new(loads.len(), |i: int| 0usize), Multiset::<int>::empty()),
        loads_count_guards(loads, out) && loads[at] < usize::MAX ==> loads_count_guards(
            loads.update(at, loads[at].wrapping_add(1)),
            out.insert(at),
        ),
        loads_count_guards(loads, out) && out.count(at) > 0 ==> loads_count_guards(
            loads.update(at, loads[at].wrapping_sub(1)),
            out.remove(at),
        ),
{
    broadcast use vstd::multiset::group_multiset_axioms;

}

/// While the loads count the guards that are out, the total load is their number.
pub proof fn law_total_load_counts_guards(loads: Seq<usize>, out: Multiset<int>)
    requires
        loads_count_guards(loads, out),
    ensures
        total_load(loads) == out.len(),
    decreases out.len(),
{
    broadcast use vstd::multiset::group_multiset_axioms;

    if out.len() == 0 {
        assert forall|at: int| 0 <= at < loads.len() implies #[trigger] loads[at] == 0 by {
            if out.count(at) > 0 {
                assert(out.remove(at).len() == out.len() - 1);
            }
        }
        lemma_total_load_of_idle(loads);
    } else {
        let at = out.choose();
        assert(out.count(at) > 0);
        let left = loads.update(at, loads[at].wrapping_sub(1));
        law_loads_count_guards(loads, out, at);
        law_total_load_counts_guards(left, out.remove(at));
        lemma_total_load_update(loads, at, loads[at].wrapping_sub(1));
    }
}

/// A pool that no request uses carries no load.
proof fn lemma_total_load_of_idle(loads: Seq<usize>)
    requires
        forall|at: int| 0 <= at < loads.len() ==> #[trigger] loads[at] == 0,
    ensures
        total_load(loads) == 0,
    decreases loads.len(),
{
    if loads.len() > 0 {
        lemma_total_load_of_idle(loads.drop_last());
        assert(loads[loads.len() - 1] == 0);
    }
}

/// Of two clients that stand to choice the first is chosen unless the second has fewer requests; a
/// pool of one client always hands that one out.
pub proof fn law_choice_prefers_first(loads: Seq<usize>, counter: usize)
    requires
        0 < loads.len() <= usize::MAX,
    ensures
        ({
            let len = loads.len() as int;
            let first = counter as int % len;
            let hashed = counter.wrapping_mul(2654435761) as int % len;
            let second = if hashed == first {
                (first + 1) % len
            } else {
                hashed
            };
            next_client(loads, counter) == if loads.len() == 1 {
                0
            } else if loads[second] < loads[first] {
                second
            } else {
                first
            }
        }),
{
}

} // verus!
