//! Actor pool configuration and worker selection.
//!
//! A pool routes each message to one of its workers: round-robin, by a
//! splitmix64 mix of a running counter, or by a message's routing key.

use vstd::prelude::*;
use vstd::string::*;
use crate::group::ActorRef;

verus! {

/// Routing strategy for distributing messages across pool workers.
#[derive(Debug, Clone, Copy, PartialEq, Eq, Structural)]
pub enum PoolRouting {
    /// Each successive message goes to the next worker in order.
    RoundRobin,
    /// Each message goes to a pseudo-randomly chosen worker.
    Random,
    /// Keyed messages are routed by their key; others go round-robin.
    KeyBased,
}

/// Configuration for creating an actor pool.
#[derive(Debug, Clone, Copy)]
pub struct PoolConfig {
    /// Number of workers in the pool.
    pub pool_size: usize,
    /// How messages are routed to workers.
    pub routing: PoolRouting,
}

impl PoolConfig {
    /// A pool configuration.
    pub fn new(pool_size: usize, routing: PoolRouting) -> (c: Self)
        ensures
            c.pool_size == pool_size,
            c.routing == routing,
    {
        PoolConfig { pool_size, routing }
    }
}

/// Messages that carry a routing key for key-based routing.
pub trait Keyed {
    /// The routing key used to select the target worker.
    fn routing_key(&self) -> u64;
}

/// The splitmix64 finaliser, a bijective 64-bit mix.
pub open spec fn splitmix64_spec(x: u64) -> u64 {
    let a = vstd::wrapping::u64_specs::wrapping_add(x, 0x9e3779b97f4a7c15u64);
    let b = vstd::wrapping::u64_specs::wrapping_mul(a ^ (a >> 30u64), 0xbf58476d1ce4e5b9u64);
    let c = vstd::wrapping::u64_specs::wrapping_mul(b ^ (b >> 27u64), 0x94d049bb133111ebu64);
    c ^ (c >> 31u64)
}

/// splitmix64 finaliser.
pub fn splitmix64(x: u64) -> (r: u64)
    ensures
        r == splitmix64_spec(x),
{
    let a = x.wrapping_add(0x9e3779b97f4a7c15u64);
    let b = (a ^ (a >> 30u64)).wrapping_mul(0xbf58476d1ce4e5b9u64);
    let c = (b ^ (b >> 27u64)).wrapping_mul(0x94d049bb133111ebu64);
    c ^ (c >> 31u64)
}

/// Worker index for the `n`-th routed message (n counting from 0).
pub open spec fn routed_index(routing: PoolRouting, n: u64, size: usize) -> usize {
    match routing {
        PoolRouting::Random => (splitmix64_spec(n) % (size as u64)) as usize,
        _ => (n % (size as u64)) as usize,
    }
}

/// Worker selection of a pool of `size` workers.
#[derive(Clone, Copy)]
pub struct PoolRouter {
    size: usize,
    routing: PoolRouting,
    counter: u64,
}

impl PoolRouter {
    /// Number of workers.
    pub closed spec fn size(&self) -> usize {
        self.size
    }

    /// The strategy.
    pub closed spec fn routing(&self) -> PoolRouting {
        self.routing
    }

    /// Messages routed so far (modulo 2^64).
    pub closed spec fn counter(&self) -> u64 {
        self.counter
    }

    #[verifier::type_invariant]
    spec fn router_inv(&self) -> bool {
        self.size > 0
    }

    /// A router over `size` workers; a pool must have at least one worker.
    pub fn new(size: usize, routing: PoolRouting) -> (r: Self)
        requires
            size > 0,
        ensures
            r.size() == size,
            r.routing() == routing,
            r.counter() == 0,
    {
        PoolRouter { size, routing, counter: 0 }
    }

    /// Number of workers in the pool.
    pub fn pool_size(&self) -> (n: usize)
        ensures
            n == self.size(),
    {
        self.size
    }

    /// The worker for the next message sent without a key: round-robin for
    /// `RoundRobin` and `KeyBased`, splitmix64 of the counter for `Random`.
    pub fn select(&mut self) -> (i: usize)
        ensures
            i == routed_index(old(self).routing(), old(self).counter(), old(self).size()),
            i < old(self).size(),
            final(self).counter() == vstd::wrapping::u64_specs::wrapping_add(old(self).counter(), 1),
            final(self).size() == old(self).size(),
            final(self).routing() == old(self).routing(),
    {
        proof {
            use_type_invariant(&*self);
        }
        let n = self.counter;
        self.counter = n.wrapping_add(1);
        match self.routing {
            PoolRouting::Random => {
                let m = splitmix64(n);
                (m % (self.size as u64)) as usize
            },
            _ => (n % (self.size as u64)) as usize,
        }
    }

    /// The worker for a message with routing key `key`: always the same
    /// worker for the same key.
    pub fn keyed_index(&self, key: u64) -> (i: usize)
        ensures
            i == key % (self.size() as u64),
            i < self.size(),
    {
        proof {
            use_type_invariant(self);
        }
        (key % (self.size as u64)) as usize
    }
}

/// Round-robin sends any `size` consecutive messages (that do not pass
/// the counter's wrap-around) to `size` different workers.
pub proof fn law_round_robin_visits_all(size: usize, n: u64, k1: u64, k2: u64)
    requires
        size > 0,
        k1 < size,
        k2 < size,
        k1 != k2,
        n + k1 <= u64::MAX,
        n + k2 <= u64::MAX,
    ensures
        routed_index(PoolRouting::RoundRobin, (n + k1) as u64, size) != routed_index(PoolRouting::RoundRobin, (n + k2) as u64, size),
{
    let s = size as int;
    let a = (n + k1) as int;
    let b = (n + k2) as int;
    assert(a % s != b % s) by (nonlinear_arith)
        requires
            s > 0,
            a - b < s,
            b - a < s,
            a != b,
            a >= 0,
            b >= 0,
    {
        if a % s == b % s {
            assert(a == s * (a / s) + a % s);
            assert(b == s * (b / s) + b % s);
            assert(a - b == s * (a / s - b / s));
        }
    }
}

/// Without a key, `RoundRobin` and `KeyBased` pools both route the `n`-th
/// message to worker `n mod size`, and `Random` to worker
/// `splitmix64(n) mod size`: every pick is a worker of the pool.
pub proof fn law_unkeyed_routing(n: u64, size: usize)
    requires
        size > 0,
    ensures
        routed_index(PoolRouting::RoundRobin, n, size) as int == n as int % size as int,
        routed_index(PoolRouting::KeyBased, n, size) as int == n as int % size as int,
        routed_index(PoolRouting::Random, n, size) as int == splitmix64_spec(n) as int % size as int,
        routed_index(PoolRouting::RoundRobin, n, size) < size,
        routed_index(PoolRouting::KeyBased, n, size) < size,
        routed_index(PoolRouting::Random, n, size) < size,
{
}

/// Key-based pools fall back to round-robin for messages without a key:
/// any `size` consecutive such messages (that do not pass the counter's
/// wrap-around) go to `size` different workers.
pub proof fn law_key_based_fallback_visits_all(size: usize, n: u64, k1: u64, k2: u64)
    requires
        size > 0,
        k1 < size,
        k2 < size,
        k1 != k2,
        n + k1 <= u64::MAX,
        n + k2 <= u64::MAX,
    ensures
        routed_index(PoolRouting::KeyBased, (n + k1) as u64, size) != routed_index(PoolRouting::KeyBased, (n + k2) as u64, size),
{
    law_unkeyed_routing((n + k1) as u64, size);
    law_unkeyed_routing((n + k2) as u64, size);
    law_round_robin_visits_all(size, n, k1, k2);
}

/// A pool of worker references with its routing: each message sent
/// without a key goes to the worker the router picks, a keyed message to
/// the worker its key picks.
pub struct PoolRef<R: ActorRef> {
    workers: Vec<R>,
    router: PoolRouter,
    name: String,
}

impl<R: ActorRef> PoolRef<R> {
    #[verifier::type_invariant]
    spec fn pool_inv(&self) -> bool {
        self.workers@.len() == self.router.size()
    }

    /// The workers, in order.
    pub closed spec fn workers(&self) -> Seq<R> {
        self.workers@
    }

    /// The routing strategy.
    pub closed spec fn routing(&self) -> PoolRouting {
        self.router.routing()
    }

    /// Messages routed without a key so far (modulo 2^64).
    pub closed spec fn counter(&self) -> u64 {
        self.router.counter()
    }

    /// The pool's name.
    pub closed spec fn pool_name(&self) -> Seq<char> {
        self.name@
    }

    /// A pool over `workers`, named `pool(<first worker's name>)`; a pool
    /// must have at least one worker.
    pub fn new(workers: Vec<R>, routing: PoolRouting) -> (p: Self)
        requires
            workers@.len() > 0,
        ensures
            p.workers() == workers@,
            p.routing() == routing,
            p.counter() == 0,
            p.pool_name() == "pool("@ + workers@[0].actor_name()@ + ")"@,
    {
        let first = workers[0].name();
        let mut name = String::from_str("pool(");
        name.append(first.as_str());
        name.append(")");
        let router = PoolRouter::new(workers.len(), routing);
        PoolRef { workers, router, name }
    }

    /// Number of workers.
    pub fn pool_size(&self) -> (n: usize)
        ensures
            n == self.workers().len(),
    {
        self.workers.len()
    }

    /// The pool's name.
    pub fn name(&self) -> (s: &str)
        ensures
            s@ == self.pool_name(),
    {
        self.name.as_str()
    }

    /// The worker for the next message sent without a key (see
    /// [`PoolRouter::select`]).
    pub fn select_worker(&mut self) -> (w: &R)
        ensures
            *w == old(self).workers()[routed_index(old(self).routing(), old(self).counter(), old(self).workers().len() as usize) as int],
            final(self).counter() == vstd::wrapping::u64_specs::wrapping_add(old(self).counter(), 1),
            final(self).workers() == old(self).workers(),
            final(self).routing() == old(self).routing(),
            final(self).pool_name() == old(self).pool_name(),
    {
        proof {
            use_type_invariant(&*self);
        }
        let mut router = self.router;
        let i = router.select();
        self.router = router;
        &self.workers[i]
    }

    /// The worker for a message with routing key `key`.
    pub fn keyed_worker(&self, key: u64) -> (w: &R)
        ensures
            *w == self.workers()[(key % (self.workers().len() as u64)) as int],
    {
        proof {
            use_type_invariant(self);
        }
        let i = self.router.keyed_index(key);
        &self.workers[i]
    }
}

} // verus!
