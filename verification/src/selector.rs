//! Round-robin choice among the configured endpoints.

use vstd::arithmetic::div_mod::{lemma_fundamental_div_mod, lemma_fundamental_div_mod_converse};
use vstd::prelude::*;

verus! {

/// The slot handed out `turn` calls after the cursor stood at `start`, in a
/// pool of `pool` endpoints.
pub open spec fn slot_at(start: nat, pool: nat, turn: nat) -> nat {
    (start + turn) % pool
}

/// The slot that follows `slot` in a pool of `pool` endpoints: the next
/// one, and the first after the last.
pub open spec fn successor(slot: nat, pool: nat) -> nat {
    if slot + 1 == pool {
        0
    } else {
        slot + 1
    }
}

/// How many of the first `turns` calls hand out `slot`.
pub open spec fn share(start: nat, pool: nat, turns: nat, slot: nat) -> nat
    decreases turns,
{
    if turns == 0 {
        0
    } else {
        let earlier = share(start, pool, (turns - 1) as nat, slot);
        if slot_at(start, pool, (turns - 1) as nat) == slot {
            earlier + 1
        } else {
            earlier
        }
    }
}

/// The number of turns after which `slot` comes up for the first time.
pub open spec fn distance(start: nat, pool: nat, slot: nat) -> nat {
    if slot >= start {
        (slot - start) as nat
    } else {
        (slot + pool - start) as nat
    }
}

/// The configuration holds no endpoint.
#[derive(Clone, Copy, Debug, PartialEq, Eq, Structural)]
pub struct NoEndpoints;

/// The ordered list of endpoints with the cursor that walks it.
#[derive(Debug)]
pub struct EndpointSelector {
    endpoints: Vec<String>,
    cursor: usize,
}

impl EndpointSelector {
    #[verifier::type_invariant]
    spec fn cursor_in_range(self) -> bool {
        self.cursor < self.endpoints.len()
    }

    /// The endpoints, in the order in which they were configured.
    pub closed spec fn addresses(self) -> Seq<Seq<char>> {
        self.endpoints.deep_view()
    }

    /// The slot that the next call hands out.
    pub closed spec fn position(self) -> nat {
        self.cursor as nat
    }

    /// A selector over `endpoints` that starts with the first of them.
    /// Fails exactly when the list is empty.
    pub fn new(endpoints: Vec<String>) -> (r: Result<EndpointSelector, NoEndpoints>)
        ensures
            r is Err <==> endpoints.len() == 0,
            r matches Ok(selector) ==> {
                &&& selector.addresses() == endpoints.deep_view()
                &&& selector.position() == 0
            },
    {
        if endpoints.len() == 0 {
            Err(NoEndpoints)
        } else {
            Ok(EndpointSelector { endpoints, cursor: 0 })
        }
    }

    /// The number of endpoints, which is never zero.
    pub fn len(&self) -> (n: usize)
        ensures
            n == self.addresses().len(),
            n > 0,
            self.position() < n,
    {
        proof {
            use_type_invariant(self);
        }
        self.endpoints.len()
    }

    /// Hands out the endpoint under the cursor and moves the cursor on by
    /// one, back to the first endpoint after the last.
    pub fn next(&mut self) -> (endpoint: String)
        ensures
            final(self).addresses() == old(self).addresses(),
            old(self).position() < old(self).addresses().len(),
            endpoint@ == old(self).addresses()[old(self).position() as int],
            final(self).position() == successor(
                old(self).position(),
                old(self).addresses().len(),
            ),
    {
        proof {
            use_type_invariant(&*self);
        }
        let n = self.endpoints.len();
        let endpoint = self.endpoints[self.cursor].clone();
        if self.cursor + 1 == n {
            self.cursor = 0;
        } else {
            self.cursor = self.cursor + 1;
        }
        endpoint
    }
}

/// A number below the modulus is its own remainder.
proof fn lemma_small(x: int, m: int)
    requires
        0 <= x < m,
    ensures
        x % m == x,
        x / m == 0,
{
    assert(x == 0 * m + x);
    lemma_fundamental_div_mod_converse(x, m, 0, x);
}

/// Quotient and remainder of the successor of a number.
proof fn lemma_step(x: int, m: int)
    requires
        0 <= x,
        0 < m,
    ensures
        0 <= x % m < m,
        x % m == m - 1 ==> (x + 1) / m == x / m + 1 && (x + 1) % m == 0,
        x % m != m - 1 ==> (x + 1) / m == x / m && (x + 1) % m == x % m + 1,
{
    let q = x / m;
    let r = x % m;
    lemma_fundamental_div_mod(x, m);
    assert(x == q * m + r) by (nonlinear_arith)
        requires
            x == m * q + r,
    ;
    if r == m - 1 {
        assert(x + 1 == (q + 1) * m + 0) by (nonlinear_arith)
            requires
                x == q * m + r,
                r == m - 1,
        ;
        lemma_fundamental_div_mod_converse(x + 1, m, q + 1, 0);
    } else {
        lemma_fundamental_div_mod_converse(x + 1, m, q, r + 1);
    }
}

/// A slot comes up at a turn exactly when the turn's remainder is the
/// slot's distance from the start.
proof fn lemma_slot_hit(start: nat, pool: nat, turn: nat, slot: nat)
    requires
        start < pool,
        slot < pool,
    ensures
        slot_at(start, pool, turn) == slot <==> turn % pool == distance(start, pool, slot),
{
    let m = pool as int;
    let q = turn as int / m;
    let r = turn as int % m;
    lemma_fundamental_div_mod(turn as int, m);
    assert(0 <= r < m) by {
        lemma_step(turn as int, m);
    }
    if start + r < m {
        assert(start + turn == q * m + (start + r)) by (nonlinear_arith)
            requires
                turn == m * q + r,
        ;
        lemma_fundamental_div_mod_converse((start + turn) as int, m, q, start + r);
    } else {
        assert(start + turn == (q + 1) * m + (start + r - m)) by (nonlinear_arith)
            requires
                turn == m * q + r,
        ;
        lemma_fundamental_div_mod_converse((start + turn) as int, m, q + 1, start + r - m);
    }
}

/// Calls walk the slots in order: the first call hands out the slot under
/// the cursor, and each later call the successor of the slot before it.
pub proof fn lemma_calls_walk_the_slots(start: nat, pool: nat, turn: nat)
    requires
        start < pool,
    ensures
        slot_at(start, pool, 0) == start,
        slot_at(start, pool, turn) < pool,
        slot_at(start, pool, turn + 1) == successor(slot_at(start, pool, turn), pool),
{
    lemma_small(start as int, pool as int);
    lemma_step((start + turn) as int, pool as int);
}

/// Composition of turns: the slot reached after `a` turns, taken as a new
/// start, leads after `b` more turns to the slot reached after `a + b`.
pub proof fn lemma_turns_compose(start: nat, pool: nat, a: nat, b: nat)
    requires
        start < pool,
    ensures
        slot_at(start, pool, a) < pool,
        slot_at(slot_at(start, pool, a), pool, b) == slot_at(start, pool, a + b),
    decreases b,
{
    let m = pool as int;
    lemma_step((start + a) as int, m);
    if b == 0 {
        lemma_small(slot_at(start, pool, a) as int, m);
    } else {
        lemma_turns_compose(start, pool, a, (b - 1) as nat);
        let mid = slot_at(start, pool, a);
        lemma_step((mid + b - 1) as int, m);
        lemma_step((start + a + b - 1) as int, m);
    }
}

/// The exact share of a slot: one call in every full round, and one more
/// when the slot's distance from the start lies within the last, partial
/// round.
pub proof fn lemma_share_exact(start: nat, pool: nat, turns: nat, slot: nat)
    requires
        start < pool,
        slot < pool,
    ensures
        share(start, pool, turns, slot) == turns / pool + if distance(start, pool, slot) < turns
            % pool {
            1nat
        } else {
            0nat
        },
    decreases turns,
{
    let m = pool as int;
    if turns == 0 {
        lemma_small(0, m);
    } else {
        let before = (turns - 1) as nat;
        lemma_share_exact(start, pool, before, slot);
        lemma_slot_hit(start, pool, before, slot);
        lemma_step(before as int, m);
    }
}

/// Round-robin fairness: over any number of consecutive calls, from any
/// cursor position, every slot is handed out either the floor or the
/// ceiling of `turns / pool` times, whoever makes the calls and in whatever
/// order.
pub proof fn lemma_round_robin_is_fair(start: nat, pool: nat, turns: nat, slot: nat)
    requires
        start < pool,
        slot < pool,
    ensures
        share(start, pool, turns, slot) == turns / pool || share(start, pool, turns, slot) == (turns
            + pool - 1) / (pool as int),
        turns / pool <= share(start, pool, turns, slot) <= (turns + pool - 1) / (pool as int),
        turns % pool == 0 ==> share(start, pool, turns, slot) == turns / pool,
{
    let m = pool as int;
    let q = turns as int / m;
    let r = turns as int % m;
    lemma_share_exact(start, pool, turns, slot);
    lemma_fundamental_div_mod(turns as int, m);
    lemma_step(turns as int, m);
    if r == 0 {
        assert(turns + pool - 1 == q * m + (m - 1)) by (nonlinear_arith)
            requires
                turns == m * q + r,
                r == 0,
                m == pool,
        ;
        lemma_fundamental_div_mod_converse(turns + pool - 1, m, q, m - 1);
    } else {
        assert(turns + pool - 1 == (q + 1) * m + (r - 1)) by (nonlinear_arith)
            requires
                turns == m * q + r,
                m == pool,
        ;
        lemma_fundamental_div_mod_converse(turns + pool - 1, m, q + 1, r - 1);
    }
}

} // verus!
