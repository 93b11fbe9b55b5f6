//! The exchange-rate graph.
//!
//! A mapping from ordered currency pairs to a rate.  Setting `(A,B) = r`
//! also sets `(B,A) = 1/r` unless `r` is zero.  A rate between two
//! currencies that are not directly connected is resolved by breadth-first
//! search over the stored edges, multiplying the rates along the first path
//! found; the graph is not guaranteed transitively consistent.

use vstd::prelude::*;

verus! {

use crate::currency::Currency;
use crate::decimal::{Dec, dec_mul, dec_div, s_mul, s_div};

/// One directed edge: from, to, rate.
pub type Edge = (Currency, Currency, Dec);

/// The exchange-rate store.
#[derive(Clone, Debug)]
pub struct RateGraph {
    pub edges: Vec<Edge>,
}

/// All stored rates are well-formed decimals.
pub open spec fn edges_wf(edges: Seq<Edge>) -> bool {
    forall|i: int| 0 <= i < edges.len() ==> (#[trigger] edges[i]).2.wf()
}

/// The index of the edge `from -> to`, if one is stored.
pub open spec fn spec_find_edge(edges: Seq<Edge>, from: Currency, to: Currency, i: int) -> Option<
    int,
>
    decreases edges.len() - i,
{
    if i < 0 || i >= edges.len() {
        None
    } else if edges[i].0 == from && edges[i].1 == to {
        Some(i)
    } else {
        spec_find_edge(edges, from, to, i + 1)
    }
}

/// The edges after storing `from -> to = rate`: the existing entry updated,
/// or a new entry appended.
pub open spec fn spec_upsert(edges: Seq<Edge>, from: Currency, to: Currency, rate: Dec) -> Seq<
    Edge,
> {
    match spec_find_edge(edges, from, to, 0) {
        Some(i) => edges.update(i, (from, to, rate)),
        None => edges.push((from, to, rate)),
    }
}

/// The edges after `set_rate(from, to, rate)`: the pair stored, and, for a
/// nonzero rate whose inverse is representable, the inverse pair too.
pub open spec fn spec_set_rate(edges: Seq<Edge>, from: Currency, to: Currency, rate: Dec) -> Seq<
    Edge,
> {
    let e1 = spec_upsert(edges, from, to, rate);
    if rate.mag != 0 {
        match s_div(Dec { neg: false, mag: 1u128, scale: 0 }, rate) {
            Some(inv) => spec_upsert(e1, to, from, inv),
            None => e1,
        }
    } else {
        e1
    }
}

// ---------------------------------------------------------------------------
// The breadth-first search, at the specification level.
// ---------------------------------------------------------------------------
/// How many flags are set.
pub open spec fn count_true(s: Seq<bool>) -> int
    decreases s.len(),
{
    if s.len() == 0 {
        0
    } else {
        count_true(s.drop_last()) + if s.last() {
            1int
        } else {
            0int
        }
    }
}

proof fn lemma_count_true_le(s: Seq<bool>)
    ensures
        0 <= count_true(s) <= s.len(),
    decreases s.len(),
{
    if s.len() > 0 {
        lemma_count_true_le(s.drop_last());
    }
}

proof fn lemma_count_true_update(s: Seq<bool>, i: int)
    requires
        0 <= i < s.len(),
        !s[i],
    ensures
        count_true(s.update(i, true)) == count_true(s) + 1,
    decreases s.len(),
{
    if i == s.len() - 1 {
        assert(s.update(i, true).drop_last() =~= s.drop_last());
    } else {
        assert(s.update(i, true).drop_last() =~= s.drop_last().update(i, true));
        lemma_count_true_update(s.drop_last(), i);
    }
}

/// One node expanded: every outgoing edge to an unseen currency queues that
/// currency with the accumulated rate (an unrepresentable product is
/// skipped) and marks it seen.
pub open spec fn spec_expand(
    edges: Seq<Edge>,
    j: int,
    queue: Seq<(Currency, Dec)>,
    seen: Seq<bool>,
    cur: Currency,
    cur_rate: Dec,
) -> (Seq<(Currency, Dec)>, Seq<bool>)
    decreases edges.len() - j,
{
    if j < 0 || j >= edges.len() {
        (queue, seen)
    } else {
        let e = edges[j];
        if e.0 == cur && 0 <= e.1.spec_rank() < seen.len() && !seen[e.1.spec_rank()] {
            match s_mul(cur_rate, e.2) {
                Some(nd) => spec_expand(
                    edges,
                    j + 1,
                    queue.push((e.1, nd)),
                    seen.update(e.1.spec_rank(), true),
                    cur,
                    cur_rate,
                ),
                None => spec_expand(edges, j + 1, queue, seen, cur, cur_rate),
            }
        } else {
            spec_expand(edges, j + 1, queue, seen, cur, cur_rate)
        }
    }
}

/// The search: take the next queued currency; if it is the target its
/// accumulated rate answers, else its node is expanded and the search goes
/// on.  The queue never outgrows the number of currencies.
pub open spec fn spec_bfs(
    edges: Seq<Edge>,
    queue: Seq<(Currency, Dec)>,
    seen: Seq<bool>,
    head: int,
    to: Currency,
) -> Option<Dec>
    decreases 30 - head,
{
    if head < 0 || head >= queue.len() || head >= 30 {
        None
    } else {
        let (cur, rate) = queue[head];
        if cur == to {
            Some(rate)
        } else {
            let qs = spec_expand(edges, 0, queue, seen, cur, rate);
            spec_bfs(edges, qs.0, qs.1, head + 1, to)
        }
    }
}

/// The seen flags before the search: only the start currency.
pub open spec fn spec_init_seen(from: Currency) -> Seq<bool> {
    Seq::new(29, |i: int| i == from.spec_rank())
}

/// What `get_rate` yields: one for the identity, else the product of the
/// rates along the first path that the search finds.
pub open spec fn spec_get_rate(edges: Seq<Edge>, from: Currency, to: Currency) -> Option<Dec> {
    if from == to {
        Some(Dec { neg: false, mag: 1u128, scale: 0 })
    } else {
        spec_bfs(
            edges,
            seq![(from, Dec { neg: false, mag: 1u128, scale: 0 })],
            spec_init_seen(from),
            0,
            to,
        )
    }
}

// ---------------------------------------------------------------------------
// The executable graph.
// ---------------------------------------------------------------------------
/// Queue rates are well-formed.
pub open spec fn queue_wf(q: Seq<(Currency, Dec)>) -> bool {
    forall|i: int| 0 <= i < q.len() ==> (#[trigger] q[i]).1.wf()
}

impl RateGraph {
    /// All stored rates are well-formed.
    pub open spec fn wf(self) -> bool {
        edges_wf(self.edges@)
    }

    /// An empty graph.
    pub fn new() -> (r: RateGraph)
        ensures
            r.edges@ == Seq::<Edge>::empty(),
            r.wf(),
    {
        RateGraph { edges: Vec::new() }
    }

    /// Drop every stored rate.
    pub fn clear(&mut self)
        ensures
            final (self).edges@ == Seq::<Edge>::empty(),
            final (self).wf(),
    {
        self.edges.clear();
    }

    #[verifier::loop_isolation(false)]
    fn upsert(&mut self, from: Currency, to: Currency, rate: Dec)
        requires
            old(self).wf(),
            rate.wf(),
        ensures
            final (self).edges@ == spec_upsert(old(self).edges@, from, to, rate),
            final (self).wf(),
    {
        let n = self.edges.len();
        let mut i: usize = 0;
        while i < n
            invariant
                i <= n,
                n == self.edges@.len(),
                self == old(self),
                spec_find_edge(self.edges@, from, to, 0) == spec_find_edge(
                    self.edges@,
                    from,
                    to,
                    i as int,
                ),
            decreases n - i,
        {
            let e = &self.edges[i];
            if e.0 == from && e.1 == to {
                self.edges.set(i, (from, to, rate));
                return ;
            }
            i = i + 1;
        }
        self.edges.push((from, to, rate));
    }

    /// Store a rate, and its inverse when the rate is nonzero and the
    /// inverse is representable.
    pub fn set_rate(&mut self, from: Currency, to: Currency, rate: Dec)
        requires
            old(self).wf(),
            rate.wf(),
        ensures
            final (self).edges@ == spec_set_rate(old(self).edges@, from, to, rate),
            final (self).wf(),
    {
        self.upsert(from, to, rate);
        if rate.mag != 0 {
            let one = Dec::one();
            match dec_div(&one, &rate) {
                Some(inv) => {
                    self.upsert(to, from, inv);
                }
                None => {}
            }
        }
    }

    /// Resolve a rate: one for the identity, else the product of the rates
    /// along the first path that a breadth-first search over the stored
    /// edges finds; `None` iff no path reaches the target.
    #[verifier::loop_isolation(false)]
    pub fn get_rate(&self, from: Currency, to: Currency) -> (r: Option<Dec>)
        requires
            self.wf(),
        ensures
            r == spec_get_rate(self.edges@, from, to),
            r matches Some(d) ==> d.wf(),
    {
        let one = Dec::one();
        if from == to {
            return Some(one);
        }
        let mut queue: Vec<(Currency, Dec)> = Vec::new();
        queue.push((from, one));
        let mut seen: Vec<bool> = Vec::new();
        let mut k: usize = 0;
        while k < 29
            invariant
                k <= 29,
                seen@.len() == k,
                forall|i: int| 0 <= i < k ==> seen@[i] == (i == from.spec_rank()),
                count_true(seen@) == if from.spec_rank() < k {
                    1int
                } else {
                    0int
                },
            decreases 29 - k,
        {
            let b = k == from.rank();
            proof {
                assert(seen@.push(b).drop_last() =~= seen@);
            }
            seen.push(b);
            k = k + 1;
        }
        proof {
            assert(seen@ =~= spec_init_seen(from));
            assert(count_true(seen@) == 1);
        }
        let mut head: usize = 0;
        while head < queue.len()
            invariant
                queue@.len() <= 29,
                head <= queue@.len(),
                seen@.len() == 29,
                queue_wf(queue@),
                count_true(seen@) <= 29,
                queue@.len() <= count_true(seen@),
                spec_bfs(self.edges@, queue@, seen@, head as int, to) == spec_get_rate(
                    self.edges@,
                    from,
                    to,
                ),
            decreases 30 - head,
        {
            let cur = queue[head].0;
            let cur_rate = queue[head].1;
            if cur == to {
                return Some(cur_rate);
            }
            let ghost q0 = queue@;
            let ghost s0 = seen@;
            let n = self.edges.len();
            let mut j: usize = 0;
            while j < n
                invariant
                    j <= n,
                    n == self.edges@.len(),
                    seen@.len() == 29,
                    queue_wf(queue@),
                    count_true(seen@) <= 29,
                    queue@.len() <= count_true(seen@),
                    queue@.len() >= q0.len(),
                    spec_expand(self.edges@, j as int, queue@, seen@, cur, cur_rate)
                        == spec_expand(self.edges@, 0, q0, s0, cur, cur_rate),
                decreases n - j,
            {
                let e = &self.edges[j];
                if e.0 == cur {
                    let rk = e.1.rank();
                    if !seen[rk] {
                        match dec_mul(&cur_rate, &e.2) {
                            Some(nd) => {
                                proof {
                                    lemma_count_true_update(seen@, rk as int);
                                    lemma_count_true_le(seen@);
                                }
                                queue.push((e.1, nd));
                                seen.set(rk, true);
                                proof {
                                    lemma_count_true_le(seen@);
                                }
                            }
                            None => {}
                        }
                    }
                }
                j = j + 1;
            }
            head = head + 1;
        }
        None
    }
}

/// Load the built-in fallback rates: for each fiat currency what one US
/// dollar buys, for each cryptocurrency its dollar price.
pub fn load_defaults(g: &mut RateGraph)
    requires
        old(g).wf(),
    ensures
        final (g).wf(),
{
    g.set_rate(Currency::USD, Currency::EUR, Dec::new(92, 2));
    g.set_rate(Currency::USD, Currency::GBP, Dec::new(79, 2));
    g.set_rate(Currency::USD, Currency::JPY, Dec::new(150, 0));
    g.set_rate(Currency::USD, Currency::CHF, Dec::new(88, 2));
    g.set_rate(Currency::USD, Currency::CNY, Dec::new(725, 2));
    g.set_rate(Currency::USD, Currency::CAD, Dec::new(140, 2));
    g.set_rate(Currency::USD, Currency::AUD, Dec::new(155, 2));
    g.set_rate(Currency::USD, Currency::INR, Dec::new(84, 0));
    g.set_rate(Currency::USD, Currency::KRW, Dec::new(1400, 0));
    g.set_rate(Currency::USD, Currency::RUB, Dec::new(92, 0));
    g.set_rate(Currency::USD, Currency::ILS, Dec::new(365, 2));
    g.set_rate(Currency::USD, Currency::PLN, Dec::new(4, 0));
    g.set_rate(Currency::USD, Currency::UAH, Dec::new(41, 0));
    g.set_rate(Currency::BTC, Currency::USD, Dec::new(95000, 0));
    g.set_rate(Currency::ETH, Currency::USD, Dec::new(3500, 0));
    g.set_rate(Currency::SOL, Currency::USD, Dec::new(150, 0));
    g.set_rate(Currency::USDT, Currency::USD, Dec::new(1, 0));
    g.set_rate(Currency::USDC, Currency::USD, Dec::new(1, 0));
    g.set_rate(Currency::BNB, Currency::USD, Dec::new(650, 0));
    g.set_rate(Currency::XRP, Currency::USD, Dec::new(15, 1));
    g.set_rate(Currency::ADA, Currency::USD, Dec::new(1, 0));
    g.set_rate(Currency::DOGE, Currency::USD, Dec::new(40, 2));
    g.set_rate(Currency::DOT, Currency::USD, Dec::new(8, 0));
    g.set_rate(Currency::LTC, Currency::USD, Dec::new(100, 0));
    g.set_rate(Currency::LINK, Currency::USD, Dec::new(18, 0));
    g.set_rate(Currency::AVAX, Currency::USD, Dec::new(45, 0));
    g.set_rate(Currency::MATIC, Currency::USD, Dec::new(55, 2));
    g.set_rate(Currency::TON, Currency::USD, Dec::new(6, 0));
}

// ---------------------------------------------------------------------------
// Laws of the rate graph.
// ---------------------------------------------------------------------------
/// Storing `a -> b = r` on an empty graph stores exactly the pair and its
/// inverse.
proof fn lemma_set_rate_on_empty(a: Currency, b: Currency, r: Dec)
    requires
        a != b,
        r.mag != 0,
        s_div(Dec { neg: false, mag: 1u128, scale: 0 }, r) is Some,
    ensures
        spec_set_rate(Seq::<Edge>::empty(), a, b, r) =~= seq![
            (a, b, r),
            (b, a, s_div(Dec { neg: false, mag: 1u128, scale: 0 }, r).unwrap()),
        ],
{
    let one = Dec { neg: false, mag: 1u128, scale: 0 };
    let inv = s_div(one, r).unwrap();
    let empty = Seq::<Edge>::empty();
    assert(spec_find_edge(empty, a, b, 0) is None);
    let e1 = spec_upsert(empty, a, b, r);
    assert(e1 =~= seq![(a, b, r)]);
    assert(spec_find_edge(e1, b, a, 1) is None);
    assert(spec_find_edge(e1, b, a, 0) is None);
    let e2 = spec_upsert(e1, b, a, inv);
    assert(e2 =~= seq![(a, b, r), (b, a, inv)]);
}

/// Setting a rate makes the inverse rate resolvable: after
/// `set_rate(a, b, r)` on an empty graph with a nonzero rate, the search
/// from `b` to `a` yields exactly one times the stored inverse `1 / r`.
pub proof fn lemma_rate_inversion(a: Currency, b: Currency, r: Dec)
    requires
        a != b,
        r.mag != 0,
        s_div(Dec { neg: false, mag: 1u128, scale: 0 }, r) is Some,
    ensures
        ({
            let one = Dec { neg: false, mag: 1u128, scale: 0 };
            let edges = spec_set_rate(Seq::<Edge>::empty(), a, b, r);
            spec_get_rate(edges, b, a) == s_mul(one, s_div(one, r).unwrap())
        }),
{
    let one = Dec { neg: false, mag: 1u128, scale: 0 };
    let inv = s_div(one, r).unwrap();
    lemma_set_rate_on_empty(a, b, r);
    let edges = spec_set_rate(Seq::<Edge>::empty(), a, b, r);
    assert(edges =~= seq![(a, b, r), (b, a, inv)]);
    let q0 = seq![(b, one)];
    let s0 = spec_init_seen(b);
    Currency::lemma_rank_injective(a, b);
    assert(s0.len() == 29);
    assert(0 <= a.spec_rank() < 29);
    assert(!s0[a.spec_rank()]);
    // expanding b: the first edge leaves from a, the second reaches a
    let x1 = spec_expand(edges, 1, q0, s0, b, one);
    assert(spec_expand(edges, 2, q0, s0, b, one) == (q0, s0));
    assert(spec_expand(
        edges,
        2,
        q0.push((a, one)),
        s0.update(a.spec_rank(), true),
        b,
        one,
    ) == (q0.push((a, one)), s0.update(a.spec_rank(), true)));
    match s_mul(one, inv) {
        Some(nd) => {
            let q1 = q0.push((a, nd));
            let s1 = s0.update(a.spec_rank(), true);
            assert(spec_expand(edges, 2, q1, s1, b, one) == (q1, s1));
            assert(x1 == (q1, s1));
            assert(spec_expand(edges, 0, q0, s0, b, one) == (q1, s1));
            assert(q1[1] == (a, nd));
            assert(spec_bfs(edges, q1, s1, 1, a) == Some(nd));
            assert(spec_bfs(edges, q0, s0, 0, a) == Some(nd));
        }
        None => {
            assert(x1 == (q0, s0));
            assert(spec_expand(edges, 0, q0, s0, b, one) == (q0, s0));
            assert(spec_bfs(edges, q0, s0, 1, a) is None);
            assert(spec_bfs(edges, q0, s0, 0, a) is None);
        }
    }
}

/// Rates resolve across two hops: with only `a -> b = r1` and `b -> c = r2`
/// stored (and their inverses), the search from `a` to `c` succeeds through
/// `b` and yields the product of the two rates.
pub proof fn lemma_two_hop_rate(a: Currency, b: Currency, c: Currency, r1: Dec, r2: Dec, d1: Dec)
    requires
        a != b,
        b != c,
        a != c,
        r1.mag != 0,
        r2.mag != 0,
        s_div(Dec { neg: false, mag: 1u128, scale: 0 }, r1) is Some,
        s_div(Dec { neg: false, mag: 1u128, scale: 0 }, r2) is Some,
        s_mul(Dec { neg: false, mag: 1u128, scale: 0 }, r1) == Some(d1),
    ensures
        ({
            let one = Dec { neg: false, mag: 1u128, scale: 0 };
            let g1 = spec_set_rate(Seq::<Edge>::empty(), a, b, r1);
            let g2 = spec_set_rate(g1, b, c, r2);
            spec_get_rate(g2, a, c) == s_mul(d1, r2)
        }),
{
    let one = Dec { neg: false, mag: 1u128, scale: 0 };
    let i1 = s_div(one, r1).unwrap();
    let i2 = s_div(one, r2).unwrap();
    lemma_set_rate_on_empty(a, b, r1);
    let g1 = spec_set_rate(Seq::<Edge>::empty(), a, b, r1);
    assert(g1 =~= seq![(a, b, r1), (b, a, i1)]);
    // storing b -> c appends the pair and its inverse
    assert(spec_find_edge(g1, b, c, 2) is None);
    assert(spec_find_edge(g1, b, c, 1) is None);
    assert(spec_find_edge(g1, b, c, 0) is None);
    let e1 = spec_upsert(g1, b, c, r2);
    assert(e1 =~= seq![(a, b, r1), (b, a, i1), (b, c, r2)]);
    assert(spec_find_edge(e1, c, b, 3) is None);
    assert(spec_find_edge(e1, c, b, 2) is None);
    assert(spec_find_edge(e1, c, b, 1) is None);
    assert(spec_find_edge(e1, c, b, 0) is None);
    let g2 = spec_upsert(e1, c, b, i2);
    assert(spec_set_rate(g1, b, c, r2) == g2);
    assert(g2 =~= seq![(a, b, r1), (b, a, i1), (b, c, r2), (c, b, i2)]);
    Currency::lemma_rank_injective(a, b);
    Currency::lemma_rank_injective(b, c);
    Currency::lemma_rank_injective(a, c);
    let q0 = seq![(a, one)];
    let s0 = spec_init_seen(a);
    assert(s0.len() == 29);
    assert(!s0[b.spec_rank()]);
    assert(!s0[c.spec_rank()]);
    // expanding a: only the first edge leaves from a
    let q1 = q0.push((b, d1));
    let s1 = s0.update(b.spec_rank(), true);
    assert(s1.len() == 29);
    assert(spec_expand(g2, 4, q1, s1, a, one) == (q1, s1));
    assert(spec_expand(g2, 3, q1, s1, a, one) == (q1, s1));
    assert(spec_expand(g2, 2, q1, s1, a, one) == (q1, s1));
    assert(spec_expand(g2, 1, q1, s1, a, one) == (q1, s1));
    assert(spec_expand(g2, 0, q0, s0, a, one) == (q1, s1));
    // expanding b: the edge back to a is seen, the edge to c is new
    assert(q1[1] == (b, d1));
    assert(s1[a.spec_rank()]);
    assert(!s1[c.spec_rank()]);
    match s_mul(d1, r2) {
        Some(d2) => {
            let q2 = q1.push((c, d2));
            let s2 = s1.update(c.spec_rank(), true);
            assert(spec_expand(g2, 4, q2, s2, b, d1) == (q2, s2));
            assert(spec_expand(g2, 3, q2, s2, b, d1) == (q2, s2));
            assert(spec_expand(g2, 2, q1, s1, b, d1) == (q2, s2));
            assert(spec_expand(g2, 1, q1, s1, b, d1) == (q2, s2));
            assert(spec_expand(g2, 0, q1, s1, b, d1) == (q2, s2));
            assert(q2[2] == (c, d2));
            assert(spec_bfs(g2, q2, s2, 2, c) == Some(d2));
            assert(spec_bfs(g2, q1, s1, 1, c) == Some(d2));
            assert(spec_bfs(g2, q0, s0, 0, c) == Some(d2));
        }
        None => {
            assert(spec_expand(g2, 4, q1, s1, b, d1) == (q1, s1));
            assert(spec_expand(g2, 3, q1, s1, b, d1) == (q1, s1));
            assert(spec_expand(g2, 2, q1, s1, b, d1) == (q1, s1));
            assert(spec_expand(g2, 1, q1, s1, b, d1) == (q1, s1));
            assert(spec_expand(g2, 0, q1, s1, b, d1) == (q1, s1));
            assert(spec_bfs(g2, q1, s1, 2, c) is None);
            assert(spec_bfs(g2, q1, s1, 1, c) is None);
            assert(spec_bfs(g2, q0, s0, 0, c) is None);
        }
    }
}

} // verus!
