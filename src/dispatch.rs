use vstd::prelude::*;
use vstd::arithmetic::div_mod::{
    lemma_div_is_ordered, lemma_fundamental_div_mod, lemma_fundamental_div_mod_converse,
};
use crate::message::WorkOrShutdown;

verus! {

/// The queue that the item at position `i` goes to, in a pool of `k` queues.
pub open spec fn assigned_queue(i: int, k: int) -> int {
    i % k
}

/// The `p`-th send of a dispatch of `items` over `k` queues, as
/// (queue, message): first every item in order, each to its round-robin queue,
/// then one shutdown signal to each queue in turn; nothing after that.
pub open spec fn send_at(items: Seq<Seq<char>>, k: int, p: int) -> Option<(int, Option<Seq<char>>)> {
    if 0 <= p < items.len() {
        Some((assigned_queue(p, k), Some(items[p])))
    } else if items.len() <= p < items.len() + k {
        Some((p - items.len(), None))
    } else {
        None
    }
}

/// What queue `q` has received after the first `p` sends, in order.
pub open spec fn queue_stream(items: Seq<Seq<char>>, k: int, q: int, p: nat) -> Seq<Option<Seq<char>>>
    decreases p,
{
    if p == 0 {
        Seq::empty()
    } else {
        let prev = queue_stream(items, k, q, (p - 1) as nat);
        match send_at(items, k, p - 1) {
            Some((target, m)) => if target == q {
                prev.push(m)
            } else {
                prev
            },
            None => prev,
        }
    }
}

/// How many of the first `n` positions go to queue `q` of `k`.
pub open spec fn assigned_count(n: int, k: int, q: int) -> int {
    if n <= q {
        0
    } else {
        (n - 1 - q) / k + 1
    }
}

/// What queue `q` should receive over a whole dispatch: the items at
/// positions `q`, `q + k`, `q + 2k`, ... in that order, then one shutdown.
pub open spec fn queue_plan(items: Seq<Seq<char>>, k: int, q: int) -> Seq<Option<Seq<char>>> {
    Seq::new(assigned_count(items.len() as int, k, q) as nat, |j: int| Some(items[q + j * k])).push(
        None,
    )
}

proof fn lemma_div_exact(a: int, b: int, k: int)
    requires
        k > 0,
        0 <= b < k,
    ensures
        (a * k + b) / k == a,
{
    lemma_fundamental_div_mod_converse(a * k + b, k, a, b);
}

/// Splitting the position `i` by `k`: `i == (i / k) * k + i % k`, both parts
/// non-negative.
proof fn lemma_split(i: int, k: int)
    requires
        i >= 0,
        k >= 1,
    ensures
        i == (i / k) * k + i % k,
        i / k >= 0,
        0 <= i % k < k,
        (i / k) * k >= 0,
        i / k > 0 ==> (i / k) * k >= k,
        i / k == 0 ==> i == i % k,
{
    lemma_fundamental_div_mod(i, k);
    assert(i == (i / k) * k + i % k) by (nonlinear_arith)
        requires
            i == k * (i / k) + i % k,
    ;
    assert(i / k >= 0) by (nonlinear_arith)
        requires
            i >= 0,
            k >= 1,
    ;
    assert((i / k) * k >= 0) by (nonlinear_arith)
        requires
            i / k >= 0,
            k >= 1,
    ;
    assert(i / k > 0 ==> (i / k) * k >= k) by (nonlinear_arith)
        requires
            k >= 1,
    ;
    assert(i / k == 0 ==> (i / k) * k == 0) by (nonlinear_arith);
}

/// How the count of queue `q` grows by the position `i`.
proof fn lemma_count_step(k: int, q: int, i: int)
    requires
        k >= 1,
        0 <= q < k,
        i >= 0,
    ensures
        i % k == q ==> assigned_count(i + 1, k, q) == assigned_count(i, k, q) + 1 && q
            + assigned_count(i, k, q) * k == i,
        i % k != q ==> assigned_count(i + 1, k, q) == assigned_count(i, k, q),
{
    let d = i / k;
    let r = i % k;
    lemma_split(i, k);
    let p = i + 1;
    if r == q {
        lemma_div_exact(d, 0, k);
        assert(p - 1 - q == d * k + 0);
        if d > 0 {
            lemma_div_exact(d - 1, k - 1, k);
            assert((d - 1) * k + (k - 1) == d * k - 1) by (nonlinear_arith);
            assert(i - 1 - q == (d - 1) * k + (k - 1));
        }
        assert(assigned_count(i, k, q) == d);
    } else if r > q {
        lemma_div_exact(d, r - q, k);
        lemma_div_exact(d, r - q - 1, k);
        assert(p - 1 - q == d * k + (r - q));
        assert(i - 1 - q == d * k + (r - q - 1));
    } else if d > 0 {
        lemma_div_exact(d - 1, k + r - q, k);
        lemma_div_exact(d - 1, k + r - q - 1, k);
        assert((d - 1) * k + (k + r - q) == d * k + r - q) by (nonlinear_arith);
        assert(p - 1 - q == (d - 1) * k + (k + r - q));
        assert(i - 1 - q == (d - 1) * k + (k + r - q - 1));
    }
}

proof fn lemma_stream_items(items: Seq<Seq<char>>, k: int, q: int, p: int)
    requires
        k >= 1,
        0 <= q < k,
        0 <= p <= items.len(),
    ensures
        queue_stream(items, k, q, p as nat) == Seq::new(
            assigned_count(p, k, q) as nat,
            |j: int| Some(items[q + j * k]),
        ),
    decreases p,
{
    if p > 0 {
        let i = p - 1;
        lemma_stream_items(items, k, q, i);
        lemma_count_step(k, q, i);
        assert(queue_stream(items, k, q, p as nat) =~= Seq::new(
            assigned_count(p, k, q) as nat,
            |j: int| Some(items[q + j * k]),
        ));
    }
}

proof fn lemma_stream_shutdowns(items: Seq<Seq<char>>, k: int, q: int, p: int)
    requires
        k >= 1,
        0 <= q < k,
        items.len() <= p <= items.len() + k,
    ensures
        queue_stream(items, k, q, p as nat) == if p - items.len() > q {
            queue_stream(items, k, q, items.len()).push(None)
        } else {
            queue_stream(items, k, q, items.len())
        },
    decreases p,
{
    if p > items.len() {
        lemma_stream_shutdowns(items, k, q, p - 1);
    }
}

/// Over a whole dispatch, queue `q` receives exactly its round-robin share of
/// the items, in their original order, followed by exactly one shutdown
/// signal: no shutdown comes before an item assigned to the queue.
pub proof fn lemma_queue_receives_plan(items: Seq<Seq<char>>, k: int, q: int)
    requires
        k >= 1,
        0 <= q < k,
    ensures
        queue_stream(items, k, q, (items.len() + k) as nat) == queue_plan(items, k, q),
        queue_plan(items, k, q).last() is None,
        forall|j: int|
            0 <= j < queue_plan(items, k, q).len() - 1 ==> queue_plan(items, k, q)[j] is Some,
{
    lemma_stream_items(items, k, q, items.len() as int);
    lemma_stream_shutdowns(items, k, q, items.len() + k);
    assert(queue_stream(items, k, q, (items.len() + k) as nat) =~= queue_plan(items, k, q));
}

/// Round-robin correctness: the item at position `i` is delivered to queue
/// `i % k`, as the `i / k`-th message of that queue.
pub proof fn lemma_round_robin(items: Seq<Seq<char>>, k: int, i: int)
    requires
        k >= 1,
        0 <= i < items.len(),
    ensures
        0 <= i / k < assigned_count(items.len() as int, k, i % k),
        queue_plan(items, k, i % k)[i / k] == Some(items[i]),
{
    let q = i % k;
    let d = i / k;
    lemma_split(i, k);
    assert(i - q == d * k + 0);
    lemma_div_exact(d, 0, k);
    lemma_div_is_ordered(i - q, items.len() - 1 - q, k);
}

/// A dispatch is finite: it has a send at exactly the positions below one
/// per item plus one per queue, so a dispatcher that keeps delivering is done
/// after that many sends, also when there are no items.
pub proof fn lemma_dispatch_ends(items: Seq<Seq<char>>, k: int, p: int)
    requires
        k >= 1,
    ensures
        send_at(items, k, p) is Some <==> 0 <= p < items.len() + k,
{
}

/// One send for the runtime to perform: `message` onto queue `queue`.
#[derive(Debug)]
pub struct Delivery {
    pub queue: usize,
    pub message: WorkOrShutdown,
}

/// A send failed because the receiving end of `queue` was gone; `position` is
/// the index of that send in the dispatch order.
#[derive(Debug, Clone, Copy, PartialEq, Eq, Structural)]
pub struct DispatchError {
    pub queue: usize,
    pub position: usize,
}

/// The view of an optional delivery as (queue, message).
pub open spec fn delivery_view(d: Option<Delivery>) -> Option<(int, Option<Seq<char>>)> {
    match d {
        Some(d) => Some((d.queue as int, d.message@)),
        None => None,
    }
}

/// The abstract state of a dispatcher.
pub struct DispatchModel {
    pub items: Seq<Seq<char>>,
    pub pool_size: nat,
    pub sent: nat,
}

/// The dispatcher's decisions: which message goes to which queue next, and
/// when the dispatch is over. The runtime performs each send and reports
/// whether it was delivered.
pub struct Dispatcher {
    items: Vec<String>,
    pool_size: usize,
    sent: usize,
}

impl View for Dispatcher {
    type V = DispatchModel;

    closed spec fn view(&self) -> DispatchModel {
        DispatchModel {
            items: self.items@.map_values(|s: String| s@),
            pool_size: self.pool_size as nat,
            sent: self.sent as nat,
        }
    }
}

impl Dispatcher {
    /// The pool is not empty, every send count of the dispatch fits, and the
    /// dispatch has not gone past its end.
    pub closed spec fn wf(&self) -> bool {
        &&& self.pool_size >= 1
        &&& self.items.len() + self.pool_size <= usize::MAX
        &&& self.sent <= self.items.len() + self.pool_size
    }

    /// What well-formedness gives a caller: a non-empty pool, a send count
    /// within the dispatch, and a dispatch length that fits in `usize`.
    pub proof fn lemma_wf(&self)
        requires
            self.wf(),
        ensures
            self@.pool_size >= 1,
            self@.sent <= self.total_sends(),
            self.total_sends() <= usize::MAX,
    {
    }

    /// The number of sends in a whole dispatch: one per item, one per queue.
    pub open spec fn total_sends(&self) -> nat {
        self@.items.len() + self@.pool_size
    }

    /// The next send of this dispatch, if any remains.
    pub open spec fn pending(&self) -> Option<(int, Option<Seq<char>>)> {
        send_at(self@.items, self@.pool_size as int, self@.sent as int)
    }

    /// A dispatcher over `items` for `pool_size` queues, before its first send.
    pub fn new(items: Vec<String>, pool_size: usize) -> (r: Dispatcher)
        requires
            pool_size >= 1,
            items.len() + pool_size <= usize::MAX,
        ensures
            r.wf(),
            r@.items == items@.map_values(|s: String| s@),
            r@.pool_size == pool_size,
            r@.sent == 0,
    {
        Dispatcher { items, pool_size, sent: 0 }
    }

    /// How many sends have been delivered so far.
    pub fn sent(&self) -> (r: usize)
        ensures
            r == self@.sent,
    {
        self.sent
    }

    /// Whether every item and every shutdown signal has been delivered.
    pub fn is_done(&self) -> (r: bool)
        requires
            self.wf(),
        ensures
            r == (self@.sent == self.total_sends()),
    {
        self.sent == self.items.len() + self.pool_size
    }

    /// The send to perform next, or `None` once the dispatch is complete.
    pub fn next(&self) -> (r: Option<Delivery>)
        requires
            self.wf(),
        ensures
            delivery_view(r) == self.pending(),
            r is None <==> self@.sent == self.total_sends(),
    {
        let n = self.items.len();
        if self.sent < n {
            let q = queue_for(self.sent, self.pool_size);
            Some(Delivery { queue: q, message: WorkOrShutdown::Work(self.items[self.sent].clone()) })
        } else if self.sent < n + self.pool_size {
            Some(Delivery { queue: self.sent - n, message: WorkOrShutdown::Shutdown })
        } else {
            None
        }
    }

    /// Records the outcome of the pending send. A delivered send moves the
    /// dispatch on by one; a send whose receiver was gone is a fatal error that
    /// names the queue, and leaves the dispatcher where it was.
    pub fn advance(&mut self, delivered: bool) -> (r: Result<(), DispatchError>)
        requires
            old(self).wf(),
            old(self)@.sent < old(self).total_sends(),
        ensures
            final(self).wf(),
            final(self)@.items == old(self)@.items,
            final(self)@.pool_size == old(self)@.pool_size,
            final(self)@.pool_size >= 1,
            final(self)@.sent <= final(self).total_sends(),
            match r {
                Ok(_) => true,
                Err(e) => e.queue < old(self)@.pool_size && e.position < old(self).total_sends(),
            },
            delivered ==> r is Ok && final(self)@.sent == old(self)@.sent + 1,
            !delivered ==> final(self)@ == old(self)@ && r == Err::<(), DispatchError>(
                DispatchError {
                    queue: old(self).pending().unwrap().0 as usize,
                    position: old(self)@.sent as usize,
                },
            ),
    {
        if delivered {
            self.sent = self.sent + 1;
            Ok(())
        } else {
            let n = self.items.len();
            let queue = if self.sent < n {
                queue_for(self.sent, self.pool_size)
            } else {
                self.sent - n
            };
            Err(DispatchError { queue, position: self.sent })
        }
    }
}

/// Round-robin assignment: the queue for the item at `index`.
pub fn queue_for(index: usize, pool_size: usize) -> (r: usize)
    requires
        pool_size >= 1,
    ensures
        r as int == assigned_queue(index as int, pool_size as int),
        r < pool_size,
{
    index % pool_size
}

} // verus!
