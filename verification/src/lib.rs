//! Core logic of a falling-block puzzle game: piece shapes, rotation systems,
//! kick tables, spin detection, piece randomizers, the playfield, and the
//! game board driven by inputs and timers, with its statistics and goals.

pub mod board;
pub mod canvas;
pub mod config;
pub mod field;
pub mod goal;
pub mod input;
pub mod keybinds;
pub mod kicks;
pub mod pieces;
pub mod spins;
pub mod stats;

use vstd::prelude::*;

use rand::seq::SliceRandom;

use crate::pieces::PieceKind;

verus! {

/// Row/column coordinates of a square; rows grow downwards.
#[derive(Copy, Clone, PartialEq, Eq, Debug, Hash, Structural)]
pub struct Coords(pub i32, pub i32);

/// `a + b` on coordinates, as mathematical integers.
pub open spec fn coords_sum(a: Coords, b: Coords) -> (int, int) {
    (a.0 + b.0, a.1 + b.1)
}

/// Whether both components of a pair of integers fit in an `i32`.
pub open spec fn fits_i32(p: (int, int)) -> bool {
    i32::MIN <= p.0 <= i32::MAX && i32::MIN <= p.1 <= i32::MAX
}

/// The coordinates holding the pair of integers `p` (which must fit in `i32`).
pub open spec fn to_coords(p: (int, int)) -> Coords {
    Coords(p.0 as i32, p.1 as i32)
}

impl Coords {
    /// Componentwise sum.
    pub fn add(self, other: Coords) -> (r: Coords)
        requires
            fits_i32(coords_sum(self, other)),
        ensures
            r.0 == self.0 + other.0,
            r.1 == self.1 + other.1,
    {
        Coords(self.0 + other.0, self.1 + other.1)
    }

    /// Componentwise difference.
    pub fn sub(self, other: Coords) -> (r: Coords)
        requires
            fits_i32((self.0 - other.0, self.1 - other.1)),
        ensures
            r.0 == self.0 - other.0,
            r.1 == self.1 - other.1,
    {
        Coords(self.0 - other.0, self.1 - other.1)
    }

    /// Componentwise negation.
    pub fn neg(self) -> (r: Coords)
        requires
            self.0 != i32::MIN,
            self.1 != i32::MIN,
        ensures
            r.0 == -self.0,
            r.1 == -self.1,
    {
        Coords(-self.0, -self.1)
    }
}

/// A source of piece kinds.
pub trait Randomizer {
    /// The randomizer can hand out a piece.
    spec fn can_deal(&self) -> bool;

    /// `kind` is among the kinds the randomizer hands out.
    spec fn deals(&self, kind: PieceKind) -> bool;

    /// The next piece kind.
    fn next(&mut self) -> (kind: PieceKind)
        requires
            old(self).can_deal(),
        ensures
            final(self).can_deal(),
            old(self).deals(kind),
            forall|k: PieceKind| final(self).deals(k) == old(self).deals(k),
    ;

    /// The upcoming piece kinds, next first.
    fn peek(&mut self) -> (r: Vec<PieceKind>)
        requires
            old(self).can_deal(),
        ensures
            final(self).can_deal(),
            forall|k: PieceKind| final(self).deals(k) == old(self).deals(k),
            forall|i: int| 0 <= i < r@.len() ==> final(self).deals(#[trigger] r@[i]),
    ;

    /// How many upcoming pieces `peek` shows at least.
    fn lookahead(&self) -> usize;
}

/// `a` holds the same piece kinds as `b`, the same number of times each.
pub open spec fn is_permutation(a: Seq<PieceKind>, b: Seq<PieceKind>) -> bool {
    a.to_multiset() == b.to_multiset()
}

/// The queue of a bag is well formed for `kinds`: when there are kinds, the
/// queue (dealt from its end) holds at least one full bag; its first
/// `kinds.len()` entries are a full bag (a permutation of the kinds), and the
/// rest is what is left of the bag being dealt (no kind more often than in a
/// full bag). Without kinds the queue is empty.
pub open spec fn bag_wf(kinds: Seq<PieceKind>, queue: Seq<PieceKind>) -> bool {
    if kinds.len() == 0 {
        queue.len() == 0
    } else {
        &&& queue.len() >= kinds.len()
        &&& is_permutation(queue.take(kinds.len() as int), kinds)
        &&& queue.skip(kinds.len() as int).to_multiset().subset_of(kinds.to_multiset())
    }
}

/// The queue before dealing, with the bag refilled: when no more than a full
/// bag is left, the shuffled bag `fresh` is put in front.
pub open spec fn refilled(kinds: Seq<PieceKind>, queue: Seq<PieceKind>, fresh: Seq<PieceKind>) -> Seq<PieceKind> {
    if queue.len() <= kinds.len() {
        fresh + queue
    } else {
        queue
    }
}

/// `kind` is dealt from a bag of `kinds` with queue `before`, leaving the
/// queue `after`: the queue is refilled with some permutation of the kinds if
/// needed, and its last entry is dealt.
pub open spec fn deals_next(kinds: Seq<PieceKind>, before: Seq<PieceKind>, kind: PieceKind, after: Seq<PieceKind>) -> bool {
    exists|fresh: Seq<PieceKind>|
        is_permutation(fresh, kinds) && #[trigger] refilled(kinds, before, fresh) == after.push(kind)
}

/// The kinds shuffled into a random order.
///
/// Calls `rand::seq::SliceRandom::shuffle` (with `rand::thread_rng()`) on a
/// copy of `kinds`. The shuffle swaps elements in place, so the result holds
/// the same kinds the same number of times; which order comes out is random
/// and left unsaid.
#[verifier::external_body]
fn shuffled(kinds: &Vec<PieceKind>) -> (r: Vec<PieceKind>)
    ensures
        is_permutation(r@, kinds@),
{
    let mut next_bag = kinds.clone();
    next_bag.shuffle(&mut rand::thread_rng());
    next_bag
}

/// Dropping the last entry keeps a sub-multiset.
proof fn lemma_drop_last_subset(s: Seq<PieceKind>)
    requires
        s.len() > 0,
    ensures
        s.drop_last().to_multiset().subset_of(s.to_multiset()),
{
    broadcast use vstd::seq_lib::group_to_multiset_ensures;
    broadcast use vstd::multiset::group_multiset_axioms;

    assert(s.drop_last().push(s.last()) == s);
}

/// Deals piece kinds in bags: each bag holds every kind once, in random order.
pub struct SingleBag {
    kinds: Vec<PieceKind>,
    bag: Vec<PieceKind>,
}

impl View for SingleBag {
    /// The kinds, and the queue (dealt from its end).
    type V = (Seq<PieceKind>, Seq<PieceKind>);

    closed spec fn view(&self) -> (Seq<PieceKind>, Seq<PieceKind>) {
        (self.kinds@, self.bag@)
    }
}

impl SingleBag {
    pub open spec fn wf(&self) -> bool {
        bag_wf(self@.0, self@.1)
    }

    /// A randomizer dealing bags of `kinds`, with two bags queued.
    pub fn new(kinds: Vec<PieceKind>) -> (r: SingleBag)
        ensures
            r.wf(),
            r@.0 == kinds@,
            exists|first: Seq<PieceKind>, second: Seq<PieceKind>|
                is_permutation(first, kinds@) && is_permutation(second, kinds@) && r@.1 == second + first,
    {
        let mut bag = SingleBag { kinds, bag: Vec::new() };
        bag.update_bag();
        let ghost first = bag@.1;
        bag.update_bag();
        proof {
            broadcast use vstd::seq_lib::group_to_multiset_ensures;

            let second = choose|fresh: Seq<PieceKind>|
                is_permutation(fresh, kinds@) && #[trigger] refilled(kinds@, first, fresh) == bag@.1;
            assert(is_permutation(first, kinds@)) by {
                let f = choose|fresh: Seq<PieceKind>|
                    is_permutation(fresh, kinds@) && #[trigger] refilled(kinds@, Seq::empty(), fresh) == first;
                assert(f + Seq::<PieceKind>::empty() == f);
            }
            assert(first.len() == kinds@.len()) by {
                assert(first.to_multiset().len() == kinds@.to_multiset().len());
            }
            assert(bag@.1 == second + first);
            let k = kinds@.len() as int;
            assert(second.len() == kinds@.len()) by {
                assert(second.to_multiset().len() == kinds@.to_multiset().len());
            }
            assert(bag@.1.take(k) =~= second);
            assert(bag@.1.skip(k) =~= first);
            if k == 0 {
                assert(kinds@.to_multiset().len() == 0);
            }
        }
        bag
    }

    /// Put a freshly shuffled bag in front of the queue if no more than a full
    /// bag is left.
    fn update_bag(&mut self)
        ensures
            final(self)@.0 == old(self)@.0,
            exists|fresh: Seq<PieceKind>|
                is_permutation(fresh, old(self)@.0) && #[trigger] refilled(old(self)@.0, old(self)@.1, fresh)
                    == final(self)@.1,
    {
        if self.bag.len() <= self.kinds.len() {
            let mut next_bag = shuffled(&self.kinds);
            let ghost fresh = next_bag@;
            let ghost queue = self.bag@;
            // prepend to preserve peek order
            std::mem::swap(&mut self.bag, &mut next_bag);
            self.bag.append(&mut next_bag);
            assert(self@.1 == fresh + queue);
            assert(queue.len() <= self@.0.len());
            assert(refilled(self@.0, queue, fresh) == self@.1);
            assert(is_permutation(fresh, old(self)@.0));
            assert(refilled(old(self)@.0, old(self)@.1, fresh) == self@.1);
        } else {
            assert(refilled(self@.0, self@.1, self@.0) == self@.1);
            assert(is_permutation(self@.0, old(self)@.0));
            assert(refilled(old(self)@.0, old(self)@.1, self@.0) == self@.1);
        }
    }
}

/// Refilling a well-formed queue that can deal leaves more than a full bag
/// queued, still well formed.
proof fn lemma_refill_wf(kinds: Seq<PieceKind>, queue: Seq<PieceKind>, fresh: Seq<PieceKind>)
    requires
        kinds.len() > 0,
        bag_wf(kinds, queue),
        is_permutation(fresh, kinds),
    ensures
        bag_wf(kinds, refilled(kinds, queue, fresh)),
        refilled(kinds, queue, fresh).len() > kinds.len(),
{
    broadcast use vstd::seq_lib::group_to_multiset_ensures;

    let k = kinds.len() as int;
    if queue.len() <= kinds.len() {
        let q = fresh + queue;
        assert(fresh.len() == k) by {
            assert(fresh.to_multiset().len() == kinds.to_multiset().len());
        }
        assert(queue.len() == k);
        assert(q.take(k) == fresh);
        assert(q.skip(k) == queue);
        assert(queue.take(k) == queue);
        assert(queue.to_multiset().subset_of(kinds.to_multiset()));
    }
}

/// Dealing from a queue with more than a full bag left keeps it well formed.
proof fn lemma_deal_wf(kinds: Seq<PieceKind>, queue: Seq<PieceKind>)
    requires
        kinds.len() > 0,
        bag_wf(kinds, queue),
        queue.len() > kinds.len(),
    ensures
        bag_wf(kinds, queue.drop_last()),
        kinds.contains(queue.last()),
{
    broadcast use vstd::seq_lib::group_to_multiset_ensures;
    broadcast use vstd::multiset::group_multiset_axioms;

    let k = kinds.len() as int;
    let q = queue.drop_last();
    assert(q.take(k) == queue.take(k));
    assert(q.skip(k) == queue.skip(k).drop_last());
    lemma_drop_last_subset(queue.skip(k));
    let last = queue.last();
    assert(queue.skip(k).last() == last);
    assert(queue.skip(k).to_multiset().count(last) > 0) by {
        assert(queue.skip(k).contains(last)) by {
            assert(queue.skip(k)[queue.skip(k).len() - 1] == last);
        }
    }
    assert(kinds.to_multiset().count(last) > 0);
}

impl Randomizer for SingleBag {
    open spec fn can_deal(&self) -> bool {
        self.wf() && self@.0.len() > 0
    }

    open spec fn deals(&self, kind: PieceKind) -> bool {
        self@.0.contains(kind)
    }

    /// Deals the last kind of the queue, refilling it first if needed.
    fn next(&mut self) -> (kind: PieceKind)
        ensures
            final(self)@.0 == old(self)@.0,
            deals_next(old(self)@.0, old(self)@.1, kind, final(self)@.1),
            final(self)@.1.len() >= final(self)@.0.len(),
    {
        let ghost kinds = self@.0;
        let ghost before = self@.1;
        self.update_bag();
        let ghost fresh = choose|fresh: Seq<PieceKind>|
            is_permutation(fresh, kinds) && #[trigger] refilled(kinds, before, fresh) == self@.1;
        proof {
            lemma_refill_wf(kinds, before, fresh);
            lemma_deal_wf(kinds, self@.1);
        }
        let ghost queue = self@.1;
        let kind = self.bag.pop().unwrap();
        assert(queue == self@.1.push(kind));
        kind
    }

    /// The queued kinds in the order they will be dealt, after refilling the
    /// queue if needed.
    fn peek(&mut self) -> (r: Vec<PieceKind>)
        ensures
            final(self)@.0 == old(self)@.0,
            exists|fresh: Seq<PieceKind>|
                is_permutation(fresh, old(self)@.0) && #[trigger] refilled(old(self)@.0, old(self)@.1, fresh)
                    == final(self)@.1,
            r@ == final(self)@.1.reverse(),
            final(self)@.1.len() > final(self)@.0.len(),
    {
        let ghost kinds = self@.0;
        let ghost before = self@.1;
        self.update_bag();
        proof {
            let fresh = choose|fresh: Seq<PieceKind>|
                is_permutation(fresh, kinds) && #[trigger] refilled(kinds, before, fresh) == self@.1;
            lemma_refill_wf(kinds, before, fresh);
        }
        let mut r: Vec<PieceKind> = Vec::new();
        let mut i: usize = self.bag.len();
        while i > 0
            invariant
                i <= self.bag.len(),
                r@ == self.bag@.reverse().take(self.bag.len() - i),
            decreases i,
        {
            i -= 1;
            r.push(self.bag[i]);
            assert(r@ == self.bag@.reverse().take(self.bag.len() - i));
        }
        assert(self.bag@.reverse().take(self.bag.len() as int) == self.bag@.reverse());
        assert forall|j: int| 0 <= j < r@.len() implies self@.0.contains(#[trigger] r@[j]) by {
            broadcast use vstd::seq_lib::group_to_multiset_ensures;
            broadcast use vstd::multiset::group_multiset_axioms;

            let q = self@.1;
            let k = kinds.len() as int;
            let idx = q.len() - 1 - j;
            assert(r@[j] == q[idx]);
            if idx < k {
                assert(q.take(k)[idx] == q[idx]);
                assert(q.take(k).to_multiset().count(q[idx]) > 0);
            } else {
                assert(q.skip(k)[idx - k] == q[idx]);
                assert(q.skip(k).to_multiset().count(q[idx]) > 0);
            }
        }
        r
    }

    fn lookahead(&self) -> (r: usize)
        ensures
            r == self@.0.len(),
    {
        self.kinds.len()
    }
}

/// The bag guarantee, for a queue that can deal: the kinds still to come from
/// the bag being dealt are part of a full bag (no kind more often than in the
/// kinds), and the kinds after them, up to the end of the queue, are exactly
/// one full bag in some order. Upcoming kinds are read from `queue.reverse()`,
/// the order `peek` shows.
pub proof fn lemma_upcoming_kinds(kinds: Seq<PieceKind>, queue: Seq<PieceKind>)
    requires
        kinds.len() > 0,
        bag_wf(kinds, queue),
    ensures
        ({
            let upcoming = queue.reverse();
            let rest = queue.len() - kinds.len();
            &&& upcoming.take(rest).to_multiset().subset_of(kinds.to_multiset())
            &&& is_permutation(upcoming.skip(rest), kinds)
        }),
{
    let k = kinds.len() as int;
    let upcoming = queue.reverse();
    let rest = queue.len() - k;
    assert(upcoming.take(rest) =~= queue.skip(k).reverse());
    assert(upcoming.skip(rest) =~= queue.take(k).reverse());
    queue.skip(k).lemma_reverse_to_multiset();
    queue.take(k).lemma_reverse_to_multiset();
}

/// Peeking tells what comes next: after `peek` more than a full bag is queued,
/// so the next deal takes the first kind `peek` showed and refills nothing.
pub proof fn lemma_peek_shows_next(kinds: Seq<PieceKind>, queue: Seq<PieceKind>, kind: PieceKind, after: Seq<PieceKind>)
    requires
        queue.len() > kinds.len(),
        deals_next(kinds, queue, kind, after),
    ensures
        kind == queue.reverse()[0],
        after == queue.drop_last(),
{
    let fresh = choose|fresh: Seq<PieceKind>|
        is_permutation(fresh, kinds) && #[trigger] refilled(kinds, queue, fresh) == after.push(kind);
    assert(queue == after.push(kind));
    assert(after.push(kind).drop_last() == after);
}

/// Kinds dealt one after another: `dealt[i]` is dealt from a bag of `kinds`
/// with queue `queues[i]`, leaving `queues[i + 1]`.
pub open spec fn dealt_run(kinds: Seq<PieceKind>, queues: Seq<Seq<PieceKind>>, dealt: Seq<PieceKind>) -> bool {
    &&& queues.len() == dealt.len() + 1
    &&& forall|i: int| 0 <= i < dealt.len() ==> deals_next(kinds, queues[i], #[trigger] dealt[i], queues[i + 1])
}

/// A queue at the start of a bag: one full bag of `kinds`, or two (as a new
/// `SingleBag` holds).
pub open spec fn at_bag_start(kinds: Seq<PieceKind>, queue: Seq<PieceKind>) -> bool {
    let n = kinds.len() as int;
    ||| queue.len() == n && is_permutation(queue, kinds)
    ||| queue.len() == 2 * n && is_permutation(queue.take(n), kinds) && is_permutation(queue.skip(n), kinds)
}

/// Every `kinds.len()` kinds dealt in a row, counted from the first, are a
/// full bag (a permutation of `kinds`).
pub open spec fn full_bags(kinds: Seq<PieceKind>, dealt: Seq<PieceKind>) -> bool
    decreases dealt.len(),
{
    if kinds.len() == 0 || dealt.len() < kinds.len() {
        true
    } else {
        is_permutation(dealt.take(kinds.len() as int), kinds) && full_bags(kinds, dealt.skip(kinds.len() as int))
    }
}

/// Within a bag: after `t` of its `n` deals the queue is the next bag `f`
/// followed by what is left of the bag `l` being dealt, and the kinds dealt
/// so far are the end of `l`, read backwards.
proof fn lemma_bag_progress(
    kinds: Seq<PieceKind>,
    queues: Seq<Seq<PieceKind>>,
    dealt: Seq<PieceKind>,
    f: Seq<PieceKind>,
    l: Seq<PieceKind>,
    t: int,
)
    requires
        kinds.len() > 0,
        dealt_run(kinds, queues, dealt),
        dealt.len() >= kinds.len(),
        f.len() == kinds.len(),
        l.len() == kinds.len(),
        0 <= t <= kinds.len(),
        queues[t] == f + l.take(kinds.len() - t),
        dealt.take(t) == l.skip(kinds.len() - t).reverse(),
    ensures
        dealt.take(kinds.len() as int) == l.reverse(),
        queues[kinds.len() as int] == f,
    decreases kinds.len() - t,
{
    let n = kinds.len() as int;
    if t < n {
        assert(deals_next(kinds, queues[t], dealt[t], queues[t + 1]));
        let fresh = choose|fresh: Seq<PieceKind>|
            is_permutation(fresh, kinds) && #[trigger] refilled(kinds, queues[t], fresh) == queues[t + 1].push(
                dealt[t],
            );
        assert(refilled(kinds, queues[t], fresh) == queues[t]);
        assert(queues[t + 1] == queues[t].drop_last());
        assert(queues[t + 1] =~= f + l.take(n - t - 1));
        assert(queues[t][queues[t].len() - 1] == dealt[t]);
        assert((f + l.take(n - t))[2 * n - t - 1] == l[n - t - 1]);
        assert(dealt[t] == l[n - t - 1]);
        assert(dealt.take(t + 1) =~= dealt.take(t).push(dealt[t]));
        assert(l.skip(n - t - 1).reverse() =~= l.skip(n - t).reverse().push(l[n - t - 1]));
        lemma_bag_progress(kinds, queues, dealt, f, l, t + 1);
    } else {
        assert(l.take(0) =~= Seq::<PieceKind>::empty());
        assert(queues[t] =~= f);
        assert(l.skip(0) =~= l);
    }
}

/// One bag: from the start of a bag, the next `kinds.len()` kinds dealt are
/// a full bag, and the queue is then again at the start of a bag.
proof fn lemma_one_bag(kinds: Seq<PieceKind>, queues: Seq<Seq<PieceKind>>, dealt: Seq<PieceKind>)
    requires
        kinds.len() > 0,
        at_bag_start(kinds, queues[0]),
        dealt_run(kinds, queues, dealt),
        dealt.len() >= kinds.len(),
    ensures
        is_permutation(dealt.take(kinds.len() as int), kinds),
        at_bag_start(kinds, queues[kinds.len() as int]),
{
    broadcast use vstd::seq_lib::group_to_multiset_ensures;

    let n = kinds.len() as int;
    let q = queues[0];
    if q.len() == 2 * n {
        let f = q.take(n);
        let l = q.skip(n);
        assert(q =~= f + l.take(n));
        assert(dealt.take(0) =~= l.skip(n).reverse());
        lemma_bag_progress(kinds, queues, dealt, f, l, 0);
        l.lemma_reverse_to_multiset();
        assert(f.to_multiset().len() == kinds.to_multiset().len());
    } else {
        assert(deals_next(kinds, queues[0], dealt[0], queues[1]));
        let fresh = choose|fresh: Seq<PieceKind>|
            is_permutation(fresh, kinds) && #[trigger] refilled(kinds, queues[0], fresh) == queues[1].push(dealt[0]);
        assert(fresh.to_multiset().len() == kinds.to_multiset().len());
        assert(refilled(kinds, q, fresh) == fresh + q);
        assert(queues[1] == (fresh + q).drop_last());
        assert(queues[1] =~= fresh + q.take(n - 1));
        assert((fresh + q)[2 * n - 1] == dealt[0]);
        assert(dealt[0] == q[n - 1]);
        assert(dealt.take(1) =~= q.skip(n - 1).reverse());
        lemma_bag_progress(kinds, queues, dealt, fresh, q, 1);
        q.lemma_reverse_to_multiset();
    }
}

/// Every bag is full: from the start of a bag (a new `SingleBag` is there),
/// every `kinds.len()` kinds dealt in a row are each kind as often as in
/// `kinds`, whatever order the shuffles chose.
pub proof fn lemma_every_bag_full(kinds: Seq<PieceKind>, queues: Seq<Seq<PieceKind>>, dealt: Seq<PieceKind>)
    requires
        kinds.len() > 0,
        at_bag_start(kinds, queues[0]),
        dealt_run(kinds, queues, dealt),
    ensures
        full_bags(kinds, dealt),
    decreases dealt.len(),
{
    let n = kinds.len() as int;
    if dealt.len() >= n {
        lemma_one_bag(kinds, queues, dealt);
        let qs = queues.skip(n);
        let ds = dealt.skip(n);
        assert forall|i: int| 0 <= i < ds.len() implies deals_next(kinds, qs[i], #[trigger] ds[i], qs[i + 1]) by {
            assert(dealt[i + n] == ds[i]);
        }
        lemma_every_bag_full(kinds, qs, ds);
    }
}

/// After `t` of the deals, the queue `q` the run started from has lost its
/// last `t` kinds, whatever was put in front of it, and those are the kinds
/// dealt, last first.
proof fn lemma_queue_progress(kinds: Seq<PieceKind>, queues: Seq<Seq<PieceKind>>, dealt: Seq<PieceKind>, t: int) -> (pre: Seq<PieceKind>)
    requires
        dealt_run(kinds, queues, dealt),
        0 <= t <= dealt.len() <= queues[0].len(),
    ensures
        queues[t] == pre + queues[0].take(queues[0].len() - t),
        dealt.take(t) == queues[0].skip(queues[0].len() - t).reverse(),
    decreases t,
{
    let q = queues[0];
    let n = q.len() as int;
    if t == 0 {
        assert(q.take(n) =~= q);
        assert(dealt.take(0) =~= q.skip(n).reverse());
        Seq::empty()
    } else {
        let pre = lemma_queue_progress(kinds, queues, dealt, t - 1);
        assert(deals_next(kinds, queues[t - 1], dealt[t - 1], queues[t]));
        let fresh = choose|fresh: Seq<PieceKind>|
            is_permutation(fresh, kinds) && #[trigger] refilled(kinds, queues[t - 1], fresh) == queues[t].push(
                dealt[t - 1],
            );
        let pre2 = if queues[t - 1].len() <= kinds.len() {
            fresh + pre
        } else {
            pre
        };
        let whole = pre2 + q.take(n - t + 1);
        assert(refilled(kinds, queues[t - 1], fresh) =~= whole);
        assert(queues[t] == whole.drop_last());
        assert(whole.drop_last() =~= pre2 + q.take(n - t));
        assert(dealt[t - 1] == whole.last());
        assert(whole.last() == q[n - t]);
        assert(dealt.take(t) =~= dealt.take(t - 1).push(dealt[t - 1]));
        assert(q.skip(n - t).reverse() =~= q.skip(n - t + 1).reverse().push(q[n - t]));
        pre2
    }
}

/// Peeking shows what the following deals return: from a queue that holds
/// at least as many kinds as are dealt next (`peek` shows the queue, last
/// kind first), the kinds dealt are the queue read backwards, in order.
pub proof fn lemma_peek_shows_following(kinds: Seq<PieceKind>, queues: Seq<Seq<PieceKind>>, dealt: Seq<PieceKind>)
    requires
        dealt_run(kinds, queues, dealt),
        dealt.len() <= queues[0].len(),
    ensures
        dealt == queues[0].reverse().take(dealt.len() as int),
{
    let q = queues[0];
    let m = dealt.len() as int;
    let _ = lemma_queue_progress(kinds, queues, dealt, m);
    assert(dealt.take(m) =~= dealt);
    assert(q.skip(q.len() - m).reverse() =~= q.reverse().take(m));
}

/// A new bag's queue, two shuffled bags, is at the start of a bag.
pub proof fn lemma_new_bag_at_start(kinds: Seq<PieceKind>, first: Seq<PieceKind>, second: Seq<PieceKind>)
    requires
        is_permutation(first, kinds),
        is_permutation(second, kinds),
    ensures
        at_bag_start(kinds, second + first),
{
    broadcast use vstd::seq_lib::group_to_multiset_ensures;

    assert(first.to_multiset().len() == kinds.to_multiset().len());
    assert(second.to_multiset().len() == kinds.to_multiset().len());
    let n = kinds.len() as int;
    assert((second + first).take(n) =~= second);
    assert((second + first).skip(n) =~= first);
}

} // verus!
