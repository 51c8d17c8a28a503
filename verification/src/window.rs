//! The window of recent observations that a controller averages over.

use vstd::prelude::*;
use crate::error::InitError;

verus! {

/// One observation: what the application reported for one unit of progress.
#[derive(Clone, Copy, Debug, PartialEq, Eq, Structural)]
pub struct Sample {
    /// The caller's label for the unit of progress.
    pub tag: u64,
    /// Observed throughput, in fixed point.
    pub rate: u64,
    /// Observed power, in fixed point.
    pub power: u64,
}

/// The sum of the rates of `w`.
pub open spec fn rate_total(w: Seq<Sample>) -> nat
    decreases w.len(),
{
    if w.len() == 0 {
        0
    } else {
        (rate_total(w.drop_last()) + w.last().rate) as nat
    }
}

/// The sum of the powers of `w`.
pub open spec fn power_total(w: Seq<Sample>) -> nat
    decreases w.len(),
{
    if w.len() == 0 {
        0
    } else {
        (power_total(w.drop_last()) + w.last().power) as nat
    }
}

/// The arithmetic mean of the rates of `w`, rounded down to the fixed-point grid.
pub open spec fn mean_rate_of(w: Seq<Sample>) -> nat
    recommends
        w.len() > 0,
{
    (rate_total(w) / w.len()) as nat
}

/// The arithmetic mean of the powers of `w`, rounded down to the fixed-point grid.
pub open spec fn mean_power_of(w: Seq<Sample>) -> nat
    recommends
        w.len() > 0,
{
    (power_total(w) / w.len()) as nat
}

/// A window of capacity `depth` that holds `w`, oldest sample first, after `s`
/// arrives: `s` is appended, and if the window was full its oldest sample
/// leaves.
pub open spec fn slide(w: Seq<Sample>, depth: nat, s: Sample) -> Seq<Sample> {
    if w.len() < depth {
        w.push(s)
    } else {
        w.drop_first().push(s)
    }
}

/// The window after all of `incoming` arrived, in order.
pub open spec fn slide_all(w: Seq<Sample>, depth: nat, incoming: Seq<Sample>) -> Seq<Sample>
    decreases incoming.len(),
{
    if incoming.len() == 0 {
        w
    } else {
        slide(slide_all(w, depth, incoming.drop_last()), depth, incoming.last())
    }
}

/// The last `n` elements of `s`, or all of `s` if it has fewer.
pub open spec fn latest(s: Seq<Sample>, n: nat) -> Seq<Sample> {
    if s.len() <= n {
        s
    } else {
        s.subrange(s.len() - n, s.len() as int)
    }
}

/// Removing the first sample removes its rate and its power from the totals.
pub proof fn lemma_totals_drop_first(w: Seq<Sample>)
    requires
        w.len() > 0,
    ensures
        rate_total(w.drop_first()) + w.first().rate == rate_total(w),
        power_total(w.drop_first()) + w.first().power == power_total(w),
    decreases w.len(),
{
    if w.len() == 1 {
        assert(w.drop_first() =~= w.drop_last());
    } else {
        lemma_totals_drop_first(w.drop_last());
        assert(w.drop_last().drop_first() =~= w.drop_first().drop_last());
    }
}

/// Neither total exceeds the number of samples times the largest sample.
pub proof fn lemma_totals_bounded(w: Seq<Sample>)
    ensures
        rate_total(w) <= w.len() * u64::MAX,
        power_total(w) <= w.len() * u64::MAX,
    decreases w.len(),
{
    if w.len() > 0 {
        lemma_totals_bounded(w.drop_last());
        assert((w.len() - 1) * u64::MAX + u64::MAX == w.len() * u64::MAX) by (nonlinear_arith);
    }
}

/// The mean of values that fit in 64 bits fits in 64 bits.
pub proof fn lemma_means_bounded(w: Seq<Sample>)
    requires
        w.len() > 0,
    ensures
        mean_rate_of(w) <= u64::MAX,
        mean_power_of(w) <= u64::MAX,
{
    lemma_totals_bounded(w);
    let n = w.len() as int;
    let r = rate_total(w) as int;
    let p = power_total(w) as int;
    assert(r / n <= u64::MAX) by (nonlinear_arith)
        requires
            n > 0,
            0 <= r <= n * u64::MAX,
    ;
    assert(p / n <= u64::MAX) by (nonlinear_arith)
        requires
            n > 0,
            0 <= p <= n * u64::MAX,
    ;
}

/// A window never forgets a sample before it is full and never holds more
/// than its capacity: after any run of arrivals it holds exactly the latest
/// `depth` samples of what it held before followed by what arrived.
pub proof fn lemma_slide_all_keeps_latest(w: Seq<Sample>, depth: nat, incoming: Seq<Sample>)
    requires
        depth >= 1,
        w.len() <= depth,
    ensures
        slide_all(w, depth, incoming) == latest(w + incoming, depth),
    decreases incoming.len(),
{
    if incoming.len() == 0 {
        assert(w + incoming =~= w);
    } else {
        let before = incoming.drop_last();
        lemma_slide_all_keeps_latest(w, depth, before);
        let held = latest(w + before, depth);
        assert(slide(held, depth, incoming.last()) =~= latest(w + incoming, depth));
    }
}

/// Once at least `depth` samples have been pushed, the window holds exactly
/// the last `depth` of them, whatever it held before, so that its mean rate
/// and mean power are those of exactly these samples.
pub proof fn lemma_window_holds_last_pushed(w: Seq<Sample>, depth: nat, incoming: Seq<Sample>)
    requires
        depth >= 1,
        w.len() <= depth,
        incoming.len() >= depth,
    ensures
        slide_all(w, depth, incoming) == incoming.subrange(
            incoming.len() - depth,
            incoming.len() as int,
        ),
        slide_all(w, depth, incoming).len() == depth,
{
    lemma_slide_all_keeps_latest(w, depth, incoming);
    let all = w + incoming;
    assert(latest(all, depth) =~= incoming.subrange(
        incoming.len() - depth,
        incoming.len() as int,
    ));
}

/// A fixed-capacity window over the most recent samples.
///
/// Samples live in a ring: once the window is full, a new sample overwrites
/// the oldest one. The two running totals make the means constant-time.
pub struct ObservationWindow {
    slots: Vec<Sample>,
    depth: u32,
    oldest: usize,
    rate_sum: u128,
    power_sum: u128,
}

impl View for ObservationWindow {
    type V = Seq<Sample>;

    /// The samples held, oldest first.
    closed spec fn view(&self) -> Seq<Sample> {
        self.slots@.subrange(self.oldest as int, self.slots@.len() as int) + self.slots@.subrange(
            0,
            self.oldest as int,
        )
    }
}

impl ObservationWindow {
    /// The number of samples the window can hold.
    pub closed spec fn capacity(&self) -> nat {
        self.depth as nat
    }

    /// The ring is consistent with its totals.
    pub closed spec fn ring_inv(&self) -> bool {
        &&& self.slots@.len() <= self.depth
        &&& self.oldest < self.depth
        &&& self.oldest <= self.slots@.len()
        &&& self.slots@.len() < self.depth ==> self.oldest == 0
        &&& self.rate_sum == rate_total(self@)
        &&& self.power_sum == power_total(self@)
    }

    /// A window is well formed when it can hold at least one sample, holds no
    /// more than its capacity, and its internal ring is consistent.
    pub open spec fn wf(&self) -> bool {
        &&& 1 <= self.capacity() <= u32::MAX
        &&& self@.len() <= self.capacity()
        &&& self.ring_inv()
    }

    /// An empty window of capacity `depth`; a zero `depth` is refused.
    pub fn new(depth: u32) -> (r: Result<ObservationWindow, InitError>)
        ensures
            depth == 0 <==> r == Err::<ObservationWindow, InitError>(InitError::InvalidParameter),
            depth == 0 <==> r is Err,
            r matches Ok(w) ==> w.wf() && w.capacity() == depth && w@ == Seq::<Sample>::empty(),
    {
        if depth == 0 {
            return Err(InitError::InvalidParameter);
        }
        let w = ObservationWindow {
            slots: Vec::new(),
            depth,
            oldest: 0,
            rate_sum: 0,
            power_sum: 0,
        };
        assert(w@ =~= Seq::<Sample>::empty());
        Ok(w)
    }

    /// The number of samples the window can hold.
    pub fn depth(&self) -> (d: u32)
        ensures
            d == self.capacity(),
    {
        self.depth
    }

    /// The number of samples held.
    pub fn len(&self) -> (n: usize)
        requires
            self.wf(),
        ensures
            n == self@.len(),
    {
        self.slots.len()
    }

    /// Whether the window holds as many samples as it can.
    pub fn is_full(&self) -> (b: bool)
        requires
            self.wf(),
        ensures
            b <==> self@.len() == self.capacity(),
    {
        self.slots.len() == self.depth as usize
    }

    /// Records `s`. If the window was full, its oldest sample leaves.
    pub fn push(&mut self, s: Sample)
        requires
            old(self).wf(),
        ensures
            final(self).wf(),
            final(self).capacity() == old(self).capacity(),
            final(self)@ == slide(old(self)@, old(self).capacity(), s),
    {
        proof {
            lemma_totals_bounded(self@);
            assert(self@.len() * u64::MAX <= u32::MAX * u64::MAX) by (nonlinear_arith)
                requires
                    self@.len() <= u32::MAX,
            ;
        }
        if self.slots.len() < self.depth as usize {
            assert(self@ =~= self.slots@);
            self.slots.push(s);
            self.rate_sum = self.rate_sum + s.rate as u128;
            self.power_sum = self.power_sum + s.power as u128;
            assert(self@ =~= old(self)@.push(s));
            assert(self@.drop_last() =~= old(self)@);
        } else {
            let at: usize = self.oldest;
            let evicted: Sample = self.slots[at];
            proof {
                assert(old(self)@.first() == evicted);
                lemma_totals_drop_first(old(self)@);
            }
            self.slots.set(at, s);
            self.rate_sum = self.rate_sum - evicted.rate as u128 + s.rate as u128;
            self.power_sum = self.power_sum - evicted.power as u128 + s.power as u128;
            self.oldest = if at + 1 == self.depth as usize {
                0
            } else {
                at + 1
            };
            assert(self@ =~= old(self)@.drop_first().push(s));
            assert(self@.drop_last() =~= old(self)@.drop_first());
        }
    }

    /// The mean of the rates held, rounded down. The window must not be empty.
    pub fn mean_rate(&self) -> (m: u64)
        requires
            self.wf(),
            self@.len() > 0,
        ensures
            m == mean_rate_of(self@),
    {
        proof {
            lemma_means_bounded(self@);
        }
        (self.rate_sum / (self.slots.len() as u128)) as u64
    }

    /// The mean of the powers held, rounded down. The window must not be empty.
    pub fn mean_power(&self) -> (m: u64)
        requires
            self.wf(),
            self@.len() > 0,
        ensures
            m == mean_power_of(self@),
    {
        proof {
            lemma_means_bounded(self@);
        }
        (self.power_sum / (self.slots.len() as u128)) as u64
    }
}

} // verus!
