//! The outbound producer: an unbounded sequence of copies of one payload,
//! paced by a throttle interval and cancellable at any point.
//!
//! Time is a count of milliseconds on a monotonic clock chosen by the caller.
//! The caller polls with the current time and either sends the envelope it is
//! handed or waits for the returned number of milliseconds.

use vstd::prelude::*;
use crate::envelope::OutboundEnvelope;

verus! {

/// What a poll of the producer asks of its caller.
#[derive(Debug, PartialEq, Eq)]
pub enum Pace {
    /// Send this envelope now.
    Emit(OutboundEnvelope),
    /// Nothing is due yet: poll again after this many milliseconds.
    Wait(u64),
    /// The producer was cancelled and will never emit again.
    Stopped,
}

/// The abstract state of a producer.
pub struct ProducerView {
    pub payload: OutboundEnvelope,
    pub interval: nat,
    pub start: nat,
    /// The times of all emissions so far, in order.
    pub emissions: Seq<nat>,
    pub cancelled: bool,
}

/// No emission before `start`, and consecutive emissions at least
/// `interval` apart.
pub open spec fn paced(emissions: Seq<nat>, start: nat, interval: nat) -> bool {
    &&& (emissions.len() > 0 ==> emissions[0] >= start)
    &&& forall|i: int|
        0 < i < emissions.len() ==> #[trigger] emissions[i] >= emissions[i - 1] + interval
}

/// The earliest time at which the next emission may happen.
pub open spec fn next_due(v: ProducerView) -> nat {
    if v.emissions.len() == 0 {
        v.start
    } else {
        v.emissions.last() + v.interval
    }
}

pub open spec fn clip_u64(x: int) -> u64 {
    if x > u64::MAX {
        u64::MAX
    } else {
        x as u64
    }
}

/// One poll at time `now`: stopped once cancelled; an emission of the payload
/// once the next one is due; otherwise the time left until it is.
pub open spec fn poll_step(v: ProducerView, now: nat) -> (ProducerView, Pace) {
    if v.cancelled {
        (v, Pace::Stopped)
    } else if now >= next_due(v) {
        (ProducerView { emissions: v.emissions.push(now), ..v }, Pace::Emit(v.payload))
    } else {
        (v, Pace::Wait(clip_u64(next_due(v) - now)))
    }
}

/// A sequence of polls at the given times, with what each returned.
pub open spec fn poll_run(v: ProducerView, times: Seq<nat>) -> (ProducerView, Seq<Pace>)
    decreases times.len(),
{
    if times.len() == 0 {
        (v, seq![])
    } else {
        let (mid, paces) = poll_run(v, times.drop_last());
        let (next, pace) = poll_step(mid, times.last());
        (next, paces.push(pace))
    }
}

/// The state of a fresh producer.
pub open spec fn fresh(payload: OutboundEnvelope, interval: nat, start: nat) -> ProducerView {
    ProducerView { payload, interval, start, emissions: seq![], cancelled: false }
}

/// How many of the given times are at or before `t`.
pub open spec fn count_until(times: Seq<nat>, t: nat) -> nat
    decreases times.len(),
{
    if times.len() == 0 {
        0
    } else {
        count_until(times.drop_last(), t) + if times.last() <= t {
            1nat
        } else {
            0nat
        }
    }
}

pub struct Producer {
    payload: OutboundEnvelope,
    interval: u64,
    start: u64,
    last: Option<u64>,
    cancelled: bool,
    emissions: Ghost<Seq<nat>>,
}

impl View for Producer {
    type V = ProducerView;

    closed spec fn view(&self) -> ProducerView {
        ProducerView {
            payload: self.payload,
            interval: self.interval as nat,
            start: self.start as nat,
            emissions: self.emissions@,
            cancelled: self.cancelled,
        }
    }
}

impl Producer {
    /// Internal consistency: `last` is the time of the latest emission, and
    /// emissions so far obey the throttle.
    pub closed spec fn wf(&self) -> bool {
        &&& paced(self.emissions@, self.start as nat, self.interval as nat)
        &&& match self.last {
            None => self.emissions@.len() == 0,
            Some(t) => self.emissions@.len() > 0 && self.emissions@.last() == t as nat,
        }
    }

    /// A producer of copies of `payload`, at most one per `interval`
    /// milliseconds, the first of them due at `start`.
    pub fn new(payload: OutboundEnvelope, interval: u64, start: u64) -> (r: Producer)
        ensures
            r.wf(),
            r@ == fresh(payload, interval as nat, start as nat),
    {
        Producer {
            payload,
            interval,
            start,
            last: None,
            cancelled: false,
            emissions: Ghost(Seq::empty()),
        }
    }

    /// Polls at time `now` (see `poll_step`).
    pub fn poll(&mut self, now: u64) -> (r: Pace)
        requires
            old(self).wf(),
        ensures
            final(self).wf(),
            (final(self)@, r) == poll_step(old(self)@, now as nat),
    {
        if self.cancelled {
            return Pace::Stopped;
        }
        let due: u128 = match self.last {
            None => self.start as u128,
            Some(t) => t as u128 + self.interval as u128,
        };
        if now as u128 >= due {
            self.last = Some(now);
            self.emissions = Ghost(self.emissions@.push(now as nat));
            Pace::Emit(self.payload.clone())
        } else if due - now as u128 > u64::MAX as u128 {
            Pace::Wait(u64::MAX)
        } else {
            Pace::Wait((due - now as u128) as u64)
        }
    }

    /// Cancels the producer: every later poll returns `Stopped`.
    pub fn cancel(&mut self)
        requires
            old(self).wf(),
        ensures
            final(self).wf(),
            final(self)@ == (ProducerView { cancelled: true, ..old(self)@ }),
    {
        self.cancelled = true;
    }

    pub fn is_cancelled(&self) -> (r: bool)
        ensures
            r == self@.cancelled,
    {
        self.cancelled
    }

    pub fn interval(&self) -> (r: u64)
        ensures
            r as nat == self@.interval,
    {
        self.interval
    }

    pub fn payload(&self) -> (r: &OutboundEnvelope)
        ensures
            *r == self@.payload,
    {
        &self.payload
    }
}

/// Every emission is at least `k` intervals after the start, `k` being its
/// position.
pub proof fn lemma_paced_lower_bound(emissions: Seq<nat>, start: nat, interval: nat, k: int)
    requires
        paced(emissions, start, interval),
        0 <= k < emissions.len(),
    ensures
        emissions[k] >= start + k * interval,
    decreases k,
{
    if k > 0 {
        lemma_paced_lower_bound(emissions, start, interval, k - 1);
        assert(emissions[k] >= emissions[k - 1] + interval);
        assert((k - 1) * interval + interval == k * interval) by (nonlinear_arith);
    } else {
        assert(k * interval == 0) by (nonlinear_arith)
            requires
                k == 0,
        ;
    }
}

/// Pacing holds of every prefix.
pub proof fn lemma_paced_drop_last(emissions: Seq<nat>, start: nat, interval: nat)
    requires
        paced(emissions, start, interval),
        emissions.len() > 0,
    ensures
        paced(emissions.drop_last(), start, interval),
{
    let p = emissions.drop_last();
    assert forall|i: int| 0 < i < p.len() implies #[trigger] p[i] >= p[i - 1] + interval by {
        assert(p[i] == emissions[i] && p[i - 1] == emissions[i - 1]);
    }
}

/// Paced emissions that started at `start` number at most
/// `floor(d / interval) + 1` by time `start + d`.
pub proof fn lemma_paced_count(emissions: Seq<nat>, start: nat, interval: nat, d: nat)
    requires
        paced(emissions, start, interval),
        interval > 0,
    ensures
        count_until(emissions, start + d) <= emissions.len(),
        count_until(emissions, start + d) <= d / interval + 1,
    decreases emissions.len(),
{
    if emissions.len() > 0 {
        let n = emissions.len();
        lemma_paced_drop_last(emissions, start, interval);
        lemma_paced_count(emissions.drop_last(), start, interval, d);
        if emissions.last() <= start + d {
            lemma_paced_lower_bound(emissions, start, interval, n - 1);
            let k: int = n - 1;
            assert(k * interval <= d);
            assert(k <= d / interval) by (nonlinear_arith)
                requires
                    k * interval <= d,
                    interval > 0,
                    k >= 0,
            {
                if k > d / interval {
                    assert(k >= d / interval + 1);
                    assert(k * interval >= (d / interval + 1) * interval);
                    assert(d < (d / interval + 1) * interval);
                }
            }
        }
    }
}

/// Every poll keeps the throttle: the emissions of any state reached by
/// polling stay paced.
pub proof fn lemma_poll_run_paced(v: ProducerView, times: Seq<nat>)
    requires
        paced(v.emissions, v.start, v.interval),
    ensures
        paced(poll_run(v, times).0.emissions, v.start, v.interval),
        poll_run(v, times).0.start == v.start,
        poll_run(v, times).0.interval == v.interval,
        poll_run(v, times).0.payload == v.payload,
    decreases times.len(),
{
    if times.len() > 0 {
        lemma_poll_run_paced(v, times.drop_last());
        let mid = poll_run(v, times.drop_last()).0;
        let e = poll_step(mid, times.last()).0.emissions;
        if !mid.cancelled && times.last() >= next_due(mid) {
            assert forall|i: int| 0 < i < e.len() implies #[trigger] e[i] >= e[i - 1] + v.interval by {
                if i < e.len() - 1 {
                    assert(e[i] == mid.emissions[i] && e[i - 1] == mid.emissions[i - 1]);
                }
            }
        }
    }
}

/// A fresh producer with a positive interval, polled at any times whatever,
/// has emitted at most `floor(d / interval) + 1` envelopes by `d`
/// milliseconds after its start, and every envelope it handed out is its
/// payload.
pub proof fn lemma_throttle_bound(
    payload: OutboundEnvelope,
    interval: nat,
    start: nat,
    times: Seq<nat>,
    d: nat,
)
    requires
        interval > 0,
    ensures
        count_until(poll_run(fresh(payload, interval, start), times).0.emissions, start + d)
            <= d / interval + 1,
        forall|i: int|
            0 <= i < times.len() && #[trigger] poll_run(fresh(payload, interval, start), times).1[i] is Emit
                ==> poll_run(fresh(payload, interval, start), times).1[i] == Pace::Emit(payload),
{
    let v = fresh(payload, interval, start);
    lemma_poll_run_paced(v, times);
    lemma_paced_count(poll_run(v, times).0.emissions, start, interval, d);
    lemma_poll_run_payload(v, times);
}

/// Every emission handed out by a run of polls is the payload, and a run
/// yields one result per poll.
pub proof fn lemma_poll_run_payload(v: ProducerView, times: Seq<nat>)
    ensures
        poll_run(v, times).1.len() == times.len(),
        forall|i: int|
            0 <= i < times.len() && #[trigger] poll_run(v, times).1[i] is Emit
                ==> poll_run(v, times).1[i] == Pace::Emit(v.payload),
    decreases times.len(),
{
    if times.len() > 0 {
        lemma_poll_run_payload(v, times.drop_last());
        lemma_poll_run_keeps_payload(v, times.drop_last());
    }
}

/// Polling never changes the payload.
pub proof fn lemma_poll_run_keeps_payload(v: ProducerView, times: Seq<nat>)
    ensures
        poll_run(v, times).0.payload == v.payload,
    decreases times.len(),
{
    if times.len() > 0 {
        lemma_poll_run_keeps_payload(v, times.drop_last());
    }
}

/// Once cancelled, a producer emits nothing more: every later poll, at any
/// time, returns `Stopped` and the record of emissions stays as it was.
pub proof fn lemma_silent_after_cancel(v: ProducerView, times: Seq<nat>)
    requires
        v.cancelled,
    ensures
        poll_run(v, times).0 == v,
        forall|i: int| 0 <= i < times.len() ==> #[trigger] poll_run(v, times).1[i] == Pace::Stopped,
        poll_run(v, times).1.len() == times.len(),
    decreases times.len(),
{
    if times.len() > 0 {
        lemma_silent_after_cancel(v, times.drop_last());
    }
}

} // verus!
