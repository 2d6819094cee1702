//! The session driver: one duplex conversation, from a successful connect
//! to its end. Inbound items are dispatched in arrival order; the outbound
//! producer runs until the session ends, and not a poll longer.

use vstd::prelude::*;
use crate::dispatch::{dispatch, dispatch_line, diagnostic_line, Dispatched};
use crate::envelope::{InboundEnvelope, OutboundEnvelope};
use crate::producer::{fresh, poll_run, poll_step, lemma_silent_after_cancel, Pace, Producer, ProducerView};

verus! {

/// The peer could not be reached, or refused the session.
#[derive(Debug, PartialEq, Eq)]
pub struct ConnectError {
    pub cause: String,
}

/// The duplex channel broke mid-session.
#[derive(Debug, PartialEq, Eq)]
pub struct TransportFault {
    pub cause: String,
}

impl Clone for TransportFault {
    fn clone(&self) -> (r: Self)
        ensures
            r == *self,
    {
        TransportFault { cause: self.cause.clone() }
    }
}

/// One result of pulling from the inbound side of the channel.
#[derive(Debug, PartialEq, Eq)]
pub enum Received {
    Envelope(InboundEnvelope),
    EndOfStream,
    Fault(TransportFault),
}

/// How a session ended.
#[derive(Debug, PartialEq, Eq)]
pub enum SessionOutcome {
    /// The stream was closed in an orderly way.
    Graceful,
    /// The channel broke.
    Faulted(TransportFault),
    /// The local side stopped the session.
    Interrupted,
}

/// The abstract state of a session: its producer, and how it ended, once it
/// has.
pub struct SessionView {
    pub producer: ProducerView,
    pub outcome: Option<SessionOutcome>,
}

pub open spec fn active(s: SessionView) -> bool {
    s.outcome is None
}

/// Ends an active session with `outcome`, cancelling its producer; an ended
/// session stays as it is.
pub open spec fn end_with(s: SessionView, outcome: SessionOutcome) -> SessionView {
    if active(s) {
        SessionView {
            producer: ProducerView { cancelled: true, ..s.producer },
            outcome: Some(outcome),
        }
    } else {
        s
    }
}

/// One inbound item: an envelope of an active session is dispatched and the
/// session goes on; end of stream and a fault end it. An ended session
/// ignores whatever still arrives.
pub open spec fn receive_step(s: SessionView, item: Received) -> (SessionView, Option<Seq<char>>) {
    if !active(s) {
        (s, None)
    } else {
        match item {
            Received::Envelope(env) => (s, Some(dispatch_line(env))),
            Received::EndOfStream => (end_with(s, SessionOutcome::Graceful), None),
            Received::Fault(f) => (end_with(s, SessionOutcome::Faulted(f)), None),
        }
    }
}

pub open spec fn opt_line(line: Option<Seq<char>>) -> Seq<Seq<char>> {
    match line {
        Some(l) => seq![l],
        None => seq![],
    }
}

/// A sequence of inbound items, with the lines they produced, in order.
pub open spec fn receive_run(s: SessionView, items: Seq<Received>) -> (SessionView, Seq<Seq<char>>)
    decreases items.len(),
{
    if items.len() == 0 {
        (s, seq![])
    } else {
        let (mid, lines) = receive_run(s, items.drop_last());
        let (next, line) = receive_step(mid, items.last());
        (next, lines + opt_line(line))
    }
}

pub open spec fn as_received(envs: Seq<InboundEnvelope>) -> Seq<Received> {
    envs.map_values(|e: InboundEnvelope| Received::Envelope(e))
}

pub open spec fn lines_of(envs: Seq<InboundEnvelope>) -> Seq<Seq<char>> {
    envs.map_values(|e: InboundEnvelope| dispatch_line(e))
}

pub struct Session {
    producer: Producer,
    outcome: Option<SessionOutcome>,
}

impl View for Session {
    type V = SessionView;

    closed spec fn view(&self) -> SessionView {
        SessionView { producer: self.producer@, outcome: self.outcome }
    }
}

impl Session {
    /// The producer is consistent, and it is cancelled once the session has
    /// ended.
    pub closed spec fn wf(&self) -> bool {
        &&& self.producer.wf()
        &&& (self.outcome is Some ==> self.producer@.cancelled)
    }

    /// Creates the session once the transport has answered the connect
    /// attempt. On an error no session exists and the error is handed back;
    /// otherwise the session is active, with a fresh producer of `payload`
    /// whose first envelope is due at `now`.
    pub fn open(
        connected: Result<(), ConnectError>,
        payload: OutboundEnvelope,
        interval: u64,
        now: u64,
    ) -> (r: Result<Session, ConnectError>)
        ensures
            connected is Err <==> r is Err,
            connected is Err ==> r == Err::<Session, ConnectError>(connected->Err_0),
            r matches Ok(s) ==> s.wf() && s@ == (SessionView {
                producer: fresh(payload, interval as nat, now as nat),
                outcome: None,
            }),
    {
        match connected {
            Err(e) => Err(e),
            Ok(()) => Ok(Session { producer: Producer::new(payload, interval, now), outcome: None }),
        }
    }

    fn end(&mut self, outcome: SessionOutcome)
        requires
            old(self).wf(),
        ensures
            final(self).wf(),
            final(self)@ == end_with(old(self)@, outcome),
    {
        if self.outcome.is_none() {
            self.producer.cancel();
            self.outcome = Some(outcome);
        }
    }

    /// Handles one inbound item (see `receive_step`); returns what dispatching
    /// an envelope produced.
    pub fn receive(&mut self, item: &Received) -> (r: Option<Dispatched>)
        requires
            old(self).wf(),
        ensures
            final(self).wf(),
            final(self)@ == receive_step(old(self)@, *item).0,
            match r {
                Some(d) => receive_step(old(self)@, *item).1 == Some(d.spec_line())
                    && (item matches Received::Envelope(env) && (d is Rendered <==> env is Message)),
                None => receive_step(old(self)@, *item).1 is None,
            },
    {
        if self.outcome.is_some() {
            return None;
        }
        match item {
            Received::Envelope(env) => Some(dispatch(env)),
            Received::EndOfStream => {
                self.end(SessionOutcome::Graceful);
                None
            },
            Received::Fault(f) => {
                self.end(SessionOutcome::Faulted(f.clone()));
                None
            },
        }
    }

    /// Stops the session from the local side, as an operator's interrupt
    /// does. The producer is cancelled at once.
    pub fn interrupt(&mut self)
        requires
            old(self).wf(),
        ensures
            final(self).wf(),
            final(self)@ == end_with(old(self)@, SessionOutcome::Interrupted),
    {
        self.end(SessionOutcome::Interrupted);
    }

    /// Polls the outbound producer at time `now`.
    pub fn poll_outbound(&mut self, now: u64) -> (r: Pace)
        requires
            old(self).wf(),
        ensures
            final(self).wf(),
            final(self)@ == (SessionView {
                producer: poll_step(old(self)@.producer, now as nat).0,
                outcome: old(self)@.outcome,
            }),
            r == poll_step(old(self)@.producer, now as nat).1,
    {
        self.producer.poll(now)
    }

    /// Feeds the inbound items in order, as the driver loop pulls them, and
    /// returns the lines dispatched. Items after the session's end are
    /// ignored.
    pub fn run(&mut self, items: &Vec<Received>) -> (lines: Vec<String>)
        requires
            old(self).wf(),
        ensures
            final(self).wf(),
            final(self)@ == receive_run(old(self)@, items@).0,
            lines@.map_values(|l: String| l@) == receive_run(old(self)@, items@).1,
    {
        let mut lines: Vec<String> = Vec::new();
        let mut i: usize = 0;
        while i < items.len()
            invariant
                i <= items.len(),
                self.wf(),
                self@ == receive_run(old(self)@, items@.take(i as int)).0,
                lines@.map_values(|l: String| l@) == receive_run(old(self)@, items@.take(i as int)).1,
            decreases items.len() - i,
        {
            assert(items@.take(i as int + 1).drop_last() =~= items@.take(i as int));
            let out = self.receive(&items[i]);
            let ghost before = lines@.map_values(|l: String| l@);
            match out {
                Some(d) => {
                    let line = match d {
                        Dispatched::Rendered { line } => line,
                        Dispatched::Unrecognized { line } => line,
                    };
                    lines.push(line);
                    assert(lines@.map_values(|l: String| l@) =~= before + seq![d.spec_line()]);
                },
                None => {
                    assert(before + seq![] =~= before);
                },
            }
            i += 1;
        }
        assert(items@.take(i as int) =~= items@);
        lines
    }

    pub fn is_active(&self) -> (r: bool)
        ensures
            r == active(self@),
    {
        self.outcome.is_none()
    }

    /// How the session ended; `None` while it is active.
    pub fn outcome(&self) -> (r: &Option<SessionOutcome>)
        ensures
            *r == self@.outcome,
    {
        &self.outcome
    }
}

/// Running two batches of items one after the other is running them
/// together: states chain and lines concatenate.
pub proof fn lemma_receive_run_append(s: SessionView, a: Seq<Received>, b: Seq<Received>)
    ensures
        receive_run(s, a + b) == ({
            let (mid, first) = receive_run(s, a);
            let (last, second) = receive_run(mid, b);
            (last, first + second)
        }),
    decreases b.len(),
{
    if b.len() == 0 {
        assert(a + b =~= a);
        assert(receive_run(s, a).1 + seq![] =~= receive_run(s, a).1);
    } else {
        assert((a + b).drop_last() =~= a + b.drop_last());
        assert((a + b).last() == b.last());
        lemma_receive_run_append(s, a, b.drop_last());
        let (mid, first) = receive_run(s, a);
        let (m2, second) = receive_run(mid, b.drop_last());
        let (next, line) = receive_step(m2, b.last());
        assert(first + second + opt_line(line) =~= first + (second + opt_line(line)));
    }
}

/// An ended session ignores every later item and produces no line.
pub proof fn lemma_ended_ignores(s: SessionView, items: Seq<Received>)
    requires
        !active(s),
    ensures
        receive_run(s, items) == (s, Seq::<Seq<char>>::empty()),
    decreases items.len(),
{
    if items.len() > 0 {
        lemma_ended_ignores(s, items.drop_last());
        assert(Seq::<Seq<char>>::empty() + opt_line(None) =~= Seq::<Seq<char>>::empty());
    }
}

/// Envelopes received by an active session are dispatched one line each, in
/// arrival order, and leave the session active and its producer untouched.
pub proof fn lemma_dispatch_in_order(s: SessionView, envs: Seq<InboundEnvelope>)
    requires
        active(s),
    ensures
        receive_run(s, as_received(envs)) == (s, lines_of(envs)),
    decreases envs.len(),
{
    if envs.len() > 0 {
        assert(as_received(envs).drop_last() =~= as_received(envs.drop_last()));
        lemma_dispatch_in_order(s, envs.drop_last());
        assert(lines_of(envs) =~= lines_of(envs.drop_last()) + seq![dispatch_line(envs.last())]);
    } else {
        assert(as_received(envs) =~= seq![]);
        assert(lines_of(envs) =~= seq![]);
    }
}

/// An unrecognized variant yields exactly the one diagnostic line, and the
/// session stays active: a message received next is rendered as usual.
pub proof fn lemma_unrecognized_is_not_fatal(s: SessionView, next: InboundEnvelope)
    requires
        active(s),
    ensures
        receive_step(s, Received::Envelope(InboundEnvelope::Unrecognized)) == (s, Some(diagnostic_line())),
        receive_run(s, seq![Received::Envelope(InboundEnvelope::Unrecognized), Received::Envelope(next)])
            == (s, seq![diagnostic_line(), dispatch_line(next)]),
{
    let envs = seq![InboundEnvelope::Unrecognized, next];
    assert(as_received(envs) =~= seq![Received::Envelope(InboundEnvelope::Unrecognized), Received::Envelope(next)]);
    assert(lines_of(envs) =~= seq![diagnostic_line(), dispatch_line(next)]);
    lemma_dispatch_in_order(s, envs);
}

/// The first end-of-stream or fault that an active session receives decides
/// its outcome: `Graceful` for a clean end, `Faulted` with the fault's cause
/// for a fault, two outcomes that never coincide. The envelopes before it are
/// dispatched in order; nothing after it is; the producer is cancelled.
pub proof fn lemma_end_decides_outcome(
    s: SessionView,
    envs: Seq<InboundEnvelope>,
    end: Received,
    rest: Seq<Received>,
)
    requires
        active(s),
        !(end is Envelope),
    ensures
        ({
            let (last, lines) = receive_run(s, as_received(envs) + seq![end] + rest);
            &&& lines == lines_of(envs)
            &&& last.producer.cancelled
            &&& end is EndOfStream ==> last.outcome == Some(SessionOutcome::Graceful)
            &&& end matches Received::Fault(f) ==> last.outcome == Some(SessionOutcome::Faulted(f))
        }),
        SessionOutcome::Graceful != SessionOutcome::Faulted(end->Fault_0),
{
    let pre = as_received(envs);
    lemma_receive_run_append(s, pre + seq![end], rest);
    lemma_receive_run_append(s, pre, seq![end]);
    lemma_dispatch_in_order(s, envs);
    assert(seq![end].drop_last() =~= Seq::<Received>::empty());
    let ended = receive_step(s, end).0;
    assert(receive_run(s, Seq::<Received>::empty()) == (s, Seq::<Seq<char>>::empty()));
    assert(receive_run(s, seq![end]).0 == ended);
    assert(receive_run(s, seq![end]).1 =~= Seq::<Seq<char>>::empty());
    assert(receive_run(s, pre + seq![end]).0 == ended);
    assert(receive_run(s, pre + seq![end]).1 =~= lines_of(envs));
    lemma_ended_ignores(ended, rest);
    assert(lines_of(envs) + opt_line(None) =~= lines_of(envs));
    assert(lines_of(envs) + Seq::<Seq<char>>::empty() =~= lines_of(envs));
}

/// Once a session has ended, by interrupt or otherwise, its producer emits
/// nothing more: every later poll returns `Stopped`.
pub proof fn lemma_no_emission_after_end(s: SessionView, outcome: SessionOutcome, times: Seq<nat>)
    requires
        active(s) ==> !s.producer.cancelled,
        !active(s) ==> s.producer.cancelled,
    ensures
        forall|i: int|
            0 <= i < times.len() ==> #[trigger] poll_run(end_with(s, outcome).producer, times).1[i]
                == Pace::Stopped,
        poll_run(end_with(s, outcome).producer, times).0.emissions == s.producer.emissions,
{
    lemma_silent_after_cancel(end_with(s, outcome).producer, times);
}

} // verus!
