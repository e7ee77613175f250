//! The server's per-connection notification channel: turns the shared sensor
//! state into pushed messages, at a slow cadence while triggered and as
//! keepalives while idle.
use crate::protocol::Notification;
use vstd::prelude::*;

verus! {

/// The pause after a `Triggered` push, in milliseconds.
pub const SUPPRESS_INTERVAL_MS: u64 = 2500;

/// The pause after a `Keepalive` push, in milliseconds.
pub const IDLE_INTERVAL_MS: u64 = 1000;

/// One push: the message to send, and the pause after a successful send.
#[derive(Clone, Copy, Debug, PartialEq, Eq, Structural)]
pub struct Push {
    pub message: Notification,
    pub pause_ms: u64,
}

/// What the caller is to do after a send.
#[derive(Clone, Copy, Debug, PartialEq, Eq, Structural)]
pub enum ChannelAction {
    /// Sleep this many milliseconds, then observe the state again.
    Pause(u64),
    /// Close the connection and end the session.
    Close,
}

/// The push for one observation of the sensor state.
pub open spec fn push_for(triggered: bool) -> Push {
    if triggered {
        Push { message: Notification::Triggered, pause_ms: SUPPRESS_INTERVAL_MS }
    } else {
        Push { message: Notification::Keepalive, pause_ms: IDLE_INTERVAL_MS }
    }
}

/// The pushes for a run of observations, one each.
pub open spec fn pushes(observed: Seq<bool>) -> Seq<Push> {
    observed.map_values(|t: bool| push_for(t))
}

/// When the `i`-th push is sent, in milliseconds after the first, with every
/// send taken as instant.
pub open spec fn send_time(observed: Seq<bool>, i: nat) -> int
    decreases i,
{
    if i == 0 {
        0
    } else {
        send_time(observed, (i - 1) as nat) + push_for(observed[i - 1]).pause_ms
    }
}

/// The push for one observation of the sensor state.
pub fn plan_push(triggered: bool) -> (r: Push)
    ensures
        r == push_for(triggered),
{
    if triggered {
        Push { message: Notification::Triggered, pause_ms: SUPPRESS_INTERVAL_MS }
    } else {
        Push { message: Notification::Keepalive, pause_ms: IDLE_INTERVAL_MS }
    }
}

/// The push loop of one accepted connection.
pub struct NotificationChannel {
    open: bool,
    observed: Ghost<Seq<bool>>,
}

impl NotificationChannel {
    /// Whether the session goes on.
    pub closed spec fn spec_open(&self) -> bool {
        self.open
    }

    /// The observations whose push was handed to the connection, in order.
    pub closed spec fn spec_observed(&self) -> Seq<bool> {
        self.observed@
    }

    /// A channel for a freshly accepted connection.
    pub fn new() -> (r: NotificationChannel)
        ensures
            r.spec_open(),
            r.spec_observed() == Seq::<bool>::empty(),
    {
        NotificationChannel { open: true, observed: Ghost(Seq::empty()) }
    }

    /// Whether the session goes on.
    pub fn is_open(&self) -> (r: bool)
        ensures
            r == self.spec_open(),
    {
        self.open
    }

    /// The push to send for the state just observed.
    pub fn next_push(&self, triggered: bool) -> (r: Push)
        ensures
            r == push_for(triggered),
    {
        plan_push(triggered)
    }

    /// Records the outcome of sending `next_push(triggered)`: after a
    /// successful send, pause for the push's interval; after a failed one, or
    /// once closed, close. No send is ever retried.
    pub fn record(&mut self, triggered: bool, delivered: bool) -> (r: ChannelAction)
        ensures
            old(self).spec_open() ==> final(self).spec_observed() == old(
                self,
            ).spec_observed().push(triggered),
            !old(self).spec_open() ==> final(self).spec_observed() == old(self).spec_observed(),
            final(self).spec_open() == (old(self).spec_open() && delivered),
            r == if old(self).spec_open() && delivered {
                ChannelAction::Pause(push_for(triggered).pause_ms)
            } else {
                ChannelAction::Close
            },
    {
        if !self.open {
            return ChannelAction::Close;
        }
        self.observed = Ghost(self.observed@.push(triggered));
        if delivered {
            ChannelAction::Pause(plan_push(triggered).pause_ms)
        } else {
            self.open = false;
            ChannelAction::Close
        }
    }
}

proof fn lemma_steady_run(observed: Seq<bool>, a: nat, b: nat, state: bool)
    requires
        a <= b <= observed.len(),
        forall|i: int| a <= i < b ==> observed[i] == state,
    ensures
        send_time(observed, b) - send_time(observed, a) == (b - a) * push_for(state).pause_ms,
        forall|i: int| a <= i < b ==> pushes(observed)[i] == push_for(state),
    decreases b - a,
{
    if b > a {
        lemma_steady_run(observed, a, (b - 1) as nat, state);
        assert(observed[b - 1] == state);
        assert((b - a) * push_for(state).pause_ms == (b - 1 - a) * push_for(state).pause_ms
            + push_for(state).pause_ms) by (nonlinear_arith);
    }
}

/// While the state stays triggered, the channel sends exactly one
/// `Triggered` message per suppress interval: over observations `a..b` it
/// sends `b - a` of them, `SUPPRESS_INTERVAL_MS` apart.
pub proof fn lemma_triggered_cadence(observed: Seq<bool>, a: nat, b: nat)
    requires
        a <= b <= observed.len(),
        forall|i: int| a <= i < b ==> observed[i],
    ensures
        forall|i: int|
            a <= i < b ==> (#[trigger] pushes(observed)[i]).message == Notification::Triggered,
        send_time(observed, b) - send_time(observed, a) == (b - a) * SUPPRESS_INTERVAL_MS,
{
    lemma_steady_run(observed, a, b, true);
}

/// While the state stays idle, the channel sends exactly one `Keepalive`
/// message per idle interval: over observations `a..b` it sends `b - a` of
/// them, `IDLE_INTERVAL_MS` apart.
pub proof fn lemma_keepalive_cadence(observed: Seq<bool>, a: nat, b: nat)
    requires
        a <= b <= observed.len(),
        forall|i: int| a <= i < b ==> !observed[i],
    ensures
        forall|i: int|
            a <= i < b ==> (#[trigger] pushes(observed)[i]).message == Notification::Keepalive,
        send_time(observed, b) - send_time(observed, a) == (b - a) * IDLE_INTERVAL_MS,
{
    lemma_steady_run(observed, a, b, false);
}

} // verus!
