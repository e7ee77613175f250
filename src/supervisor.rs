//! The client's connection supervisor: connects, reconnects with a bounded
//! number of attempts and a fixed delay, and gives up at the bound.
use vstd::prelude::*;

verus! {

/// The delay between two connection attempts, in milliseconds.
pub const RETRY_DELAY_MS: u64 = 1000;

/// The client's reconnection policy and its attempt counter.
#[derive(Clone, Copy, Debug, PartialEq, Eq, Structural)]
pub struct RetryState {
    /// Failed handshakes since the last successful one.
    pub attempts: u64,
    /// The number of failed handshakes at which the client gives up.
    pub max_attempts: u64,
    /// The wait before the next attempt, in milliseconds.
    pub delay_ms: u64,
}

/// Where the supervisor stands.
#[derive(Clone, Copy, Debug, PartialEq, Eq, Structural)]
pub enum SupervisorPhase {
    Disconnected,
    Connecting,
    Connected,
    /// Terminal: no attempt is made any more.
    GivenUp,
}

/// What the supervisor is told.
#[derive(Clone, Copy, Debug, PartialEq, Eq, Structural)]
pub enum SupervisorEvent {
    /// Begin connecting: at start, and when the wait after a failure is over.
    Begin,
    HandshakeSucceeded,
    HandshakeFailed,
    /// The session's inbound stream ended, cleanly or by a protocol violation.
    SessionEnded,
}

/// What the caller is to do next.
#[derive(Clone, Copy, Debug, PartialEq, Eq, Structural)]
pub enum SupervisorAction {
    /// Attempt the handshake and report its outcome.
    Connect,
    /// Wait this many milliseconds, then report [`SupervisorEvent::Begin`].
    Wait(u64),
    /// Hand the connection to a fresh dispatcher; report
    /// [`SupervisorEvent::SessionEnded`] when its session is over.
    Dispatch,
    /// Terminate: the supervisor has given up.
    Stop,
    /// The event does not apply in the current phase; nothing to do.
    Ignore,
}

/// The supervisor as values: its phase and its retry state.
pub type SupervisorModel = (SupervisorPhase, RetryState);

/// The counter stays within its bound, and below it while a connection is
/// being made or held.
pub open spec fn model_wf(m: SupervisorModel) -> bool {
    &&& m.1.attempts <= m.1.max_attempts
    &&& (m.0 == SupervisorPhase::Connecting || m.0 == SupervisorPhase::Connected) ==> m.1.attempts
        < m.1.max_attempts
}

/// One step of the supervisor.
pub open spec fn supervise_step(m: SupervisorModel, e: SupervisorEvent) -> (SupervisorModel, SupervisorAction) {
    let (phase, retry) = m;
    match (phase, e) {
        (SupervisorPhase::GivenUp, _) => (m, SupervisorAction::Stop),
        (SupervisorPhase::Disconnected, SupervisorEvent::Begin) => if retry.attempts
            < retry.max_attempts {
            ((SupervisorPhase::Connecting, retry), SupervisorAction::Connect)
        } else {
            ((SupervisorPhase::GivenUp, retry), SupervisorAction::Stop)
        },
        (SupervisorPhase::Connecting, SupervisorEvent::HandshakeSucceeded) => (
            (SupervisorPhase::Connected, RetryState { attempts: 0, ..retry }),
            SupervisorAction::Dispatch,
        ),
        (SupervisorPhase::Connecting, SupervisorEvent::HandshakeFailed) => {
            let next = RetryState { attempts: (retry.attempts + 1) as u64, ..retry };
            if retry.attempts + 1 < retry.max_attempts {
                ((SupervisorPhase::Disconnected, next), SupervisorAction::Wait(retry.delay_ms))
            } else {
                ((SupervisorPhase::GivenUp, next), SupervisorAction::Stop)
            }
        },
        (SupervisorPhase::Connected, SupervisorEvent::SessionEnded) => (
            (SupervisorPhase::Connecting, retry),
            SupervisorAction::Connect,
        ),
        _ => (m, SupervisorAction::Ignore),
    }
}

/// The model reached, and the actions taken, on `events` in order.
pub open spec fn supervise_run(m: SupervisorModel, events: Seq<SupervisorEvent>) -> (
    SupervisorModel,
    Seq<SupervisorAction>,
)
    decreases events.len(),
{
    if events.len() == 0 {
        (m, Seq::empty())
    } else {
        let (m1, a) = supervise_step(m, events[0]);
        let (m2, rest) = supervise_run(m1, events.drop_first());
        (m2, seq![a] + rest)
    }
}

/// `n` failed handshakes, each followed by the end of the wait.
pub open spec fn failing_rounds(n: nat) -> Seq<SupervisorEvent>
    decreases n,
{
    if n == 0 {
        Seq::empty()
    } else {
        seq![SupervisorEvent::HandshakeFailed, SupervisorEvent::Begin] + failing_rounds(
            (n - 1) as nat,
        )
    }
}

/// `n` waits of `delay` milliseconds, each followed by a new attempt.
pub open spec fn retry_rounds(n: nat, delay: u64) -> Seq<SupervisorAction>
    decreases n,
{
    if n == 0 {
        Seq::empty()
    } else {
        seq![SupervisorAction::Wait(delay), SupervisorAction::Connect] + retry_rounds(
            (n - 1) as nat,
            delay,
        )
    }
}

/// A supervisor that has made no attempt yet.
pub open spec fn fresh(max_attempts: u64, delay_ms: u64) -> SupervisorModel {
    (SupervisorPhase::Disconnected, RetryState { attempts: 0, max_attempts, delay_ms })
}

/// Drives the connection of one client.
pub struct ConnectionSupervisor {
    phase: SupervisorPhase,
    retry: RetryState,
}

impl View for ConnectionSupervisor {
    type V = SupervisorModel;

    closed spec fn view(&self) -> SupervisorModel {
        (self.phase, self.retry)
    }
}

impl ConnectionSupervisor {
    /// A supervisor that gives up after `max_attempts` failed handshakes in a
    /// row and waits `delay_ms` between attempts.
    pub fn new(max_attempts: u64, delay_ms: u64) -> (r: ConnectionSupervisor)
        ensures
            r@ == fresh(max_attempts, delay_ms),
    {
        ConnectionSupervisor {
            phase: SupervisorPhase::Disconnected,
            retry: RetryState { attempts: 0, max_attempts, delay_ms },
        }
    }

    /// The current phase.
    pub fn phase(&self) -> (r: SupervisorPhase)
        ensures
            r == self@.0,
    {
        self.phase
    }

    /// The current retry state.
    pub fn retry(&self) -> (r: RetryState)
        ensures
            r == self@.1,
    {
        self.retry
    }

    /// Takes one event and says what to do.
    pub fn handle(&mut self, e: SupervisorEvent) -> (r: SupervisorAction)
        requires
            model_wf(old(self)@),
        ensures
            (final(self)@, r) == supervise_step(old(self)@, e),
            model_wf(final(self)@),
    {
        match (self.phase, e) {
            (SupervisorPhase::GivenUp, _) => SupervisorAction::Stop,
            (SupervisorPhase::Disconnected, SupervisorEvent::Begin) => {
                if self.retry.attempts < self.retry.max_attempts {
                    self.phase = SupervisorPhase::Connecting;
                    SupervisorAction::Connect
                } else {
                    self.phase = SupervisorPhase::GivenUp;
                    SupervisorAction::Stop
                }
            },
            (SupervisorPhase::Connecting, SupervisorEvent::HandshakeSucceeded) => {
                self.phase = SupervisorPhase::Connected;
                self.retry.attempts = 0;
                SupervisorAction::Dispatch
            },
            (SupervisorPhase::Connecting, SupervisorEvent::HandshakeFailed) => {
                self.retry.attempts = self.retry.attempts + 1;
                if self.retry.attempts < self.retry.max_attempts {
                    self.phase = SupervisorPhase::Disconnected;
                    SupervisorAction::Wait(self.retry.delay_ms)
                } else {
                    self.phase = SupervisorPhase::GivenUp;
                    SupervisorAction::Stop
                }
            },
            (SupervisorPhase::Connected, SupervisorEvent::SessionEnded) => {
                self.phase = SupervisorPhase::Connecting;
                SupervisorAction::Connect
            },
            _ => SupervisorAction::Ignore,
        }
    }
}

/// `k` stop actions.
pub open spec fn stops(k: nat) -> Seq<SupervisorAction> {
    Seq::new(k, |i: int| SupervisorAction::Stop)
}

proof fn lemma_run_concat(m: SupervisorModel, e1: Seq<SupervisorEvent>, e2: Seq<SupervisorEvent>)
    ensures
        supervise_run(m, e1 + e2) == (
            supervise_run(supervise_run(m, e1).0, e2).0,
            supervise_run(m, e1).1 + supervise_run(supervise_run(m, e1).0, e2).1,
        ),
    decreases e1.len(),
{
    if e1.len() == 0 {
        assert(e1 + e2 =~= e2);
        assert(supervise_run(m, e1).1 + supervise_run(m, e2).1 =~= supervise_run(m, e2).1);
    } else {
        let m1 = supervise_step(m, e1[0]).0;
        assert((e1 + e2)[0] == e1[0]);
        assert((e1 + e2).drop_first() =~= e1.drop_first() + e2);
        lemma_run_concat(m1, e1.drop_first(), e2);
        let a = supervise_step(m, e1[0]).1;
        let r1 = supervise_run(m1, e1.drop_first()).1;
        let r2 = supervise_run(supervise_run(m1, e1.drop_first()).0, e2).1;
        assert(seq![a] + (r1 + r2) =~= (seq![a] + r1) + r2);
    }
}

proof fn lemma_run_single(m: SupervisorModel, e: SupervisorEvent)
    ensures
        supervise_run(m, seq![e]) == (supervise_step(m, e).0, seq![supervise_step(m, e).1]),
{
    reveal_with_fuel(supervise_run, 2);
    assert(seq![e].drop_first() =~= Seq::<SupervisorEvent>::empty());
    assert(seq![supervise_step(m, e).1] + Seq::<SupervisorAction>::empty() =~= seq![
        supervise_step(m, e).1,
    ]);
}

proof fn lemma_failing_rounds_split(a: nat, b: nat)
    ensures
        failing_rounds(a + b) == failing_rounds(a) + failing_rounds(b),
    decreases a,
{
    if a == 0 {
        assert(failing_rounds(b) =~= failing_rounds(0) + failing_rounds(b));
    } else {
        lemma_failing_rounds_split((a - 1) as nat, b);
        assert(((a + b) - 1) as nat == ((a - 1) as nat) + b);
        let r: Seq<SupervisorEvent> = seq![
            SupervisorEvent::HandshakeFailed,
            SupervisorEvent::Begin,
        ];
        assert(r + (failing_rounds((a - 1) as nat) + failing_rounds(b)) =~= (r + failing_rounds(
            (a - 1) as nat,
        )) + failing_rounds(b));
    }
}

/// One failed round from `Connecting`: the failure, then the end of the wait.
proof fn lemma_one_round(m: SupervisorModel, rest: Seq<SupervisorEvent>)
    requires
        m.0 == SupervisorPhase::Connecting,
    ensures
        ({
            let events = seq![SupervisorEvent::HandshakeFailed, SupervisorEvent::Begin] + rest;
            let next = RetryState { attempts: (m.1.attempts + 1) as u64, ..m.1 };
            &&& m.1.attempts + 1 < m.1.max_attempts ==> supervise_run(m, events) == (
                supervise_run((SupervisorPhase::Connecting, next), rest).0,
                seq![SupervisorAction::Wait(m.1.delay_ms), SupervisorAction::Connect]
                    + supervise_run((SupervisorPhase::Connecting, next), rest).1,
            )
            &&& m.1.attempts + 1 >= m.1.max_attempts ==> supervise_run(m, events) == (
                supervise_run((SupervisorPhase::GivenUp, next), rest).0,
                seq![SupervisorAction::Stop, SupervisorAction::Stop] + supervise_run(
                    (SupervisorPhase::GivenUp, next),
                    rest,
                ).1,
            )
        }),
{
    reveal_with_fuel(supervise_run, 3);
    let events = seq![SupervisorEvent::HandshakeFailed, SupervisorEvent::Begin] + rest;
    let next = RetryState { attempts: (m.1.attempts + 1) as u64, ..m.1 };
    assert(events[0] == SupervisorEvent::HandshakeFailed);
    let tail = events.drop_first();
    assert(tail[0] == SupervisorEvent::Begin);
    assert(tail.drop_first() =~= rest);
    if m.1.attempts + 1 < m.1.max_attempts {
        let r = supervise_run((SupervisorPhase::Connecting, next), rest).1;
        assert(seq![SupervisorAction::Wait(m.1.delay_ms)] + (seq![SupervisorAction::Connect] + r)
            =~= seq![SupervisorAction::Wait(m.1.delay_ms), SupervisorAction::Connect] + r);
    } else {
        let r = supervise_run((SupervisorPhase::GivenUp, next), rest).1;
        assert(seq![SupervisorAction::Stop] + (seq![SupervisorAction::Stop] + r) =~= seq![
            SupervisorAction::Stop,
            SupervisorAction::Stop,
        ] + r);
    }
}

proof fn lemma_rounds_below_bound(m: SupervisorModel, n: nat)
    requires
        m.0 == SupervisorPhase::Connecting,
        m.1.attempts + n < m.1.max_attempts,
    ensures
        supervise_run(m, failing_rounds(n)) == (
            (SupervisorPhase::Connecting, RetryState { attempts: (m.1.attempts + n) as u64, ..m.1 }),
            retry_rounds(n, m.1.delay_ms),
        ),
    decreases n,
{
    if n == 0 {
        assert(retry_rounds(0, m.1.delay_ms) =~= Seq::<SupervisorAction>::empty());
    } else {
        let rest = failing_rounds((n - 1) as nat);
        lemma_one_round(m, rest);
        let next = RetryState { attempts: (m.1.attempts + 1) as u64, ..m.1 };
        lemma_rounds_below_bound((SupervisorPhase::Connecting, next), (n - 1) as nat);
    }
}

proof fn lemma_rounds_to_bound(m: SupervisorModel, n: nat)
    requires
        m.0 == SupervisorPhase::Connecting,
        n >= 1,
        m.1.attempts + n == m.1.max_attempts,
    ensures
        supervise_run(m, failing_rounds(n)) == (
            (SupervisorPhase::GivenUp, RetryState { attempts: m.1.max_attempts, ..m.1 }),
            retry_rounds((n - 1) as nat, m.1.delay_ms) + stops(2),
        ),
    decreases n,
{
    let rest = failing_rounds((n - 1) as nat);
    lemma_one_round(m, rest);
    let next = RetryState { attempts: (m.1.attempts + 1) as u64, ..m.1 };
    if n == 1 {
        assert(rest =~= Seq::<SupervisorEvent>::empty());
        assert(retry_rounds(0, m.1.delay_ms) + stops(2) =~= seq![
            SupervisorAction::Stop,
            SupervisorAction::Stop,
        ] + Seq::<SupervisorAction>::empty());
    } else {
        lemma_rounds_to_bound((SupervisorPhase::Connecting, next), (n - 1) as nat);
        let r = retry_rounds((n - 2) as nat, m.1.delay_ms);
        assert(seq![SupervisorAction::Wait(m.1.delay_ms), SupervisorAction::Connect] + (r + stops(
            2,
        )) =~= (seq![SupervisorAction::Wait(m.1.delay_ms), SupervisorAction::Connect] + r) + stops(
            2,
        ));
    }
}

/// Once given up, the supervisor stays given up and answers every event with
/// `Stop`: it makes no further attempt.
pub proof fn lemma_given_up_is_final(m: SupervisorModel, events: Seq<SupervisorEvent>)
    requires
        m.0 == SupervisorPhase::GivenUp,
    ensures
        supervise_run(m, events) == (m, stops(events.len())),
    decreases events.len(),
{
    if events.len() > 0 {
        lemma_given_up_is_final(m, events.drop_first());
        assert(seq![SupervisorAction::Stop] + stops((events.len() - 1) as nat) =~= stops(
            events.len(),
        ));
    } else {
        assert(stops(0) =~= Seq::<SupervisorAction>::empty());
    }
}

/// With `n` handshake failures in a row, fewer than the bound, a fresh
/// supervisor makes exactly `n + 1` attempts, waits the fixed delay after each
/// failure, succeeds on the last, and then holds a counter of zero.
pub proof fn lemma_retries_until_success(max_attempts: u64, delay_ms: u64, n: nat)
    requires
        n < max_attempts,
    ensures
        supervise_run(
            fresh(max_attempts, delay_ms),
            seq![SupervisorEvent::Begin] + failing_rounds(n) + seq![
                SupervisorEvent::HandshakeSucceeded,
            ],
        ) == (
            (SupervisorPhase::Connected, RetryState { attempts: 0, max_attempts, delay_ms }),
            seq![SupervisorAction::Connect] + retry_rounds(n, delay_ms) + seq![
                SupervisorAction::Dispatch,
            ],
        ),
{
    let m0 = fresh(max_attempts, delay_ms);
    let b = seq![SupervisorEvent::Begin];
    let s = seq![SupervisorEvent::HandshakeSucceeded];
    let fr = failing_rounds(n);
    assert(b + fr + s =~= b + (fr + s));
    lemma_run_concat(m0, b, fr + s);
    let m1 = supervise_run(m0, b).0;
    lemma_run_single(m0, SupervisorEvent::Begin);
    lemma_run_concat(m1, fr, s);
    lemma_rounds_below_bound(m1, n);
    let m2 = supervise_run(m1, fr).0;
    lemma_run_single(m2, SupervisorEvent::HandshakeSucceeded);
    assert(supervise_run(m2, s).0 == (
        SupervisorPhase::Connected,
        RetryState { attempts: 0, max_attempts, delay_ms },
    ));
    assert(supervise_run(m0, b + fr + s).1 =~= seq![SupervisorAction::Connect] + retry_rounds(
        n,
        delay_ms,
    ) + seq![SupervisorAction::Dispatch]);
}

/// With `n` handshake failures in a row and `n` at least the bound, a fresh
/// supervisor makes exactly `max_attempts` attempts, waits the fixed delay
/// between them, gives up at the last failure, and attempts nothing after.
pub proof fn lemma_gives_up_at_bound(max_attempts: u64, delay_ms: u64, n: nat)
    requires
        1 <= max_attempts <= n,
    ensures
        supervise_run(fresh(max_attempts, delay_ms), seq![SupervisorEvent::Begin] + failing_rounds(n))
            == (
            (
                SupervisorPhase::GivenUp,
                RetryState { attempts: max_attempts, max_attempts, delay_ms },
            ),
            seq![SupervisorAction::Connect] + retry_rounds((max_attempts - 1) as nat, delay_ms)
                + stops((2 * (n - max_attempts) + 2) as nat),
        ),
{
    let m0 = fresh(max_attempts, delay_ms);
    let b = seq![SupervisorEvent::Begin];
    let k = (n - max_attempts) as nat;
    lemma_failing_rounds_split(max_attempts as nat, k);
    let f1 = failing_rounds(max_attempts as nat);
    let f2 = failing_rounds(k);
    assert(b + failing_rounds(n) =~= b + (f1 + f2));
    lemma_run_concat(m0, b, f1 + f2);
    let m1 = supervise_run(m0, b).0;
    lemma_run_single(m0, SupervisorEvent::Begin);
    lemma_run_concat(m1, f1, f2);
    lemma_rounds_to_bound(m1, max_attempts as nat);
    let m2 = supervise_run(m1, f1).0;
    lemma_given_up_is_final(m2, f2);
    lemma_failing_rounds_len(k);
    let r = retry_rounds((max_attempts - 1) as nat, delay_ms);
    assert(stops(2) + stops(f2.len()) =~= stops((2 * (n - max_attempts) + 2) as nat));
    assert(seq![SupervisorAction::Connect] + ((r + stops(2)) + stops(f2.len())) =~= seq![
        SupervisorAction::Connect,
    ] + r + stops((2 * (n - max_attempts) + 2) as nat));
}

proof fn lemma_failing_rounds_len(n: nat)
    ensures
        failing_rounds(n).len() == 2 * n,
    decreases n,
{
    if n > 0 {
        lemma_failing_rounds_len((n - 1) as nat);
    }
}

} // verus!
