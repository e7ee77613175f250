//! The sensor side: turning raw level samples into a debounced shared state.
use std::sync::atomic::{AtomicBool, Ordering};
use std::sync::Arc;
use vstd::prelude::*;

verus! {

/// The period at which the sensor pin is sampled, in milliseconds.
pub const POLL_INTERVAL_MS: u64 = 500;

/// A digital input level as read from the sensor pin.
#[derive(Clone, Copy, Debug, PartialEq, Eq, Structural)]
pub enum Level {
    High,
    Low,
}

/// Which pin level means that the sensor is active.
#[derive(Clone, Copy, Debug, PartialEq, Eq, Structural)]
pub enum Polarity {
    ActiveLow,
    ActiveHigh,
}

/// A change of the stored sensor state, `true` meaning triggered.
#[derive(Clone, Copy, Debug, PartialEq, Eq, Structural)]
pub struct Transition {
    pub from: bool,
    pub to: bool,
}

/// Whether `level` reads as "triggered" under `polarity`.
pub open spec fn is_active(level: Level, polarity: Polarity) -> bool {
    match polarity {
        Polarity::ActiveLow => level == Level::Low,
        Polarity::ActiveHigh => level == Level::High,
    }
}

/// The transition, if any, caused by sampling `level` while `stored` is held.
pub open spec fn transition_for(stored: bool, level: Level, polarity: Polarity) -> Option<
    Transition,
> {
    if is_active(level, polarity) != stored {
        Some(Transition { from: stored, to: is_active(level, polarity) })
    } else {
        None
    }
}

/// The stored state after sampling `samples` in order, starting from `initial`.
pub open spec fn state_after(initial: bool, samples: Seq<Level>, polarity: Polarity) -> bool {
    if samples.len() == 0 {
        initial
    } else {
        is_active(samples.last(), polarity)
    }
}

/// For each sample, the transition it causes.
pub open spec fn transitions(initial: bool, samples: Seq<Level>, polarity: Polarity) -> Seq<
    Option<Transition>,
> {
    Seq::new(
        samples.len(),
        |i: int| transition_for(state_after(initial, samples.take(i), polarity), samples[i], polarity),
    )
}

/// Whether `level` reads as "triggered" under `polarity`.
pub fn level_is_active(level: Level, polarity: Polarity) -> (r: bool)
    ensures
        r == is_active(level, polarity),
{
    match polarity {
        Polarity::ActiveLow => level == Level::Low,
        Polarity::ActiveHigh => level == Level::High,
    }
}

/// The transition caused by sampling `level` while `stored` is held.
pub fn transition_of(stored: bool, level: Level, polarity: Polarity) -> (r: Option<Transition>)
    ensures
        r == transition_for(stored, level, polarity),
{
    let active = level_is_active(level, polarity);
    if active != stored {
        Some(Transition { from: stored, to: active })
    } else {
        None
    }
}

/// The transitions that a monitor starting at `initial` goes through on `samples`.
pub fn replay(initial: bool, samples: &Vec<Level>, polarity: Polarity) -> (r: Vec<Option<Transition>>)
    ensures
        r@ == transitions(initial, samples@, polarity),
{
    let mut out: Vec<Option<Transition>> = Vec::new();
    let mut stored = initial;
    let mut i: usize = 0;
    while i < samples.len()
        invariant
            i <= samples@.len(),
            stored == state_after(initial, samples@.take(i as int), polarity),
            out@ == transitions(initial, samples@, polarity).take(i as int),
        decreases samples@.len() - i,
    {
        let t = transition_of(stored, samples[i], polarity);
        out.push(t);
        stored = level_is_active(samples[i], polarity);
        proof {
            assert(samples@.take(i + 1).last() == samples@[i as int]);
            assert(out@ =~= transitions(initial, samples@, polarity).take(i + 1));
        }
        i = i + 1;
    }
    proof {
        assert(out@ =~= transitions(initial, samples@, polarity));
    }
    out
}

/// The shared "sensor is triggered" flag: one writer, any number of readers.
///
/// Reads use acquire and writes release ordering, so that a reader never
/// sees a value older than the write it synchronises with.
pub struct SensorState {
    flag: Arc<AtomicBool>,
}

impl SensorState {
    /// A fresh flag, idle.
    pub fn new() -> (r: SensorState) {
        SensorState { flag: Arc::new(AtomicBool::new(false)) }
    }

    /// Another handle on the same flag.
    pub fn share(&self) -> (r: SensorState) {
        SensorState { flag: self.flag.clone() }
    }

    /// The current value. Another activity may change it at any time, so
    /// nothing is promised of the result.
    pub fn is_triggered(&self) -> (r: bool) {
        self.flag.load(Ordering::Acquire)
    }

    /// Publishes `triggered` to every reader.
    pub fn set(&self, triggered: bool) {
        self.flag.store(triggered, Ordering::Release)
    }
}

/// The single writer of a [`SensorState`]: stores a sampled level only when it
/// differs from the state it last stored.
pub struct SensorMonitor {
    stored: bool,
    polarity: Polarity,
    shared: SensorState,
}

impl SensorMonitor {
    /// The state this monitor last stored.
    pub closed spec fn spec_state(&self) -> bool {
        self.stored
    }

    /// The polarity this monitor reads levels with.
    pub closed spec fn spec_polarity(&self) -> Polarity {
        self.polarity
    }

    /// A monitor that starts idle and writes to `shared`.
    pub fn new(polarity: Polarity, shared: SensorState) -> (r: SensorMonitor)
        ensures
            r.spec_state() == false,
            r.spec_polarity() == polarity,
    {
        shared.set(false);
        SensorMonitor { stored: false, polarity, shared }
    }

    /// The state this monitor last stored.
    pub fn state(&self) -> (r: bool)
        ensures
            r == self.spec_state(),
    {
        self.stored
    }

    /// Takes one sample: stores and publishes it if, and only if, it differs
    /// from the stored state, and returns the transition made.
    pub fn sample(&mut self, level: Level) -> (r: Option<Transition>)
        ensures
            r == transition_for(old(self).spec_state(), level, old(self).spec_polarity()),
            final(self).spec_state() == is_active(level, old(self).spec_polarity()),
            final(self).spec_polarity() == old(self).spec_polarity(),
    {
        let t = transition_of(self.stored, level, self.polarity);
        if let Some(tr) = t {
            self.stored = tr.to;
            self.shared.set(tr.to);
        }
        t
    }
}

/// The stored state changes at a sample exactly when the sampled level differs
/// from the stored one, and a sample equal to the one before it never makes a
/// transition.
pub proof fn lemma_change_iff_level_differs(
    initial: bool,
    samples: Seq<Level>,
    polarity: Polarity,
    i: int,
)
    requires
        0 <= i < samples.len(),
    ensures
        transitions(initial, samples, polarity)[i] is Some <==> is_active(samples[i], polarity)
            != state_after(initial, samples.take(i), polarity),
        transitions(initial, samples, polarity)[i] is Some <==> state_after(
            initial,
            samples.take(i + 1),
            polarity,
        ) != state_after(initial, samples.take(i), polarity),
        i > 0 && samples[i] == samples[i - 1] ==> transitions(initial, samples, polarity)[i]
            is None,
{
    assert(samples.take(i + 1).last() == samples[i]);
    if i > 0 {
        assert(samples.take(i).last() == samples[i - 1]);
    }
}

} // verus!
