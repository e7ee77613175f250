//! The client's event dispatcher: decodes inbound frames and starts playback,
//! one clip at a time.
use crate::protocol::{
    decode, decoding, encoding, lemma_decode_encode, Frame, FrameView, Notification,
    OPCODE_TRIGGERED,
};
use vstd::prelude::*;

verus! {

/// Where a session's dispatcher stands.
#[derive(Clone, Copy, Debug, PartialEq, Eq, Structural)]
pub enum DispatchPhase {
    /// Reading the next frame.
    Receiving,
    /// A clip is playing; no frame is taken until it finishes.
    Playing,
    /// The session is over.
    Ended,
}

/// What the dispatcher is told.
#[derive(Clone, Copy, Debug, PartialEq, Eq, Structural)]
pub enum DispatchInput {
    /// A frame arrived; `None` when it carries no defined notification.
    Message(Option<Notification>),
    /// The clip started last has finished playing.
    PlaybackFinished,
}

/// What the caller is to do next.
#[derive(Clone, Copy, Debug, PartialEq, Eq, Structural)]
pub enum DispatchAction {
    /// Play the clip, then report [`DispatchInput::PlaybackFinished`].
    Play,
    /// Read the next frame.
    Continue,
    /// A clip is playing: the frame was not taken, hand it in again after
    /// playback has finished.
    Hold,
    /// The peer closed the session cleanly.
    EndSession,
    /// The peer broke the protocol: drop the connection.
    Violation,
    /// The session is already over; nothing to do.
    Ignore,
}

/// One step of the dispatcher.
pub open spec fn dispatch_step(phase: DispatchPhase, input: DispatchInput) -> (DispatchPhase, DispatchAction) {
    match phase {
        DispatchPhase::Receiving => match input {
            DispatchInput::Message(Some(Notification::Triggered)) => (
                DispatchPhase::Playing,
                DispatchAction::Play,
            ),
            DispatchInput::Message(Some(Notification::Keepalive)) => (
                DispatchPhase::Receiving,
                DispatchAction::Continue,
            ),
            DispatchInput::Message(Some(Notification::Close)) => (
                DispatchPhase::Ended,
                DispatchAction::EndSession,
            ),
            DispatchInput::Message(_) => (DispatchPhase::Ended, DispatchAction::Violation),
            DispatchInput::PlaybackFinished => (DispatchPhase::Receiving, DispatchAction::Continue),
        },
        DispatchPhase::Playing => match input {
            DispatchInput::PlaybackFinished => (DispatchPhase::Receiving, DispatchAction::Continue),
            DispatchInput::Message(_) => (DispatchPhase::Playing, DispatchAction::Hold),
        },
        DispatchPhase::Ended => (DispatchPhase::Ended, DispatchAction::Ignore),
    }
}

/// The phase after the first `k` of `inputs`, starting from `start`.
pub open spec fn phase_after(start: DispatchPhase, inputs: Seq<DispatchInput>, k: nat) -> DispatchPhase
    decreases k,
{
    if k == 0 {
        start
    } else {
        dispatch_step(phase_after(start, inputs, (k - 1) as nat), inputs[k - 1]).0
    }
}

/// The action that answers each of `inputs`, starting from `start`.
pub open spec fn dispatch_actions(start: DispatchPhase, inputs: Seq<DispatchInput>) -> Seq<
    DispatchAction,
> {
    Seq::new(inputs.len(), |k: int| dispatch_step(phase_after(start, inputs, k as nat), inputs[k]).1)
}

/// The dispatcher of one connected session.
pub struct EventDispatcher {
    phase: DispatchPhase,
}

impl EventDispatcher {
    /// The current phase.
    pub closed spec fn spec_phase(&self) -> DispatchPhase {
        self.phase
    }

    /// A dispatcher for a fresh session, ready to receive.
    pub fn new() -> (r: EventDispatcher)
        ensures
            r.spec_phase() == DispatchPhase::Receiving,
    {
        EventDispatcher { phase: DispatchPhase::Receiving }
    }

    /// The current phase.
    pub fn phase(&self) -> (r: DispatchPhase)
        ensures
            r == self.spec_phase(),
    {
        self.phase
    }

    /// Takes one input and says what to do.
    pub fn handle(&mut self, input: DispatchInput) -> (r: DispatchAction)
        ensures
            (final(self).spec_phase(), r) == dispatch_step(old(self).spec_phase(), input),
    {
        let (phase, action) = match self.phase {
            DispatchPhase::Receiving => match input {
                DispatchInput::Message(Some(Notification::Triggered)) => (
                    DispatchPhase::Playing,
                    DispatchAction::Play,
                ),
                DispatchInput::Message(Some(Notification::Keepalive)) => (
                    DispatchPhase::Receiving,
                    DispatchAction::Continue,
                ),
                DispatchInput::Message(Some(Notification::Close)) => (
                    DispatchPhase::Ended,
                    DispatchAction::EndSession,
                ),
                DispatchInput::Message(_) => (DispatchPhase::Ended, DispatchAction::Violation),
                DispatchInput::PlaybackFinished => (
                    DispatchPhase::Receiving,
                    DispatchAction::Continue,
                ),
            },
            DispatchPhase::Playing => match input {
                DispatchInput::PlaybackFinished => (
                    DispatchPhase::Receiving,
                    DispatchAction::Continue,
                ),
                DispatchInput::Message(_) => (DispatchPhase::Playing, DispatchAction::Hold),
            },
            DispatchPhase::Ended => (DispatchPhase::Ended, DispatchAction::Ignore),
        };
        self.phase = phase;
        action
    }

    /// Decodes an inbound frame and takes it as input.
    pub fn on_frame(&mut self, frame: &Frame) -> (r: DispatchAction)
        ensures
            (final(self).spec_phase(), r) == dispatch_step(
                old(self).spec_phase(),
                DispatchInput::Message(decoding(frame@)),
            ),
    {
        let n = decode(frame);
        self.handle(DispatchInput::Message(n))
    }

    /// Reports that the clip started last has finished.
    pub fn on_playback_finished(&mut self) -> (r: DispatchAction)
        ensures
            (final(self).spec_phase(), r) == dispatch_step(
                old(self).spec_phase(),
                DispatchInput::PlaybackFinished,
            ),
    {
        self.handle(DispatchInput::PlaybackFinished)
    }
}

/// A frame starts playback exactly when it decodes to `Triggered` while the
/// dispatcher is receiving; a frame with no defined notification never does.
pub proof fn lemma_play_only_on_triggered(phase: DispatchPhase, n: Option<Notification>)
    ensures
        dispatch_step(phase, DispatchInput::Message(n)).1 == DispatchAction::Play <==> (phase
            == DispatchPhase::Receiving && n == Some(Notification::Triggered)),
        n is None ==> dispatch_step(phase, DispatchInput::Message(n)).1 != DispatchAction::Play,
{
}

/// A `Triggered` notification, encoded for the wire and decoded by a
/// receiving dispatcher, starts playback; a binary frame that holds anything
/// but the `Triggered` opcode alone never starts playback, and breaks the
/// session of a receiving dispatcher.
pub proof fn lemma_triggered_round_trip(b: Seq<u8>, phase: DispatchPhase)
    ensures
        dispatch_step(
            DispatchPhase::Receiving,
            DispatchInput::Message(decoding(encoding(Notification::Triggered))),
        ) == (DispatchPhase::Playing, DispatchAction::Play),
        b != seq![OPCODE_TRIGGERED] ==> dispatch_step(
            phase,
            DispatchInput::Message(decoding(FrameView::Binary(b))),
        ).1 != DispatchAction::Play,
        b != seq![OPCODE_TRIGGERED] ==> dispatch_step(
            DispatchPhase::Receiving,
            DispatchInput::Message(decoding(FrameView::Binary(b))),
        ).1 == DispatchAction::Violation,
{
    lemma_decode_encode(Notification::Triggered);
}

proof fn lemma_stays_playing(start: DispatchPhase, inputs: Seq<DispatchInput>, i: nat, m: nat)
    requires
        i < m <= inputs.len(),
        phase_after(start, inputs, i + 1) == DispatchPhase::Playing,
        forall|k: int| i < k < m ==> inputs[k] != DispatchInput::PlaybackFinished,
    ensures
        phase_after(start, inputs, m) == DispatchPhase::Playing,
    decreases m - i,
{
    if m > i + 1 {
        lemma_stays_playing(start, inputs, i, (m - 1) as nat);
    }
}

/// However inbound frames interleave, no playback starts before the one
/// started earlier has been reported finished: between any two `Play`
/// actions stands a `PlaybackFinished` input.
pub proof fn lemma_playback_never_overlaps(
    start: DispatchPhase,
    inputs: Seq<DispatchInput>,
    i: int,
    j: int,
)
    requires
        0 <= i < j < inputs.len(),
        dispatch_actions(start, inputs)[i] == DispatchAction::Play,
        dispatch_actions(start, inputs)[j] == DispatchAction::Play,
    ensures
        exists|k: int| i < k < j && inputs[k] == DispatchInput::PlaybackFinished,
{
    if forall|k: int| i < k < j ==> inputs[k] != DispatchInput::PlaybackFinished {
        assert(phase_after(start, inputs, (i + 1) as nat) == DispatchPhase::Playing);
        lemma_stays_playing(start, inputs, i as nat, j as nat);
        assert(false);
    }
}

} // verus!
