//! The wire protocol: notifications and the frames that carry them.
use vstd::prelude::*;

verus! {

/// The opcode of a `Triggered` notification, alone in a binary frame.
pub const OPCODE_TRIGGERED: u8 = 0;

/// The opcode of an `Error` notification, alone in a binary frame.
pub const OPCODE_ERROR: u8 = 1;

/// One protocol message.
#[derive(Clone, Copy, Debug, PartialEq, Eq, Structural)]
pub enum Notification {
    /// The sensor fired.
    Triggered,
    /// A protocol-level failure signal.
    Error,
    /// A liveness probe.
    Keepalive,
    /// A graceful shutdown of the connection.
    Close,
}

/// One frame of a duplex message connection.
#[derive(Debug)]
pub enum Frame {
    Binary(Vec<u8>),
    Text(String),
    Ping(Vec<u8>),
    Pong(Vec<u8>),
    Close,
}

/// What a frame holds, as values.
pub enum FrameView {
    Binary(Seq<u8>),
    Text(Seq<char>),
    Ping(Seq<u8>),
    Pong(Seq<u8>),
    Close,
}

impl View for Frame {
    type V = FrameView;

    open spec fn view(&self) -> FrameView {
        match self {
            Frame::Binary(b) => FrameView::Binary(b@),
            Frame::Text(s) => FrameView::Text(s@),
            Frame::Ping(b) => FrameView::Ping(b@),
            Frame::Pong(b) => FrameView::Pong(b@),
            Frame::Close => FrameView::Close,
        }
    }
}

/// The frame that carries `n`.
pub open spec fn encoding(n: Notification) -> FrameView {
    match n {
        Notification::Triggered => FrameView::Binary(seq![OPCODE_TRIGGERED]),
        Notification::Error => FrameView::Binary(seq![OPCODE_ERROR]),
        Notification::Keepalive => FrameView::Ping(Seq::empty()),
        Notification::Close => FrameView::Close,
    }
}

/// The notification a frame carries, or `None` for a frame that the protocol
/// does not define.
pub open spec fn decoding(f: FrameView) -> Option<Notification> {
    match f {
        FrameView::Binary(b) => if b == seq![OPCODE_TRIGGERED] {
            Some(Notification::Triggered)
        } else if b == seq![OPCODE_ERROR] {
            Some(Notification::Error)
        } else {
            None
        },
        FrameView::Ping(_) => Some(Notification::Keepalive),
        FrameView::Close => Some(Notification::Close),
        _ => None,
    }
}

/// The frame that carries `n`.
pub fn encode(n: Notification) -> (r: Frame)
    ensures
        r@ == encoding(n),
{
    match n {
        Notification::Triggered => {
            let v = vec![OPCODE_TRIGGERED];
            proof {
                assert(v@ =~= seq![OPCODE_TRIGGERED]);
            }
            Frame::Binary(v)
        },
        Notification::Error => {
            let v = vec![OPCODE_ERROR];
            proof {
                assert(v@ =~= seq![OPCODE_ERROR]);
            }
            Frame::Binary(v)
        },
        Notification::Keepalive => {
            let v: Vec<u8> = Vec::new();
            proof {
                assert(v@ =~= Seq::<u8>::empty());
            }
            Frame::Ping(v)
        },
        Notification::Close => Frame::Close,
    }
}

/// The notification `f` carries, or `None` for a protocol violation.
pub fn decode(f: &Frame) -> (r: Option<Notification>)
    ensures
        r == decoding(f@),
{
    match f {
        Frame::Binary(b) => {
            if b.len() == 1 && b[0] == OPCODE_TRIGGERED {
                proof {
                    assert(b@ =~= seq![OPCODE_TRIGGERED]);
                }
                Some(Notification::Triggered)
            } else if b.len() == 1 && b[0] == OPCODE_ERROR {
                proof {
                    assert(b@ =~= seq![OPCODE_ERROR]);
                }
                Some(Notification::Error)
            } else {
                proof {
                    if b@ == seq![OPCODE_TRIGGERED] || b@ == seq![OPCODE_ERROR] {
                        assert(b@.len() == 1);
                        assert(b@[0] == OPCODE_TRIGGERED || b@[0] == OPCODE_ERROR);
                    }
                }
                None
            }
        },
        Frame::Ping(_) => Some(Notification::Keepalive),
        Frame::Close => Some(Notification::Close),
        Frame::Text(_) => None,
        Frame::Pong(_) => None,
    }
}

/// Decoding the frame of a notification gives that notification back.
pub proof fn lemma_decode_encode(n: Notification)
    ensures
        decoding(encoding(n)) == Some(n),
{
    let one: Seq<u8> = seq![OPCODE_ERROR];
    assert(one[0] != seq![OPCODE_TRIGGERED][0]);
}

/// A binary frame decodes to a notification only if it holds exactly one
/// defined opcode.
pub proof fn lemma_unknown_opcode_rejected(b: Seq<u8>)
    requires
        b != seq![OPCODE_TRIGGERED],
        b != seq![OPCODE_ERROR],
    ensures
        decoding(FrameView::Binary(b)) is None,
{
}

} // verus!
