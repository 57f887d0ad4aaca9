//! Framing: cutting the bytes of a connection into messages.
//!
//! A connection begins in the startup phase, in which a packet is a
//! four-byte length, which counts itself, and what the length announces.
//! After the first packet that is not a request for SSL it is in the
//! message phase, in which a message is a tag byte, such a length, and a
//! body.

use crate::frontend::{
    decode_message, decode_startup, decoded, message_spec, startup_spec, ClientMessage,
    ClientMessageView,
};
use crate::protocol::ProtocolError;
use crate::wire::{i32_at, read_i32};
use vstd::prelude::*;
use vstd::slice::slice_subrange;

verus! {

/// What the front of a buffer holds.
#[derive(Debug, PartialEq, Eq)]
pub enum Frame {
    /// Not yet a whole message: more bytes are needed.
    Incomplete,
    /// A message, and the number of bytes it took.
    Complete(ClientMessage, usize),
}

/// The mathematical content of a [`Frame`].
pub ghost enum FrameView {
    Incomplete,
    Complete(ClientMessageView, int),
}

impl View for Frame {
    type V = FrameView;

    open spec fn view(&self) -> FrameView {
        match self {
            Frame::Incomplete => FrameView::Incomplete,
            Frame::Complete(m, n) => FrameView::Complete(m@, *n as int),
        }
    }
}

/// A message as a frame of `taken` bytes, or its error.
pub open spec fn framed(
    m: Result<ClientMessageView, ProtocolError>,
    taken: int,
) -> Result<FrameView, ProtocolError> {
    match m {
        Ok(v) => Ok(FrameView::Complete(v, taken)),
        Err(e) => Err(e),
    }
}

/// What the front of `buf` holds in the startup phase. A length below 8
/// leaves no room for the number that every packet begins with.
pub open spec fn startup_frame(buf: Seq<u8>) -> Result<FrameView, ProtocolError> {
    if buf.len() < 4 {
        Ok(FrameView::Incomplete)
    } else {
        let len = i32_at(buf, 0) as int;
        if len < 8 {
            Err(ProtocolError::LengthMismatch)
        } else if buf.len() < len {
            Ok(FrameView::Incomplete)
        } else {
            framed(startup_spec(buf.subrange(4, len)), len)
        }
    }
}

/// What the front of `buf` holds in the message phase. A length below 4
/// does not even count itself.
pub open spec fn message_frame(buf: Seq<u8>) -> Result<FrameView, ProtocolError> {
    if buf.len() < 5 {
        Ok(FrameView::Incomplete)
    } else {
        let len = i32_at(buf, 1) as int;
        if len < 4 {
            Err(ProtocolError::LengthMismatch)
        } else if buf.len() < 1 + len {
            Ok(FrameView::Incomplete)
        } else {
            framed(message_spec(buf[0], buf.subrange(5, 1 + len)), 1 + len)
        }
    }
}

/// What the front of `buf` holds.
pub open spec fn frame_spec(startup: bool, buf: Seq<u8>) -> Result<FrameView, ProtocolError> {
    if startup {
        startup_frame(buf)
    } else {
        message_frame(buf)
    }
}

/// The phase after a reading: the startup phase ends with the first packet
/// read in it that is not a request for SSL.
pub open spec fn phase_after(startup: bool, read: Result<FrameView, ProtocolError>) -> bool {
    startup && !(read matches Ok(FrameView::Complete(m, _)) && m != ClientMessageView::SSLRequest)
}

/// What is left in `buf` when the client has closed the connection:
/// nothing, and the session ends in peace; a whole message; or a part of
/// one, which is a `ShortRead`.
pub open spec fn last_frame(startup: bool, buf: Seq<u8>) -> Result<FrameView, ProtocolError> {
    if buf.len() == 0 {
        Ok(FrameView::Incomplete)
    } else {
        match frame_spec(startup, buf) {
            Ok(FrameView::Incomplete) => Err(ProtocolError::ShortRead),
            other => other,
        }
    }
}

/// Whether `r` is the frame, or the error, that `expected` names.
pub open spec fn framed_as(
    r: Result<Frame, ProtocolError>,
    expected: Result<FrameView, ProtocolError>,
) -> bool {
    match expected {
        Ok(v) => r matches Ok(f) && f@ == v,
        Err(e) => r matches Err(got) && got == e,
    }
}

/// The reader of a connection's bytes.
#[derive(Debug, PartialEq, Eq)]
pub struct ConnectionCodec {
    startup: bool,
}

impl ConnectionCodec {
    /// Whether the codec is in the startup phase.
    pub closed spec fn in_startup(&self) -> bool {
        self.startup
    }

    /// A codec in the startup phase.
    pub fn new() -> (c: Self)
        ensures
            c.in_startup(),
    {
        ConnectionCodec { startup: true }
    }

    /// Puts the codec in the startup phase or in the message phase.
    pub fn set_startup(&mut self, startup: bool)
        ensures
            final(self).in_startup() == startup,
    {
        self.startup = startup;
    }

    /// Whether the codec is in the startup phase.
    pub fn is_startup(&self) -> (b: bool)
        ensures
            b == self.in_startup(),
    {
        self.startup
    }

    fn frame(m: Result<ClientMessage, ProtocolError>, taken: usize) -> (r: Result<
        Frame,
        ProtocolError,
    >)
        ensures
            forall|expected: Result<ClientMessageView, ProtocolError>|
                decoded(m, expected) ==> framed_as(r, #[trigger] framed(expected, taken as int)),
    {
        match m {
            Ok(msg) => Ok(Frame::Complete(msg, taken)),
            Err(e) => Err(e),
        }
    }

    /// Reads the message at the front of `buf`, if a whole one is there.
    pub fn decode(&mut self, buf: &[u8]) -> (r: Result<Frame, ProtocolError>)
        ensures
            framed_as(r, frame_spec(old(self).in_startup(), buf@)),
            final(self).in_startup() == phase_after(
                old(self).in_startup(),
                frame_spec(old(self).in_startup(), buf@),
            ),
    {
        if self.startup {
            if buf.len() < 4 {
                return Ok(Frame::Incomplete);
            }
            let len = read_i32(buf, 0);
            if len < 8 {
                return Err(ProtocolError::LengthMismatch);
            }
            let total = len as usize;
            if buf.len() < total {
                return Ok(Frame::Incomplete);
            }
            let packet = slice_subrange(buf, 4, total);
            let r = Self::frame(decode_startup(packet), total);
            match &r {
                Ok(Frame::Complete(ClientMessage::SSLRequest, _)) => {},
                Ok(Frame::Complete(_, _)) => {
                    self.startup = false;
                },
                _ => {},
            }
            r
        } else {
            if buf.len() < 5 {
                return Ok(Frame::Incomplete);
            }
            let tag = buf[0];
            let len = read_i32(buf, 1);
            if len < 4 {
                return Err(ProtocolError::LengthMismatch);
            }
            let total = (len as usize) + 1;
            if buf.len() < total {
                return Ok(Frame::Incomplete);
            }
            let body = slice_subrange(buf, 5, total);
            Self::frame(decode_message(tag, body), total)
        }
    }

    /// Reads the message at the front of what is left in `buf` when the
    /// client has closed the connection.
    pub fn decode_eof(&mut self, buf: &[u8]) -> (r: Result<Frame, ProtocolError>)
        ensures
            framed_as(r, last_frame(old(self).in_startup(), buf@)),
            final(self).in_startup() == phase_after(
                old(self).in_startup(),
                last_frame(old(self).in_startup(), buf@),
            ),
    {
        if buf.len() == 0 {
            return Ok(Frame::Incomplete);
        }
        match self.decode(buf) {
            Ok(Frame::Incomplete) => Err(ProtocolError::ShortRead),
            other => other,
        }
    }
}

/// The eight bytes of a request for SSL.
pub open spec fn ssl_request_packet() -> Seq<u8> {
    seq![0u8, 0u8, 0u8, 8u8, 0x04u8, 0xd2u8, 0x16u8, 0x2fu8]
}

/// Startup idempotence of the request for SSL: in the startup phase the
/// eight bytes of a request for SSL are read as that request, whatever
/// follows them, and the startup phase goes on.
pub proof fn lemma_ssl_request_packet(rest: Seq<u8>)
    ensures
        frame_spec(true, ssl_request_packet() + rest) == Ok::<FrameView, ProtocolError>(
            FrameView::Complete(ClientMessageView::SSLRequest, 8),
        ),
        phase_after(true, frame_spec(true, ssl_request_packet() + rest)),
{
    reveal(crate::wire::u32_at);
}

} // verus!
