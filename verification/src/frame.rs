//! Frames: a big-endian 32-bit length, then that many bytes of payload. A
//! payload holds at most 64 KiB.
use crate::msg::{
    encoded, parse_error_text, parsed, Message, MessageView, ParseError, ParseErrorView,
};
use crate::text::joined;
use vstd::prelude::*;

verus! {

/// The largest payload of a frame.
pub const MAX_FRAME: usize = 65536;

/// What can go wrong with a frame.
#[derive(Debug, Clone, PartialEq)]
pub enum FrameError {
    /// The payload is larger than [`MAX_FRAME`].
    Oversized,
    /// A frame on a control channel announces such a payload.
    TooBig,
    /// The stream ended inside a frame.
    Truncated,
    /// The payload is not a message.
    Parse(ParseError),
}

/// How an error is shown to the user.
pub open spec fn frame_error_text(e: FrameError) -> Seq<char> {
    match e {
        FrameError::Oversized => "io: frame exceeds 64 KiB"@,
        FrameError::TooBig => "io: frame size too big"@,
        FrameError::Truncated => "io: bytes remaining on stream"@,
        FrameError::Parse(error) => "parse: "@ + parse_error_text(error@),
    }
}

impl FrameError {
    /// How the error is shown to the user.
    pub fn text(&self) -> (text: String)
        ensures
            text@ == frame_error_text(*self),
    {
        match self {
            FrameError::Oversized => "io: frame exceeds 64 KiB".to_owned(),
            FrameError::TooBig => "io: frame size too big".to_owned(),
            FrameError::Truncated => "io: bytes remaining on stream".to_owned(),
            FrameError::Parse(error) => joined("parse: ", error.text().as_str()),
        }
    }
}

/// The number that four bytes denote, most significant first.
pub open spec fn be32_value(b: Seq<u8>) -> nat {
    (b[0] as nat) * 0x1000000 + (b[1] as nat) * 0x10000 + (b[2] as nat) * 0x100 + (b[3] as nat)
}

/// Four bytes that denote a number below 2^32, most significant first.
pub open spec fn be32(n: nat) -> Seq<u8> {
    seq![
        (n / 0x1000000 % 0x100) as u8,
        (n / 0x10000 % 0x100) as u8,
        (n / 0x100 % 0x100) as u8,
        (n % 0x100) as u8,
    ]
}

/// The frame that carries a payload.
pub open spec fn framed(payload: Seq<u8>) -> Seq<u8> {
    be32(payload.len()) + payload
}

/// What stands at the front of a stream.
pub enum Front {
    /// Not yet a whole frame.
    Incomplete,
    /// A frame that announces too large a payload.
    Oversized,
    /// A whole frame with this payload, and what follows it.
    Frame { payload: Seq<u8>, rest: Seq<u8> },
}

/// The front of a stream.
pub open spec fn front(stream: Seq<u8>) -> Front {
    if stream.len() < 4 {
        Front::Incomplete
    } else {
        let n = be32_value(stream);
        if n > MAX_FRAME {
            Front::Oversized
        } else if stream.len() < 4 + n {
            Front::Incomplete
        } else {
            Front::Frame { payload: stream.subrange(4, 4 + n as int), rest: stream.skip(4 + n as int) }
        }
    }
}

/// A length is denoted by the four bytes it is written as.
pub proof fn law_length_roundtrip(n: nat)
    requires
        n < 0x1_0000_0000,
    ensures
        be32_value(be32(n)) == n,
{
}

/// A frame in front of any bytes is read back as its payload and those bytes.
pub proof fn law_frame_roundtrip(payload: Seq<u8>, rest: Seq<u8>)
    requires
        payload.len() <= MAX_FRAME,
    ensures
        front(framed(payload) + rest) == (Front::Frame { payload, rest }),
{
    let n = payload.len();
    let stream = framed(payload) + rest;
    law_length_roundtrip(n);
    assert(be32_value(stream) == be32_value(be32(n)));
    assert(stream.subrange(4, 4 + n as int) =~= payload);
    assert(stream.skip(4 + n as int) =~= rest);
}

/// No proper prefix of a frame is taken for a frame or for an error.
pub proof fn law_frame_prefix_incomplete(payload: Seq<u8>, k: int)
    requires
        payload.len() <= MAX_FRAME,
        0 <= k < framed(payload).len(),
    ensures
        front(framed(payload).take(k)) is Incomplete,
{
    law_length_roundtrip(payload.len());
    if k >= 4 {
        assert(be32_value(framed(payload).take(k)) == be32_value(be32(payload.len())));
    }
}

/// What a stream shows at its front does not change when more bytes arrive,
/// except that an incomplete frame may become complete or oversized.
pub proof fn law_front_stable(stream: Seq<u8>, more: Seq<u8>)
    ensures
        front(stream) is Oversized ==> front(stream + more) is Oversized,
        front(stream) matches Front::Frame { payload, rest } ==> front(stream + more)
            == (Front::Frame { payload, rest: rest + more }),
{
    if stream.len() >= 4 {
        let n = be32_value(stream);
        assert(be32_value(stream + more) == n);
        if n <= MAX_FRAME && stream.len() >= 4 + n {
            assert((stream + more).subrange(4, 4 + n as int) =~= stream.subrange(4, 4 + n as int));
            assert((stream + more).skip(4 + n as int) =~= stream.skip(4 + n as int) + more);
        }
    }
}

/// The payloads of the frames at the front of a stream.
pub open spec fn payloads(stream: Seq<u8>) -> Seq<Seq<u8>>
    decreases stream.len(),
{
    match front(stream) {
        Front::Frame { payload, rest } => if rest.len() < stream.len() {
            seq![payload] + payloads(rest)
        } else {
            Seq::empty()
        },
        _ => Seq::empty(),
    }
}

/// The frames of several payloads, one after the other.
pub open spec fn all_framed(all: Seq<Seq<u8>>) -> Seq<u8>
    decreases all.len(),
{
    if all.len() == 0 {
        Seq::empty()
    } else {
        framed(all[0]) + all_framed(all.drop_first())
    }
}

/// Payloads written one after the other are read back, all of them and in order.
pub proof fn law_stream_roundtrip(all: Seq<Seq<u8>>)
    requires
        forall|i: int| 0 <= i < all.len() ==> (#[trigger] all[i]).len() <= MAX_FRAME,
    ensures
        payloads(all_framed(all)) == all,
    decreases all.len(),
{
    if all.len() > 0 {
        assert forall|i: int| 0 <= i < all.drop_first().len() implies (
        #[trigger] all.drop_first()[i]).len() <= MAX_FRAME by {
            assert(all.drop_first()[i] == all[i + 1]);
        }
        law_stream_roundtrip(all.drop_first());
        law_frame_roundtrip(all[0], all_framed(all.drop_first()));
        assert(seq![all[0]] + all.drop_first() =~= all);
    } else {
        assert(payloads(all_framed(all)) =~= all);
    }
}

/// The length that a frame header announces.
pub fn frame_length(header: &[u8]) -> (r: Result<usize, FrameError>)
    requires
        header@.len() == 4,
    ensures
        match r {
            Ok(n) => n == be32_value(header@) && n <= MAX_FRAME,
            Err(e) => e is Oversized && be32_value(header@) > MAX_FRAME,
        },
{
    let n: u64 = (header[0] as u64) * 0x1000000 + (header[1] as u64) * 0x10000 + (header[2] as u64)
        * 0x100 + (header[3] as u64);
    if n > MAX_FRAME as u64 {
        Err(FrameError::Oversized)
    } else {
        Ok(n as usize)
    }
}

/// Appends the frame of a payload to `out`. A payload that is too large is
/// refused and nothing is written.
pub fn write_frame(out: &mut Vec<u8>, payload: &[u8]) -> (r: Result<(), FrameError>)
    ensures
        match r {
            Ok(_) => payload@.len() <= MAX_FRAME && final(out)@ == old(out)@ + framed(payload@),
            Err(e) => e is Oversized && payload@.len() > MAX_FRAME && final(out)@ == old(out)@,
        },
{
    let n: usize = payload.len();
    if n > MAX_FRAME {
        return Err(FrameError::Oversized);
    }
    out.push((n / 0x1000000 % 0x100) as u8);
    out.push((n / 0x10000 % 0x100) as u8);
    out.push((n / 0x100 % 0x100) as u8);
    out.push((n % 0x100) as u8);
    out.extend_from_slice(payload);
    assert(out@ =~= old(out)@ + framed(payload@));
    Ok(())
}

/// Reads the frame at the front of a stream: its payload and the number of
/// bytes it takes, or `None` while it is incomplete.
pub fn read_frame(stream: &[u8]) -> (r: Result<Option<(Vec<u8>, usize)>, FrameError>)
    ensures
        match r {
            Ok(Some((payload, used))) => used <= stream@.len() && front(stream@) == (Front::Frame {
                payload: payload@,
                rest: stream@.skip(used as int),
            }) && used == 4 + payload@.len(),
            Ok(None) => front(stream@) is Incomplete,
            Err(e) => e is Oversized && front(stream@) is Oversized,
        },
{
    if stream.len() < 4 {
        return Ok(None);
    }
    let header = vstd::slice::slice_subrange(stream, 0, 4);
    let n: usize = match frame_length(header) {
        Ok(n) => n,
        Err(e) => return Err(e),
    };
    if stream.len() - 4 < n {
        return Ok(None);
    }
    let payload = vstd::slice::slice_to_vec(vstd::slice::slice_subrange(stream, 4, 4 + n));
    Ok(Some((payload, 4 + n)))
}

/// The received bytes of a stream that are not yet consumed.
pub struct FrameBuffer {
    data: Vec<u8>,
}

impl View for FrameBuffer {
    type V = Seq<u8>;

    closed spec fn view(&self) -> Seq<u8> {
        self.data@
    }
}

/// Whether the end of a stream with these bytes left over is a regular end: no
/// byte of a frame was received, or its length and nothing more.
pub open spec fn ends_cleanly(left: Seq<u8>) -> bool {
    left.len() == 0 || left.len() == 4
}

impl FrameBuffer {
    /// A buffer without bytes.
    pub fn new() -> (b: FrameBuffer)
        ensures
            b@ == Seq::<u8>::empty(),
    {
        FrameBuffer { data: Vec::new() }
    }

    /// Appends received bytes.
    pub fn push(&mut self, bytes: &[u8])
        ensures
            final(self)@ == old(self)@ + bytes@,
    {
        self.data.extend_from_slice(bytes);
        assert(self.data@ =~= old(self).data@ + bytes@);
    }

    /// Takes the frame at the front, if it is complete.
    pub fn next_frame(&mut self) -> (r: Result<Option<Vec<u8>>, FrameError>)
        ensures
            match r {
                Ok(Some(payload)) => front(old(self)@) == (Front::Frame {
                    payload: payload@,
                    rest: final(self)@,
                }),
                Ok(None) => front(old(self)@) is Incomplete && final(self)@ == old(self)@,
                Err(e) => e is TooBig && front(old(self)@) is Oversized && final(self)@ == old(
                    self,
                )@,
            },
    {
        match read_frame(self.data.as_slice()) {
            Ok(Some((payload, used))) => {
                let rest = self.data.split_off(used);
                self.data = rest;
                Ok(Some(payload))
            },
            Ok(None) => Ok(None),
            Err(_) => Err(FrameError::TooBig),
        }
    }

    /// Judges the end of the stream, once no whole frame is left.
    pub fn finish(&self) -> (r: Result<(), FrameError>)
        ensures
            match r {
                Ok(_) => ends_cleanly(self@),
                Err(e) => e is Truncated && !ends_cleanly(self@),
            },
    {
        if self.data.len() == 0 || self.data.len() == 4 {
            Ok(())
        } else {
            Err(FrameError::Truncated)
        }
    }
}

/// Appends the frame of a message to `out`. A message that is too large is
/// refused and nothing is written. What was written reads back as the message.
pub fn send_msg(out: &mut Vec<u8>, msg: &Message) -> (r: Result<(), FrameError>)
    ensures
        parsed(encoded(msg@)) == Ok::<MessageView, ParseErrorView>(msg@),
        match r {
            Ok(_) => encoded(msg@).len() <= MAX_FRAME && final(out)@ == old(out)@ + framed(
                encoded(msg@),
            ),
            Err(e) => e is Oversized && encoded(msg@).len() > MAX_FRAME && final(out)@ == old(out)@,
        },
{
    write_frame(out, msg.encode().as_slice())
}

/// Takes the message at the front of the received bytes, or `None` while it is
/// incomplete. A frame that is no message is consumed.
pub fn recv_msg(buffer: &mut FrameBuffer) -> (r: Result<Option<Message>, FrameError>)
    ensures
        match front(old(buffer)@) {
            Front::Incomplete => r matches Ok(None) && final(buffer)@ == old(buffer)@,
            Front::Oversized => r matches Err(FrameError::TooBig) && final(buffer)@ == old(
                buffer,
            )@,
            Front::Frame { payload, rest } => final(buffer)@ == rest && match parsed(payload) {
                Ok(m) => r matches Ok(Some(msg)) && msg@ == m,
                Err(e) => r matches Err(FrameError::Parse(error)) && error@ == e,
            },
        },
{
    match buffer.next_frame() {
        Ok(Some(payload)) => match Message::parse(payload.as_slice()) {
            Ok(msg) => Ok(Some(msg)),
            Err(e) => Err(FrameError::Parse(e)),
        },
        Ok(None) => Ok(None),
        Err(e) => Err(e),
    }
}

/// A message that was sent is what the peer takes from the front of the stream,
/// and what follows it stays.
pub proof fn law_sent_message_is_received(m: MessageView, rest: Seq<u8>)
    requires
        encoded(m).len() <= MAX_FRAME,
        parsed(encoded(m)) == Ok::<MessageView, ParseErrorView>(m),
    ensures
        front(framed(encoded(m)) + rest) matches Front::Frame { payload, rest: left } && parsed(
            payload,
        ) == Ok::<MessageView, ParseErrorView>(m) && left == rest,
{
    law_frame_roundtrip(encoded(m), rest);
}

} // verus!
