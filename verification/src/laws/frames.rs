//! Frames on a stream.
use crate::frame::{
    frame_length, framed, law_length_roundtrip, law_sent_message_is_received, read_frame, recv_msg,
    send_msg, write_frame, FrameBuffer, FrameError,
};
use crate::msg::{encoded, Message, ParseError};
use vstd::prelude::*;

verus! {

/// The number that the first four bytes denote, most significant first.
pub open spec fn announced(b: Seq<u8>) -> int {
    b[0] * 16777216 + b[1] * 65536 + b[2] * 256 + b[3]
}

/// Whether bytes are four that denote the length of a payload, and then the payload.
pub open spec fn is_frame_of(frame: Seq<u8>, payload: Seq<u8>) -> bool {
    frame.len() == 4 + payload.len() && announced(frame) == payload.len() && frame.skip(4)
        == payload
}

/// A frame of 64 KiB or less is announced as it is, a larger one refused.
pub proof fn law_frame_length(header: &[u8], r: Result<usize, FrameError>)
    requires
        header@.len() == 4,
        call_ensures(frame_length, (header,), r),
    ensures
        match r {
            Ok(n) => n == announced(header@) && n <= 65536,
            Err(e) => e is Oversized && announced(header@) > 65536,
        },
{
}

proof fn lemma_is_frame_of(payload: Seq<u8>)
    requires
        payload.len() <= 65536,
    ensures
        is_frame_of(framed(payload), payload),
{
    law_length_roundtrip(payload.len());
    assert(framed(payload).skip(4) =~= payload);
}

/// A payload of 64 KiB or less is appended as a frame, behind all that was there; of a
/// larger one nothing is written.
pub proof fn law_write_frame(out: &mut Vec<u8>, payload: &[u8], r: Result<(), FrameError>)
    requires
        call_ensures(write_frame, (out, payload), r),
    ensures
        r is Ok <==> payload@.len() <= 65536,
        r matches Err(e) ==> e is Oversized && final(out)@ == old(out)@,
        r is Ok ==> final(out)@.take(old(out)@.len() as int) == old(out)@ && is_frame_of(
            final(out)@.skip(old(out)@.len() as int),
            payload@,
        ),
{
    if payload@.len() <= 65536 {
        lemma_is_frame_of(payload@);
        let frame = framed(payload@);
        assert((old(out)@ + frame).take(old(out)@.len() as int) =~= old(out)@);
        assert((old(out)@ + frame).skip(old(out)@.len() as int) =~= frame);
    }
}

/// A frame is read as soon as all of it is there: four bytes and as many as they
/// announce. Until then nothing is read; one that announces more than 64 KiB is refused
/// as soon as its four bytes are there.
pub proof fn law_read_frame(stream: &[u8], r: Result<Option<(Vec<u8>, usize)>, FrameError>)
    requires
        call_ensures(read_frame, (stream,), r),
    ensures
        if stream@.len() < 4 {
            r matches Ok(None)
        } else if announced(stream@) > 65536 {
            r matches Err(e) && e is Oversized
        } else if stream@.len() < 4 + announced(stream@) {
            r matches Ok(None)
        } else {
            r matches Ok(Some((payload, used))) && used == 4 + announced(stream@) && payload@
                == stream@.subrange(4, 4 + announced(stream@))
        },
{
}

/// The same of a buffer: a whole frame leaves it, and nothing else does.
pub proof fn law_next_frame(buffer: &mut FrameBuffer, r: Result<Option<Vec<u8>>, FrameError>)
    requires
        call_ensures(FrameBuffer::next_frame, (buffer,), r),
    ensures
        if old(buffer)@.len() < 4 {
            r matches Ok(None) && final(buffer)@ == old(buffer)@
        } else if announced(old(buffer)@) > 65536 {
            r matches Err(e) && e is TooBig && final(buffer)@ == old(buffer)@
        } else if old(buffer)@.len() < 4 + announced(old(buffer)@) {
            r matches Ok(None) && final(buffer)@ == old(buffer)@
        } else {
            r matches Ok(Some(payload)) && payload@ == old(buffer)@.subrange(
                4,
                4 + announced(old(buffer)@),
            ) && final(buffer)@ == old(buffer)@.skip(4 + announced(old(buffer)@))
        },
{
}

/// A stream may end before the first byte of a frame, or after the four that announce
/// one; anywhere else it is cut off.
pub proof fn law_finish(buffer: &FrameBuffer, r: Result<(), FrameError>)
    requires
        call_ensures(FrameBuffer::finish, (buffer,), r),
    ensures
        r is Ok <==> buffer@.len() == 0 || buffer@.len() == 4,
        r matches Err(e) ==> e is Truncated,
{
}

/// A message is sent as the frame of its encoding, behind all that was there; one whose
/// encoding is larger than 64 KiB is not sent.
pub proof fn law_send_msg(
    out: &mut Vec<u8>,
    msg: &Message,
    payload: Vec<u8>,
    r: Result<(), FrameError>,
)
    requires
        call_ensures(send_msg, (out, msg), r),
        call_ensures(Message::encode, (msg,), payload),
    ensures
        r is Ok <==> payload@.len() <= 65536,
        r matches Err(e) ==> e is Oversized && final(out)@ == old(out)@,
        r is Ok ==> final(out)@.take(old(out)@.len() as int) == old(out)@ && is_frame_of(
            final(out)@.skip(old(out)@.len() as int),
            payload@,
        ),
{
    if payload@.len() <= 65536 {
        lemma_is_frame_of(payload@);
        let frame = framed(payload@);
        assert((old(out)@ + frame).take(old(out)@.len() as int) =~= old(out)@);
        assert((old(out)@ + frame).skip(old(out)@.len() as int) =~= frame);
    }
}

/// What is received is what the payload of the first frame parses to; the frame leaves
/// the buffer whether or not it is a message, and what follows it stays.
pub proof fn law_recv_msg(
    buffer: &mut FrameBuffer,
    payload: &[u8],
    parsed: Result<Message, ParseError>,
    r: Result<Option<Message>, FrameError>,
)
    requires
        call_ensures(recv_msg, (buffer,), r),
        call_ensures(Message::parse, (payload,), parsed),
    ensures
        if old(buffer)@.len() < 4 {
            r matches Ok(None) && final(buffer)@ == old(buffer)@
        } else if announced(old(buffer)@) > 65536 {
            r matches Err(e) && e is TooBig && final(buffer)@ == old(buffer)@
        } else if old(buffer)@.len() < 4 + announced(old(buffer)@) {
            r matches Ok(None) && final(buffer)@ == old(buffer)@
        } else {
            final(buffer)@ == old(buffer)@.skip(4 + announced(old(buffer)@)) && (payload@ == old(
                buffer,
            )@.subrange(4, 4 + announced(old(buffer)@)) ==> match parsed {
                Ok(m) => r matches Ok(Some(n)) && n@ == m@,
                Err(e) => r matches Err(FrameError::Parse(error)) && error@ == e@,
            })
        },
{
}

/// What one side sends the other receives, whatever follows it on the stream.
pub proof fn law_sent_is_received(
    out: &mut Vec<u8>,
    msg: &Message,
    sent: Result<(), FrameError>,
    buffer: &mut FrameBuffer,
    rest: Seq<u8>,
    received: Result<Option<Message>, FrameError>,
)
    requires
        call_ensures(send_msg, (out, msg), sent),
        sent is Ok,
        old(buffer)@ == final(out)@.skip(old(out)@.len() as int) + rest,
        call_ensures(recv_msg, (buffer,), received),
    ensures
        received matches Ok(Some(m)) && m@ == msg@,
        final(buffer)@ == rest,
{
    let frame = framed(encoded(msg@));
    assert(final(out)@.skip(old(out)@.len() as int) =~= frame);
    law_sent_message_is_received(msg@, rest);
}

} // verus!
