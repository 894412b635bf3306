use rfp::frame::{
    frame_length, read_frame, recv_msg, send_msg, write_frame, FrameBuffer, FrameError, MAX_FRAME,
};
use rfp::msg::{Message, ParseError};
use tokio_util::bytes::BytesMut;
use tokio_util::codec::{Decoder, LengthDelimitedCodec};

#[test]
fn frame_roundtrip() {
    let mut a = Vec::new();
    write_frame(&mut a, b"hello").unwrap();
    assert_eq!(read_frame(&a).unwrap(), Some((b"hello".to_vec(), 9)));
}

#[test]
fn oversize_frame_rejected() {
    let header = (MAX_FRAME as u32 + 1).to_be_bytes();
    assert_eq!(read_frame(&header), Err(FrameError::Oversized));
    assert_eq!(frame_length(&header), Err(FrameError::Oversized));
}

#[test]
fn framed_reads_manual_format() {
    let payload = br#"{"type":"ping","ts":1}"#;
    let mut a = Vec::new();
    write_frame(&mut a, payload).unwrap();

    let mut codec = LengthDelimitedCodec::builder().max_frame_length(MAX_FRAME).new_codec();
    let mut bytes = BytesMut::from(&a[..]);
    let buf = codec.decode(&mut bytes).unwrap().unwrap();
    assert_eq!(&buf[..], payload);

    let mut buffer = FrameBuffer::new();
    buffer.push(&a);
    assert_eq!(buffer.next_frame().unwrap().unwrap(), payload.to_vec());
}

#[test]
fn length_is_big_endian() {
    let mut out = vec![9u8];
    write_frame(&mut out, &[7u8; 300]).unwrap();
    assert_eq!(&out[..5], &[9, 0, 0, 1, 44]);
    assert_eq!(out.len(), 305);
}

#[test]
fn largest_frame_passes_and_one_more_byte_does_not() {
    let mut out = Vec::new();
    assert_eq!(write_frame(&mut out, &vec![1u8; MAX_FRAME]), Ok(()));
    assert_eq!(out.len(), MAX_FRAME + 4);
    let before = out.clone();
    assert_eq!(write_frame(&mut out, &vec![1u8; MAX_FRAME + 1]), Err(FrameError::Oversized));
    assert_eq!(out, before);
}

#[test]
fn frames_come_out_in_order_however_the_bytes_arrive() {
    let mut stream = Vec::new();
    for payload in [&b"one"[..], &b""[..], &b"three"[..]] {
        write_frame(&mut stream, payload).unwrap();
    }
    let mut buffer = FrameBuffer::new();
    let mut frames = Vec::new();
    for byte in stream {
        buffer.push(&[byte]);
        while let Some(frame) = buffer.next_frame().unwrap() {
            frames.push(frame);
        }
    }
    assert_eq!(frames, vec![b"one".to_vec(), b"".to_vec(), b"three".to_vec()]);
    assert_eq!(buffer.finish(), Ok(()));
}

#[test]
fn the_end_of_a_stream_is_judged_as_the_codec_does() {
    for left in 0..9usize {
        let mut stream = Vec::new();
        write_frame(&mut stream, b"hello").unwrap();
        stream.truncate(left);
        let mut buffer = FrameBuffer::new();
        buffer.push(&stream);
        assert_eq!(buffer.next_frame(), Ok(None));

        let mut codec = LengthDelimitedCodec::builder().max_frame_length(MAX_FRAME).new_codec();
        let mut bytes = BytesMut::from(&stream[..]);
        assert!(codec.decode(&mut bytes).unwrap().is_none());
        assert_eq!(buffer.finish().is_ok(), codec.decode_eof(&mut bytes).is_ok(), "{left}");
    }
    let mut buffer = FrameBuffer::new();
    buffer.push(&[0, 0]);
    assert_eq!(buffer.finish(), Err(FrameError::Truncated));
}

#[test]
fn messages_travel_in_frames_and_leave_the_rest() {
    let mut out = Vec::new();
    send_msg(&mut out, &Message::Ping { ts: 5 }).unwrap();
    send_msg(&mut out, &Message::Pong { ts: 6 }).unwrap();
    let mut buffer = FrameBuffer::new();
    buffer.push(&out);
    assert_eq!(recv_msg(&mut buffer).unwrap(), Some(Message::Ping { ts: 5 }));
    assert_eq!(recv_msg(&mut buffer).unwrap(), Some(Message::Pong { ts: 6 }));
    assert_eq!(recv_msg(&mut buffer).unwrap(), None);
}

#[test]
fn a_frame_that_is_no_message_is_consumed() {
    let mut out = Vec::new();
    write_frame(&mut out, br#"{"type":"warp"}"#).unwrap();
    send_msg(&mut out, &Message::Ping { ts: 5 }).unwrap();
    let mut buffer = FrameBuffer::new();
    buffer.push(&out);
    assert_eq!(
        recv_msg(&mut buffer),
        Err(FrameError::Parse(ParseError::UnknownType("warp".into())))
    );
    assert_eq!(recv_msg(&mut buffer).unwrap(), Some(Message::Ping { ts: 5 }));
}

#[test]
fn a_message_too_large_for_a_frame_is_not_sent() {
    let mut out = Vec::new();
    let m = Message::Error { code: "x".into(), message: "y".repeat(MAX_FRAME) };
    assert_eq!(send_msg(&mut out, &m), Err(FrameError::Oversized));
    assert!(out.is_empty());
    let mut buffer = FrameBuffer::new();
    buffer.push(&[255, 255, 255, 255]);
    assert_eq!(recv_msg(&mut buffer), Err(FrameError::TooBig));
    assert_eq!(buffer.next_frame(), Err(FrameError::TooBig));
}

#[test]
fn frame_errors_have_texts() {
    assert_eq!(FrameError::Oversized.text(), "io: frame exceeds 64 KiB");
    assert_eq!(FrameError::Truncated.text(), "io: bytes remaining on stream");
    assert_eq!(FrameError::TooBig.text(), "io: frame size too big");
    let mut codec = LengthDelimitedCodec::builder().max_frame_length(MAX_FRAME).new_codec();
    let e = codec.decode(&mut BytesMut::from(&[255u8; 8][..])).unwrap_err();
    assert_eq!(FrameError::TooBig.text(), format!("io: {e}"));
    let mut codec = LengthDelimitedCodec::builder().max_frame_length(MAX_FRAME).new_codec();
    let e = codec.decode_eof(&mut BytesMut::from(&[0u8; 2][..])).unwrap_err();
    assert_eq!(FrameError::Truncated.text(), format!("io: {e}"));
    assert_eq!(
        FrameError::Parse(ParseError::MissingType).text(),
        "parse: missing `type` field"
    );
}
