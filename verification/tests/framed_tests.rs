use serial_framed::{
    ByteBuf, ChunkTransport, DecodeStep, FramedError, LineCodec, LineError, SerialFramed,
    Translate, TransportError,
};

fn bytes(s: &str) -> Vec<u8> {
    s.as_bytes().to_vec()
}

fn chunks(parts: &[&str]) -> Vec<Vec<u8>> {
    parts.iter().map(|p| bytes(p)).collect()
}

fn adapter(
    parts: &[&str],
    accept_limit: usize,
    max_line: usize,
) -> SerialFramed<ChunkTransport, LineCodec> {
    SerialFramed::new(
        ChunkTransport::new(chunks(parts), accept_limit),
        LineCodec::new(max_line),
    )
}

fn next_frame_blocking(
    f: &mut SerialFramed<ChunkTransport, LineCodec>,
) -> Result<Vec<u8>, FramedError<LineError>> {
    for _ in 0..1000 {
        match f.next_frame() {
            Ok(Some(frame)) => return Ok(frame),
            Ok(None) => {}
            Err(e) => return Err(e),
        }
    }
    panic!("no frame within the attempt budget");
}

#[test]
fn chunked_reads_yield_frames() {
    let mut f = adapter(&["he", "llo\nwor", "ld\n"], usize::MAX, 1024);
    assert_eq!(next_frame_blocking(&mut f).unwrap(), bytes("hello"));
    assert_eq!(next_frame_blocking(&mut f).unwrap(), bytes("world"));
    assert!(matches!(
        next_frame_blocking(&mut f),
        Err(FramedError::Transport(TransportError::Closed))
    ));
}

#[test]
fn single_chunk_yields_the_same_frames() {
    let mut f = adapter(&["hello\nworld\n"], usize::MAX, 1024);
    assert_eq!(next_frame_blocking(&mut f).unwrap(), bytes("hello"));
    assert_eq!(next_frame_blocking(&mut f).unwrap(), bytes("world"));
}

#[test]
fn empty_reads_are_not_end_of_stream() {
    let mut f = adapter(&["", "", "a\n"], usize::MAX, 1024);
    assert_eq!(next_frame_blocking(&mut f).unwrap(), bytes("a"));
}

#[test]
fn empty_frames_round_through() {
    let mut f = adapter(&["\n\n"], usize::MAX, 1024);
    assert_eq!(next_frame_blocking(&mut f).unwrap(), bytes(""));
    assert_eq!(next_frame_blocking(&mut f).unwrap(), bytes(""));
}

#[test]
fn no_read_while_buffer_yields() {
    let mut f = adapter(&["a\nb\n"], usize::MAX, 1024);
    assert_eq!(next_frame_blocking(&mut f).unwrap(), bytes("a"));
    assert_eq!(f.get_ref().reads(), 1);
    // the second frame is already buffered: it must come without another read
    assert_eq!(next_frame_blocking(&mut f).unwrap(), bytes("b"));
    assert_eq!(f.get_ref().reads(), 1);
}

#[test]
fn write_ordering_and_completeness() {
    let mut f = adapter(&[], usize::MAX, 1024);
    f.start_send(bytes("abc")).unwrap();
    f.start_send(bytes("xy")).unwrap();
    assert!(!f.is_flushed());
    f.flush().unwrap();
    assert!(f.is_flushed());
    assert_eq!(f.get_ref().sent_bytes(), &bytes("abc\nxy\n"));
    assert_eq!(f.get_ref().writes(), 1);
}

#[test]
fn short_write_reports_incomplete_and_discards() {
    let mut f = adapter(&[], 3, 1024);
    f.start_send(bytes("hello")).unwrap();
    match f.flush() {
        Err(FramedError::Incomplete { written, expected }) => {
            assert_eq!(written, 3);
            assert_eq!(expected, 6);
        }
        other => panic!("expected an incomplete write, got {:?}", other),
    }
    // the unwritten tail is discarded, not retried
    assert!(f.write_buffer().is_empty());
    assert!(f.is_flushed());
    assert_eq!(f.get_ref().sent_bytes(), &bytes("hel"));
    assert_eq!(f.get_ref().writes(), 1);
}

#[test]
fn ready_is_idempotent_when_flushed() {
    let mut f = adapter(&[], usize::MAX, 1024);
    f.start_send(bytes("a")).unwrap();
    f.flush().unwrap();
    let writes_before = f.get_ref().writes();
    f.ready().unwrap();
    f.ready().unwrap();
    // a ready check on a flushed adapter must not invoke the transport
    assert_eq!(f.get_ref().writes(), writes_before);
    assert_eq!(f.get_ref().reads(), 0);
}

#[test]
fn ready_flushes_when_dirty() {
    let mut f = adapter(&[], usize::MAX, 1024);
    f.start_send(bytes("q")).unwrap();
    f.ready().unwrap();
    assert!(f.is_flushed());
    assert_eq!(f.get_ref().sent_bytes(), &bytes("q\n"));
}

#[test]
fn close_flushes() {
    let mut f = adapter(&[], usize::MAX, 1024);
    f.start_send(bytes("bye")).unwrap();
    f.close().unwrap();
    assert!(f.is_flushed());
    assert_eq!(f.get_ref().sent_bytes(), &bytes("bye\n"));
}

#[test]
fn encode_then_decode_round_trips() {
    let mut codec = LineCodec::new(1024);
    let mut buf = ByteBuf::new();
    codec.encode(bytes("hola"), &mut buf).unwrap();
    assert_eq!(buf.as_vec(), &bytes("hola\n"));
    let frame = codec.decode_eof(&mut buf).unwrap();
    assert_eq!(frame, Some(bytes("hola")));
    assert!(codec.pending_bytes().is_empty());
    assert_eq!(buf.len(), 0);
}

#[test]
fn encode_rejects_embedded_newline() {
    let mut codec = LineCodec::new(1024);
    let mut buf = ByteBuf::new();
    assert_eq!(
        codec.encode(bytes("a\nb"), &mut buf),
        Err(LineError::NewlineInFrame)
    );
    assert_eq!(buf.len(), 0);
}

#[test]
fn overlong_line_is_a_codec_error() {
    let mut f = adapter(&["abcdef"], usize::MAX, 4);
    assert!(matches!(
        next_frame_blocking(&mut f),
        Err(FramedError::Codec(LineError::LineTooLong))
    ));
}

#[test]
fn exhausted_transport_reports_closed() {
    let mut f = adapter(&[], usize::MAX, 1024);
    assert!(matches!(
        next_frame_blocking(&mut f),
        Err(FramedError::Transport(TransportError::Closed))
    ));
}

#[test]
fn accessors_expose_the_parts() {
    let mut f = adapter(&["x\n"], usize::MAX, 1024);
    assert_eq!(f.get_ref().reads(), 0);
    assert!(f.codec().pending_bytes().is_empty());
    assert_eq!(f.read_buffer().len(), 0);
    assert!(f.is_flushed());
    assert_eq!(f.get_mut().reads(), 0);
    assert!(f.codec_mut().pending_bytes().is_empty());
    assert_eq!(f.read_buffer_mut().len(), 0);
    let port = f.into_inner();
    assert!(port.sent_bytes().is_empty());
}

#[test]
fn event_driven_decode_and_write() {
    let mut f: SerialFramed<(), LineCodec> = SerialFramed::new((), LineCodec::new(1024));
    // read side, with the caller doing the reads itself
    f.feed(&bytes("x\ny"));
    match f.poll_decode() {
        DecodeStep::Frame(frame) => assert_eq!(frame, bytes("x")),
        _ => panic!("a buffered whole line must decode"),
    }
    assert!(matches!(f.poll_decode(), DecodeStep::NeedRead));
    f.feed(&bytes("\n"));
    match f.poll_decode() {
        DecodeStep::Frame(frame) => assert_eq!(frame, bytes("y")),
        _ => panic!("the fed newline completes the line"),
    }
    // write side, with the caller doing the write itself
    f.start_send(bytes("ok")).unwrap();
    assert_eq!(f.write_buffer().as_vec(), &bytes("ok\n"));
    f.complete_write(3).unwrap();
    assert!(f.is_flushed());
    assert!(f.write_buffer().is_empty());
}

#[test]
fn event_driven_short_write() {
    let mut f: SerialFramed<(), LineCodec> = SerialFramed::new((), LineCodec::new(1024));
    f.start_send(bytes("long")).unwrap();
    match f.complete_write(2) {
        Err(FramedError::Incomplete { written, expected }) => {
            assert_eq!(written, 2);
            assert_eq!(expected, 5);
        }
        other => panic!("expected an incomplete write, got {:?}", other),
    }
    assert!(f.write_buffer().is_empty());
    assert!(f.is_flushed());
}

#[test]
fn byte_buffer_operations() {
    let mut b = ByteBuf::with_capacity(4);
    assert_eq!(b.cap(), 4);
    assert_eq!(b.len(), 0);
    b.push(7);
    b.push(8);
    assert_eq!(b.len(), 2);
    assert_eq!(b.get(0), 7);
    assert_eq!(b.get(1), 8);
    assert_eq!(b.cap(), 4);
    b.reserve(10);
    assert!(b.cap() >= 12);
    let more = vec![1u8, 2, 3];
    b.append(&more);
    assert_eq!(b.as_vec(), &vec![7u8, 8, 1, 2, 3]);
    b.clear();
    assert_eq!(b.len(), 0);
    assert!(b.cap() >= 12);
}

#[test]
fn input_buffer_grows_before_reads() {
    let mut f = adapter(&["a\n"], usize::MAX, 1024);
    assert!(f.read_buffer().cap() >= 64 * 1024);
    assert_eq!(next_frame_blocking(&mut f).unwrap(), bytes("a"));
}
