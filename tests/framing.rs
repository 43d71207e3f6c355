use tls_chat::frame::{decode_frame, encode_frame, FrameScanner, ReadEvent, ReadStep};

fn scan_bytes(bytes: &[u8]) -> Option<(Vec<u8>, usize)> {
    let mut sc = FrameScanner::new();
    for (i, b) in bytes.iter().enumerate() {
        sc.push_byte(*b);
        if sc.complete() {
            return Some((sc.into_payload(), i + 1));
        }
    }
    None
}

fn scan_chunks(bytes: &[u8], size: usize) -> Option<(Vec<u8>, usize)> {
    let mut sc = FrameScanner::new();
    let mut taken = 0;
    for chunk in bytes.chunks(size) {
        taken += sc.feed(chunk);
        if sc.complete() {
            return Some((sc.into_payload(), taken));
        }
    }
    None
}

#[test]
fn plain_message_round_trip() {
    let wire = encode_frame(b"hello world");
    assert_eq!(wire, b"hello world\r\n\r\n".to_vec());
    assert_eq!(decode_frame(&wire), Some((b"hello world".to_vec(), 15)));
}

#[test]
fn round_trip_byte_by_byte_and_in_chunks() {
    let payloads: Vec<&[u8]> = vec![
        b"",
        b"a",
        b"\r",
        b"\n",
        b"a\r\nb",
        b"\r\n\r",
        b"x\r\ry\n\n",
        b"line one\r\nline two\r",
        "caf\u{e9} \u{2603}".as_bytes(),
    ];
    for p in payloads {
        let wire = encode_frame(p);
        assert_eq!(scan_bytes(&wire), Some((p.to_vec(), wire.len())));
        for size in 1..6 {
            assert_eq!(scan_chunks(&wire, size), Some((p.to_vec(), wire.len())));
        }
        assert_eq!(decode_frame(&wire), Some((p.to_vec(), wire.len())));
    }
}

#[test]
fn false_start_keeps_stray_bytes() {
    let input = b"\r\n\r\r\n\r\n";
    assert_eq!(decode_frame(input), Some((b"\r\n\r".to_vec(), 7)));
    assert_eq!(scan_bytes(input), Some((b"\r\n\r".to_vec(), 7)));
}

#[test]
fn payload_ending_in_crlf_meets_terminator_early() {
    let wire = encode_frame(b"ab\r\n");
    assert_eq!(decode_frame(&wire), Some((b"ab".to_vec(), 6)));
}

#[test]
fn no_terminator_gives_none() {
    assert_eq!(decode_frame(b"abc\r\n\r"), None);
    assert_eq!(decode_frame(b""), None);
}

#[test]
fn first_of_two_messages() {
    let mut wire = encode_frame(b"one");
    wire.extend(encode_frame(b"two"));
    assert_eq!(decode_frame(&wire), Some((b"one".to_vec(), 7)));
    assert_eq!(decode_frame(&wire[7..]), Some((b"two".to_vec(), 7)));
}

#[test]
fn read_events_map_to_steps() {
    let mut sc = FrameScanner::new();
    assert_eq!(sc.on_event(ReadEvent::WouldBlock), ReadStep::Wait);
    assert_eq!(sc.on_event(ReadEvent::Byte(b'h')), ReadStep::Continue);
    assert_eq!(sc.on_event(ReadEvent::Byte(b'i')), ReadStep::Continue);
    assert_eq!(sc.on_event(ReadEvent::Byte(b'\r')), ReadStep::Continue);
    assert_eq!(sc.on_event(ReadEvent::Byte(b'\n')), ReadStep::Continue);
    assert_eq!(sc.on_event(ReadEvent::Byte(b'\r')), ReadStep::Continue);
    assert_eq!(sc.on_event(ReadEvent::Byte(b'\n')), ReadStep::Complete);
    assert_eq!(sc.into_payload(), b"hi".to_vec());

    let mut sc = FrameScanner::new();
    assert_eq!(sc.on_event(ReadEvent::Reset), ReadStep::Reset);
    assert_eq!(sc.on_event(ReadEvent::Failed), ReadStep::Failed);
    assert_eq!(sc.on_event(ReadEvent::EndOfStream), ReadStep::Failed);
    assert!(!sc.complete());
}
