use telab_voip::framer::{Batcher, FLUSH_THRESHOLD};
use telab_voip::header::{encode_header, parse_header, rate_announcement, SessionParams, HEADER_LEN};
use telab_voip::playback::{fill_output, on_output_request, PlaybackOutcome};
use telab_voip::queue::SampleQueue;
use telab_voip::session::{is_streaming, next_state, SessionEvent, SessionState};

#[test]
fn header_for_default_session() {
    let p = SessionParams { sample_rate: 48000, bit_depth: 12 };
    let h = encode_header(p);
    assert_eq!(h.len(), HEADER_LEN);
    assert_eq!(h, vec![0x80, 0xBB, 0x00, 0x00, 0x0C]);
    assert_eq!(&h[..4], &48000u32.to_le_bytes());
}

#[test]
fn header_round_trip() {
    for (rate, bits) in [(48000u32, 12u8), (0, 0), (u32::MAX, 255), (0x01020304, 16)] {
        let p = SessionParams { sample_rate: rate, bit_depth: bits };
        assert_eq!(parse_header(&encode_header(p)), Some(p));
    }
}

#[test]
fn header_of_wrong_length_is_rejected() {
    assert_eq!(parse_header(&[0x80, 0xBB, 0x00, 0x00]), None);
    assert_eq!(parse_header(&[0x80, 0xBB, 0x00, 0x00, 0x0C, 0x00]), None);
    assert_eq!(parse_header(&[]), None);
}

#[test]
fn rate_line_is_decimal() {
    assert_eq!(rate_announcement(48000), b"48000\n".to_vec());
    assert_eq!(rate_announcement(0), b"0\n".to_vec());
    assert_eq!(rate_announcement(u32::MAX), b"4294967295\n".to_vec());
}

#[test]
fn batcher_flushes_once_at_threshold() {
    let mut b = Batcher::new();
    // 100 code pairs per line: 200 bytes once decoded
    let line = b"Ag".repeat(100);
    assert!(b.push_line(&line).is_none());
    assert_eq!(b.pending_len(), 200);
    assert!(b.push_line(&line).is_none());
    assert_eq!(b.pending_len(), 400);
    let batch = b.push_line(&line).expect("threshold crossed");
    assert_eq!(batch.len(), 600);
    assert!(batch.len() >= FLUSH_THRESHOLD);
    assert!(batch.iter().all(|x| *x == 0));
    assert_eq!(b.pending_len(), 0);
}

#[test]
fn batcher_flushes_at_exactly_threshold() {
    let mut b = Batcher::new();
    let line = vec![b'A'; 510];
    assert!(b.push_line(&line).is_none());
    assert_eq!(b.pending_len(), 510);
    let batch = b.push_line(b"//").expect("512 bytes pending");
    assert_eq!(batch.len(), 512);
    assert_eq!(&batch[510..], &[0xf0, 0x7f]);
    assert_eq!(b.pending_len(), 0);
}

#[test]
fn queue_is_fifo() {
    let mut q = SampleQueue::new();
    let xs: Vec<i16> = vec![5, -3, 7, 0, i16::MIN, i16::MAX];
    for x in &xs {
        q.push(*x);
    }
    assert_eq!(q.len(), xs.len());
    let mut got = Vec::new();
    for _ in 0..xs.len() {
        got.push(q.try_pop().unwrap());
    }
    assert_eq!(got, xs);
    assert!(q.is_empty());
    assert_eq!(q.try_pop(), None);
}

#[test]
fn queue_takes_decoded_lines() {
    let mut q = SampleQueue::new();
    q.push_line(b"AA//x");
    assert_eq!(q.len(), 2);
    assert_eq!(q.try_pop(), Some(-32768));
    assert_eq!(q.try_pop(), Some(32752));
}

#[test]
fn underrun_stops_fill_without_blocking() {
    let mut q = SampleQueue::new();
    let mut out = vec![7i16; 4];
    assert_eq!(fill_output(&mut q, &mut out), 0);
    assert_eq!(out, vec![7, 7, 7, 7]);
    q.push(1);
    q.push(2);
    assert_eq!(fill_output(&mut q, &mut out), 2);
    assert_eq!(out, vec![1, 2, 7, 7]);
    assert!(q.is_empty());
}

#[test]
fn fill_leaves_surplus_queued() {
    let mut q = SampleQueue::new();
    for x in 1..=5 {
        q.push(x);
    }
    let mut out = vec![0i16; 3];
    assert_eq!(fill_output(&mut q, &mut out), 3);
    assert_eq!(out, vec![1, 2, 3]);
    assert_eq!(q.len(), 2);
    assert_eq!(q.try_pop(), Some(4));
}

#[test]
fn producer_failure_terminates_playback() {
    let mut q = SampleQueue::new();
    q.push(9);
    let mut out = vec![0i16; 2];
    assert_eq!(on_output_request(true, &mut q, &mut out), PlaybackOutcome::Terminate);
    assert_eq!(out, vec![0, 0]);
    assert_eq!(q.len(), 1);
    assert_eq!(on_output_request(false, &mut q, &mut out), PlaybackOutcome::Filled(1));
    assert_eq!(out, vec![9, 0]);
}

#[test]
fn session_lifecycle() {
    let mut s = SessionState::Opening;
    s = next_state(s, SessionEvent::Opened);
    assert_eq!(s, SessionState::Handshake);
    assert!(!is_streaming(s));
    s = next_state(s, SessionEvent::HeaderDone);
    assert_eq!(s, SessionState::Streaming);
    s = next_state(s, SessionEvent::Data);
    assert!(is_streaming(s));
    s = next_state(s, SessionEvent::Failed);
    assert_eq!(s, SessionState::Terminated);
    assert_eq!(next_state(s, SessionEvent::Opened), SessionState::Terminated);
    assert_eq!(next_state(SessionState::Opening, SessionEvent::Data), SessionState::Terminated);
}
