use treq_app::panes::sse_time_for;
use treq_app::stream::{cap_body, finish, StreamNotice, StreamState, MAX_BODY_BYTES, MAX_STREAM_BYTES};

#[test]
fn chunks_before_an_event_stream_head_are_ignored() {
    let mut s = StreamState::start("r1".to_string());
    s.on_chunk("r1", b"data: 1\n\n", "10:00:00.000".to_string());
    assert_eq!(s.bytes, 0);
    assert!(s.body.is_empty());
    assert!(!s.on_head("r1", false), "plain response waits for the end");
    assert!(!s.live);
}

#[test]
fn events_of_another_request_are_dropped() {
    let mut s = StreamState::start("r1".to_string());
    assert!(!s.on_head("r2", true));
    assert!(s.on_head("r1", true));
    s.on_chunk("r2", b"data: x\n\n", "t".to_string());
    assert_eq!(s.bytes, 0);
}

#[test]
fn live_chunks_are_kept_with_their_first_line() {
    let mut s = StreamState::start("r1".to_string());
    assert!(s.on_head("r1", true));
    s.on_chunk("r1", b"data: 1\n\n", "10:00:00.000".to_string());
    s.on_chunk("r1", b"data: 2\n\n", "10:00:01.500".to_string());
    assert_eq!(s.bytes, 18);
    assert_eq!(s.events, 2);
    assert_eq!(s.body, b"data: 1\n\ndata: 2\n\n".to_vec());
    assert_eq!(s.lines, 4);
    assert_eq!(s.marks, vec![(0, "10:00:00.000".to_string()), (2, "10:00:01.500".to_string())]);
    assert_eq!(sse_time_for(&s.marks, true, 2), Some("10:00:01.500"));
    assert_eq!(sse_time_for(&s.marks, true, 1), Some(""));
}

#[test]
fn kept_body_stops_at_the_limit() {
    let mut s = StreamState::start("r1".to_string());
    s.on_head("r1", true);
    let big = vec![b'x'; MAX_STREAM_BYTES];
    s.on_chunk("r1", &big, "a".to_string());
    assert_eq!(s.body.len(), MAX_STREAM_BYTES);
    assert_eq!(s.notice, None);
    s.on_chunk("r1", b"more\n", "b".to_string());
    assert_eq!(s.body.len(), MAX_STREAM_BYTES);
    assert_eq!(s.bytes, MAX_STREAM_BYTES + 5);
    assert_eq!(s.notice, Some(StreamNotice::Truncated));
    assert_eq!(s.marks.len(), 1);
}

#[test]
fn stopping_keeps_what_arrived() {
    let mut s = StreamState::start("r1".to_string());
    s.on_head("r1", true);
    s.on_chunk("r1", b"a\n", "t".to_string());
    s.stop();
    assert_eq!(s.notice, Some(StreamNotice::Stopped));
    assert_eq!(s.body, b"a\n".to_vec());
    let big = vec![b'x'; MAX_STREAM_BYTES];
    s.on_chunk("r1", &big, "u".to_string());
    s.on_chunk("r1", b"z", "v".to_string());
    assert_eq!(s.notice, Some(StreamNotice::Stopped), "another notice is not replaced");
}

#[test]
fn finished_bodies_are_cut_to_their_limit() {
    let mut small = vec![1u8; 10];
    assert!(!cap_body(&mut small, true));
    assert_eq!(small.len(), 10);
    let mut big = vec![0u8; MAX_STREAM_BYTES + 5];
    assert!(cap_body(&mut big, true));
    assert_eq!(big.len(), MAX_STREAM_BYTES);
    let mut plain = vec![0u8; MAX_STREAM_BYTES + 5];
    assert!(!cap_body(&mut plain, false));
    assert_eq!(plain.len(), MAX_STREAM_BYTES + 5);
    assert_eq!(MAX_BODY_BYTES, 64 * 1024 * 1024);
}

#[test]
fn only_the_current_stream_finishes() {
    let mut s = StreamState::start("r1".to_string());
    assert!(!finish(&mut s, "r2"));
    assert_eq!(s.req, Some("r1".to_string()));
    assert!(finish(&mut s, "r1"));
    assert_eq!(s.req, None);
    assert!(!s.live);
}
