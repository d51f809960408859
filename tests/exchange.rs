use s2_lib::exchange::{after_event_send, after_filled_send, fill_silence, LoopAction, Playback, SendOutcome};

#[test]
fn playback_consumes_buffers_across_callbacks() {
    let mut playback = Playback::new();
    assert!(playback.start(vec![1, 2, 3]).is_none());
    let mut out = vec![0; 2];
    let first = playback.fill_from_pending(&mut out, 0, 2);
    assert_eq!(first.written, 2);
    assert!(first.finished.is_none());
    assert_eq!(out, vec![1, 2]);
    let second = playback.fill_from_pending(&mut out, 0, 2);
    assert_eq!(second.written, 1);
    assert_eq!(out, vec![3, 2]);
    assert_eq!(second.finished, Some(vec![1, 2, 3]));
    assert!(playback.pending.is_none());
    let third = playback.fill_from_pending(&mut out, 0, 2);
    assert_eq!(third.written, 0);
    assert!(third.finished.is_none());
}

#[test]
fn playback_hands_back_empty_buffer() {
    let mut playback = Playback::new();
    assert_eq!(playback.start(Vec::new()), Some(Vec::new()));
    assert!(playback.pending.is_none());
}

#[test]
fn silence_fills_the_gap() {
    let mut out = vec![5; 6];
    fill_silence(&mut out, 2, 5);
    assert_eq!(out, vec![5, 5, 0, 0, 0, 5]);
}

#[test]
fn a_request_is_always_answered_in_full() {
    let mut playback = Playback::new();
    playback.start(vec![7; 5]);
    let mut out = vec![9; 8];
    let outcome = playback.fill_from_pending(&mut out, 0, 8);
    fill_silence(&mut out, outcome.written, 8);
    assert_eq!(out, vec![7, 7, 7, 7, 7, 0, 0, 0]);
}

#[test]
fn send_outcomes_decide_the_loops() {
    assert_eq!(after_filled_send(SendOutcome::Sent), LoopAction::Continue);
    assert_eq!(after_filled_send(SendOutcome::Full), LoopAction::Fail);
    assert_eq!(after_filled_send(SendOutcome::Disconnected), LoopAction::Exit);
    assert_eq!(after_event_send(SendOutcome::Full), LoopAction::Continue);
    assert_eq!(after_event_send(SendOutcome::Sent), LoopAction::Continue);
    assert_eq!(after_event_send(SendOutcome::Disconnected), LoopAction::Exit);
}

#[test]
fn finish_request_plays_arrived_buffer_then_silence() {
    let mut playback = Playback::new();
    let mut out = vec![9; 6];
    let back = playback.finish_request(&mut out, 2, 6, Some(vec![1, 2]));
    assert_eq!(out, vec![9, 9, 1, 2, 0, 0]);
    assert_eq!(back, Some(vec![1, 2]));
    assert!(playback.pending.is_none());
}

#[test]
fn finish_request_keeps_what_is_left() {
    let mut playback = Playback::new();
    let mut out = vec![0; 3];
    let back = playback.finish_request(&mut out, 1, 3, Some(vec![4, 5, 6, 7]));
    assert_eq!(out, vec![0, 4, 5]);
    assert!(back.is_none());
    let pending = playback.pending.as_ref().unwrap();
    assert_eq!(pending.consumed, 2);
    let next = playback.fill_from_pending(&mut out, 0, 3);
    assert_eq!(next.written, 2);
    assert_eq!(&out[..2], &[6, 7]);
    assert_eq!(next.finished, Some(vec![4, 5, 6, 7]));
}

#[test]
fn finish_request_without_buffer_is_silence() {
    let mut playback = Playback::new();
    let mut out = vec![3; 4];
    assert!(playback.finish_request(&mut out, 1, 4, None).is_none());
    assert_eq!(out, vec![3, 0, 0, 0]);
    assert_eq!(playback.finish_request(&mut out, 0, 4, Some(Vec::new())), Some(Vec::new()));
    assert_eq!(out, vec![0, 0, 0, 0]);
}

#[test]
fn fill_request_answers_every_frame() {
    let mut playback = Playback::new();
    playback.start(vec![1, 2]);
    assert!(playback.needs_buffer_for(5));
    assert!(!playback.needs_buffer_for(2));
    let mut out = vec![9; 7];
    let outcome = playback.fill_request(&mut out, 5, Some(vec![3, 4]));
    assert_eq!(out, vec![1, 2, 3, 4, 0, 9, 9]);
    assert_eq!(outcome.finished, Some(vec![1, 2]));
    assert_eq!(outcome.arrived_finished, Some(vec![3, 4]));
    assert!(playback.pending.is_none());
}

#[test]
fn fill_request_without_arrival_is_silence_after_pending() {
    let mut playback = Playback::new();
    playback.start(vec![5, 6, 7]);
    let mut out = vec![9; 4];
    let outcome = playback.fill_request(&mut out, 2, None);
    assert_eq!(out, vec![5, 6, 9, 9]);
    assert!(outcome.finished.is_none());
    let outcome = playback.fill_request(&mut out, 4, None);
    assert_eq!(out, vec![7, 0, 0, 0]);
    assert_eq!(outcome.finished, Some(vec![5, 6, 7]));
    assert!(outcome.arrived_finished.is_none());
}
