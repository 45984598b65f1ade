use vidgen::quirks::{KeysightQuirks, ProgressSnapshot, QuirksMessage, Status};

#[test]
fn frame_sample_writes_a_rendering_snapshot() {
    // A watchdog for a run of 9 frames samples the cell after a frame
    // message was pushed.
    let mut dog = KeysightQuirks::start(9);
    let outcome = dog.on_tick(Some(QuirksMessage::Frame { fid: 7, path: "x".to_string() }));
    assert!(!outcome.finished);
    let snap = outcome.write.expect("a frame sample writes");
    assert_eq!(
        snap.render_json(),
        "{\"status\":\"rendering\",\"frames\":7,\"total\":9,\"path\":\"x\"}"
    );
    assert_eq!(dog.frames, 7);
}

#[test]
fn empty_cell_is_a_no_op_sample() {
    let mut dog = KeysightQuirks::start(4);
    let outcome = dog.on_tick(None);
    assert!(outcome.write.is_none());
    assert!(!outcome.finished);
    assert_eq!(dog.frames, 0);
}

#[test]
fn start_and_stop_messages_are_no_op_samples() {
    let mut dog = KeysightQuirks::start(4);
    let a = dog.on_tick(Some(QuirksMessage::Start { frames: 4 }));
    assert!(a.write.is_none() && !a.finished);
    let b = dog.on_tick(Some(QuirksMessage::Stop { time: 12 }));
    assert!(b.write.is_none() && !b.finished);
    assert_eq!(dog.frames, 0);
}

#[test]
fn missed_intermediate_events_lose_all_but_the_latest() {
    // Only the message that survived in the single-slot cell is seen;
    // the sample after it reflects just that latest state.
    let mut dog = KeysightQuirks::start(10);
    let outcome = dog.on_tick(Some(QuirksMessage::Frame { fid: 6, path: "f6".to_string() }));
    let snap = outcome.write.unwrap();
    assert_eq!(
        snap.render_json(),
        "{\"status\":\"rendering\",\"frames\":6,\"total\":10,\"path\":\"f6\"}"
    );
}

#[test]
fn stop_before_any_frame_writes_done_with_zero_frames() {
    let dog = KeysightQuirks::start(5);
    let snap = dog.on_stop(None);
    assert_eq!(
        snap.render_json(),
        "{\"status\":\"done\",\"frames\":0,\"total\":5,\"path\":\"\"}"
    );
}

#[test]
fn stop_after_frames_keeps_the_last_counted_frame() {
    let mut dog = KeysightQuirks::start(5);
    dog.on_tick(Some(QuirksMessage::Frame { fid: 3, path: "p3".to_string() }));
    let snap = dog.on_stop(Some(QuirksMessage::Stop { time: 77 }));
    assert_eq!(
        snap.render_json(),
        "{\"status\":\"done\",\"frames\":3,\"total\":5,\"path\":\"\"}"
    );
}

#[test]
fn error_sample_writes_the_cause_chain_and_exits() {
    let mut dog = KeysightQuirks::start(8);
    dog.on_tick(Some(QuirksMessage::Frame { fid: 2, path: "p".to_string() }));
    let outcome = dog.on_tick(Some(QuirksMessage::Error {
        error: vec![
            "runner exited with error".to_string(),
            "failed to remove frame".to_string(),
        ],
    }));
    assert!(outcome.finished);
    let snap = outcome.write.expect("an error sample writes");
    assert_eq!(
        snap.render_json(),
        "{\"status\":\"error\",\"error_chain\":[\"runner exited with error\",\"failed to remove frame\"],\"frames\":2,\"total\":8,\"path\":\"\"}"
    );
}

#[test]
fn stop_with_pushed_error_writes_error_not_done() {
    let dog = KeysightQuirks::start(3);
    let snap = dog.on_stop(Some(QuirksMessage::Error {
        error: vec!["failed to open frame".to_string()],
    }));
    assert_eq!(
        snap.render_json(),
        "{\"status\":\"error\",\"error_chain\":[\"failed to open frame\"],\"frames\":0,\"total\":3,\"path\":\"\"}"
    );
}

#[test]
fn json_strings_escape_quotes_backslashes_and_controls() {
    let snap = ProgressSnapshot {
        status: Status::Rendering,
        frames: 1,
        total: 2,
        path: "a\"b\\c\nd\te\u{1}f".to_string(),
    };
    assert_eq!(
        snap.render_json(),
        "{\"status\":\"rendering\",\"frames\":1,\"total\":2,\"path\":\"a\\\"b\\\\c\\nd\\te\\u0001f\"}"
    );
}

#[test]
fn json_error_chain_escapes_each_cause() {
    let snap = ProgressSnapshot {
        status: Status::Error { error_chain: vec!["say \"no\"".to_string(), "b\rc".to_string()] },
        frames: 0,
        total: 0,
        path: String::new(),
    };
    assert_eq!(
        snap.render_json(),
        "{\"status\":\"error\",\"error_chain\":[\"say \\\"no\\\"\",\"b\\rc\"],\"frames\":0,\"total\":0,\"path\":\"\"}"
    );
}

#[test]
fn json_numbers_render_in_full() {
    let snap = ProgressSnapshot {
        status: Status::Done,
        frames: u64::MAX,
        total: 0,
        path: String::new(),
    };
    assert_eq!(
        snap.render_json(),
        "{\"status\":\"done\",\"frames\":18446744073709551615,\"total\":0,\"path\":\"\"}"
    );
}
