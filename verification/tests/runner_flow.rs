use vidgen::framelist::{FrameList, SourceEntry};
use vidgen::mailbox::{Mailbox, MAILBOX_CAPACITY};
use vidgen::runner::{FrameStage, Message, RunAction, RunEvent, RunResult, Runner};

fn entry(name: &str) -> SourceEntry {
    SourceEntry { name: name.to_string(), path: format!("/frames/{}", name) }
}

/// Drives the machine with every outside action succeeding, routing the
/// messages through a mailbox, and returns the delivered messages and
/// the terminal result.
fn drive_happy(mut runner: Runner, elapsed_ms: u64) -> (Vec<Message>, RunResult) {
    let mut mailbox = Mailbox::new(MAILBOX_CAPACITY);
    let mut delivered: Vec<Message> = Vec::new();
    loop {
        let ev = match runner.action() {
            RunAction::Send { msg } => {
                assert!(mailbox.try_send(msg));
                while let Some(m) = mailbox.recv() {
                    delivered.push(m);
                }
                RunEvent::Sent
            }
            RunAction::Open { .. } => RunEvent::IoOk,
            RunAction::Copy { .. } => RunEvent::IoOk,
            RunAction::Remove { .. } => RunEvent::IoOk,
            RunAction::CloseAndWait => RunEvent::Exited { elapsed_ms },
            RunAction::Finished { result } => return (delivered, result),
        };
        runner.step(ev);
    }
}

#[test]
fn full_run_emits_start_frames_stop_in_order() {
    let list = FrameList::from_entries(vec![
        entry("000001.png"),
        entry("000002.png"),
        entry("report.txt"),
    ]);
    let runner = Runner::start(list, false);
    let (delivered, result) = drive_happy(runner, 42);
    assert_eq!(result, RunResult::Success);
    assert_eq!(delivered.len(), 4);
    match &delivered[0] {
        Message::Start { frames } => assert_eq!(*frames, 2),
        m => panic!("expected Start first, got {:?}", m),
    }
    match &delivered[1] {
        Message::Frame { fid, path } => {
            assert_eq!(*fid, 1);
            assert_eq!(path, "/frames/000001.png");
        }
        m => panic!("expected Frame, got {:?}", m),
    }
    match &delivered[2] {
        Message::Frame { fid, path } => {
            assert_eq!(*fid, 2);
            assert_eq!(path, "/frames/000002.png");
        }
        m => panic!("expected Frame, got {:?}", m),
    }
    match &delivered[3] {
        Message::Stop { time } => assert_eq!(*time, 42),
        m => panic!("expected Stop last, got {:?}", m),
    }
}

#[test]
fn frames_stream_in_ascending_order_and_each_file_is_removed() {
    let list = FrameList::from_entries(vec![
        entry("9.png"),
        entry("2.png"),
        entry("5.png"),
    ]);
    let mut runner = Runner::start(list, false);
    let mut copied: Vec<String> = Vec::new();
    let mut removed: Vec<String> = Vec::new();
    loop {
        let ev = match runner.action() {
            RunAction::Send { .. } => RunEvent::Sent,
            RunAction::Open { .. } => RunEvent::IoOk,
            RunAction::Copy { path } => {
                copied.push(path);
                RunEvent::IoOk
            }
            RunAction::Remove { path } => {
                removed.push(path);
                RunEvent::IoOk
            }
            RunAction::CloseAndWait => RunEvent::Exited { elapsed_ms: 1 },
            RunAction::Finished { result } => {
                assert_eq!(result, RunResult::Success);
                break;
            }
        };
        runner.step(ev);
    }
    // The pipe saw the files' bytes in ascending-id order, and every
    // consumed file was deleted.
    assert_eq!(copied, vec!["/frames/2.png", "/frames/5.png", "/frames/9.png"]);
    assert_eq!(removed, copied);
}

#[test]
fn empty_index_still_runs_start_then_stop() {
    let list = FrameList::from_entries(vec![entry("report.txt")]);
    let runner = Runner::start(list, false);
    let (delivered, result) = drive_happy(runner, 7);
    assert_eq!(result, RunResult::Success);
    assert_eq!(delivered.len(), 2);
    assert!(matches!(delivered[0], Message::Start { frames: 0 }));
    assert!(matches!(delivered[1], Message::Stop { time: 7 }));
}

#[test]
fn remove_failure_in_strict_mode_halts_before_later_frames() {
    let list = FrameList::from_entries(vec![entry("1.png"), entry("2.png")]);
    let mut runner = Runner::start(list, false);
    let mut opened: Vec<String> = Vec::new();
    loop {
        let ev = match runner.action() {
            RunAction::Send { .. } => RunEvent::Sent,
            RunAction::Open { path } => {
                opened.push(path);
                RunEvent::IoOk
            }
            RunAction::Copy { .. } => RunEvent::IoOk,
            RunAction::Remove { .. } => RunEvent::IoErr,
            RunAction::CloseAndWait => panic!("the run must not drain after a strict-mode deletion failure"),
            RunAction::Finished { result } => {
                // The surfaced error names the failing frame's id.
                assert_eq!(result, RunResult::Failed { fid: 1, stage: FrameStage::Remove });
                break;
            }
        };
        runner.step(ev);
    }
    // Frame 2 was never touched.
    assert_eq!(opened, vec!["/frames/1.png"]);
}

#[test]
fn remove_failure_in_tolerant_mode_leaves_the_run_successful() {
    let list = FrameList::from_entries(vec![entry("1.png"), entry("2.png")]);
    let mut runner = Runner::start(list, true);
    let mut copied: Vec<String> = Vec::new();
    loop {
        let ev = match runner.action() {
            RunAction::Send { .. } => RunEvent::Sent,
            RunAction::Open { .. } => RunEvent::IoOk,
            RunAction::Copy { path } => {
                copied.push(path);
                RunEvent::IoOk
            }
            // Every deletion fails; the files may remain on disk.
            RunAction::Remove { .. } => RunEvent::IoErr,
            RunAction::CloseAndWait => RunEvent::Exited { elapsed_ms: 3 },
            RunAction::Finished { result } => {
                assert_eq!(result, RunResult::Success);
                break;
            }
        };
        runner.step(ev);
    }
    assert_eq!(copied, vec!["/frames/1.png", "/frames/2.png"]);
}

#[test]
fn open_failure_names_the_frame_and_its_stage() {
    let list = FrameList::from_entries(vec![entry("31.png")]);
    let mut runner = Runner::start(list, false);
    loop {
        let ev = match runner.action() {
            RunAction::Send { .. } => RunEvent::Sent,
            RunAction::Open { .. } => RunEvent::IoErr,
            RunAction::Finished { result } => {
                assert_eq!(result, RunResult::Failed { fid: 31, stage: FrameStage::Open });
                break;
            }
            a => panic!("unexpected action {:?}", a),
        };
        runner.step(ev);
    }
    assert_eq!(FrameStage::Open.describe(), "failed to open frame");
    assert_eq!(FrameStage::Copy.describe(), "failed to stream frame");
    assert_eq!(FrameStage::Remove.describe(), "failed to remove frame");
}

#[test]
fn consumer_disappearance_ends_the_pump_without_error() {
    let list = FrameList::from_entries(vec![entry("1.png"), entry("2.png")]);
    let mut runner = Runner::start(list, false);
    let mut sends: usize = 0;
    loop {
        let ev = match runner.action() {
            RunAction::Send { .. } => {
                sends += 1;
                if sends == 2 {
                    // The consumer vanishes while frame 1 is announced.
                    RunEvent::Gone
                } else {
                    RunEvent::Sent
                }
            }
            RunAction::Finished { result } => {
                assert_eq!(result, RunResult::Success);
                break;
            }
            a => panic!("unexpected action {:?}", a),
        };
        runner.step(ev);
    }
    assert_eq!(sends, 2);
}

#[test]
fn mailbox_is_bounded_and_first_in_first_out() {
    let mut mailbox = Mailbox::new(2);
    assert!(mailbox.try_send(Message::Start { frames: 3 }));
    assert!(mailbox.try_send(Message::Frame { fid: 1, path: "p".to_string() }));
    // Full: the third message is refused — the sender must wait.
    assert!(!mailbox.try_send(Message::Stop { time: 0 }));
    assert_eq!(mailbox.len(), 2);
    assert!(matches!(mailbox.recv(), Some(Message::Start { frames: 3 })));
    assert!(mailbox.try_send(Message::Stop { time: 9 }));
    assert!(matches!(mailbox.recv(), Some(Message::Frame { fid: 1, .. })));
    assert!(matches!(mailbox.recv(), Some(Message::Stop { time: 9 })));
    assert!(mailbox.recv().is_none());
}
