//! The runner: the task that owns the spawned encoder process and pumps
//! each frame's bytes into its input pipe, strictly in index order, while
//! reporting lifecycle events through the mailbox.
//!
//! The runner is modelled as a state machine.  Each state calls for one
//! outside action — send a message, open, copy or remove a frame file,
//! or close the pipe and wait for the child — and the caller feeds the
//! action's outcome back as an event.  Every decision the pump takes
//! lives in [`next_phase`]; the caller contributes nothing but I/O.

use vstd::prelude::*;

use crate::framelist::{FrameList, FrameView};

verus! {

/// A lifecycle message from the runner to its consumers.
#[derive(Debug)]
pub enum Message {
    /// Sent first: the total number of frames this run will stream.
    Start { frames: u64 },
    /// One per frame, in ascending index order, before its bytes flow.
    Frame { fid: u64, path: String },
    /// Sent last: the run is over; `time` is the elapsed milliseconds.
    Stop { time: u64 },
}

/// Mathematical image of a [`Message`].
pub enum MessageView {
    Start { frames: u64 },
    Frame { fid: u64, path: Seq<char> },
    Stop { time: u64 },
}

impl View for Message {
    type V = MessageView;

    open spec fn view(&self) -> MessageView {
        match self {
            Message::Start { frames } => MessageView::Start { frames: *frames },
            Message::Frame { fid, path } => MessageView::Frame { fid: *fid, path: path@ },
            Message::Stop { time } => MessageView::Stop { time: *time },
        }
    }
}

/// The message announcing one frame.
pub open spec fn frame_msg(f: FrameView) -> MessageView {
    MessageView::Frame { fid: f.id, path: f.path }
}

/// The messages announcing a run of frames, in order.
pub open spec fn frame_msgs(fs: Seq<FrameView>) -> Seq<MessageView> {
    fs.map_values(|f: FrameView| frame_msg(f))
}

/// The step of per-frame work that failed.
#[derive(Debug, Clone, Copy, PartialEq, Eq, Structural)]
pub enum FrameStage {
    /// Opening the frame's file.
    Open,
    /// Streaming its bytes into the pipe.
    Copy,
    /// Deleting the consumed file.
    Remove,
}

/// What failed at each stage, in the words the run's error carries.
pub open spec fn stage_message(s: FrameStage) -> Seq<char> {
    match s {
        FrameStage::Open => "failed to open frame"@,
        FrameStage::Copy => "failed to stream frame"@,
        FrameStage::Remove => "failed to remove frame"@,
    }
}

impl FrameStage {
    /// The failure, in words, for the run's error chain.
    pub fn describe(&self) -> (r: String)
        ensures
            r@ == stage_message(*self),
    {
        match self {
            FrameStage::Open => String::from_str("failed to open frame"),
            FrameStage::Copy => String::from_str("failed to stream frame"),
            FrameStage::Remove => String::from_str("failed to remove frame"),
        }
    }
}

/// Where the pump stands.
#[derive(Debug, Clone, Copy, PartialEq, Eq, Structural)]
pub enum RunPhase {
    /// About to announce the run.
    SendStart,
    /// About to announce frame `idx`.
    SendFrame { idx: usize },
    /// About to open frame `idx`'s file.
    OpenFrame { idx: usize },
    /// About to stream frame `idx`'s bytes into the pipe.
    CopyFrame { idx: usize },
    /// About to delete frame `idx`'s file.
    RemoveFrame { idx: usize },
    /// All frames streamed; about to close the pipe and await the child.
    Drain,
    /// About to announce the end; `time` is the elapsed milliseconds.
    SendStop { time: u64 },
    /// Terminal: the run completed; every frame was streamed.
    DoneOk,
    /// Terminal: the consumer disappeared; the pump stopped silently.
    DoneEarly,
    /// Terminal: per-frame I/O failed on the frame with id `fid`.
    DoneFailed { fid: u64, stage: FrameStage },
}

/// The outcome of one outside action, fed back into the machine.
#[derive(Debug, Clone, Copy, PartialEq, Eq, Structural)]
pub enum RunEvent {
    /// The mailbox accepted the message.
    Sent,
    /// The mailbox's consumer has disappeared.
    Gone,
    /// The file operation succeeded.
    IoOk,
    /// The file operation failed.
    IoErr,
    /// The child process exited, after `elapsed_ms` milliseconds of run.
    Exited { elapsed_ms: u64 },
}

/// What the caller must do next on the machine's behalf.
#[derive(Debug)]
pub enum RunAction {
    /// Put this message into the mailbox; report `Sent` or `Gone`.
    Send { msg: Message },
    /// Open this frame file; report `IoOk` or `IoErr`.
    Open { path: String },
    /// Stream the opened file into the pipe; report `IoOk` or `IoErr`.
    Copy { path: String },
    /// Delete this frame file; report `IoOk` or `IoErr`.
    Remove { path: String },
    /// Close the pipe's write side and await the child; report `Exited`.
    CloseAndWait,
    /// Nothing: the run is over, successfully or not.
    Finished { result: RunResult },
}

/// The terminal result of a run.
#[derive(Debug, Clone, Copy, PartialEq, Eq, Structural)]
pub enum RunResult {
    /// The run ended without error (fully, or cut short by a vanished
    /// consumer, which is no error).
    Success,
    /// Per-frame I/O failed; `fid` names the failing frame.
    Failed { fid: u64, stage: FrameStage },
}

/// The phase after finishing frame `idx`: the next frame, or draining.
pub open spec fn advance(frames: Seq<FrameView>, idx: int) -> RunPhase {
    if idx + 1 == frames.len() {
        RunPhase::Drain
    } else {
        RunPhase::SendFrame { idx: (idx + 1) as usize }
    }
}

/// Which events an outside action can report back in each phase.
pub open spec fn expects(ph: RunPhase, ev: RunEvent) -> bool {
    match ph {
        RunPhase::SendStart => ev is Sent || ev is Gone,
        RunPhase::SendFrame { .. } => ev is Sent || ev is Gone,
        RunPhase::OpenFrame { .. } => ev is IoOk || ev is IoErr,
        RunPhase::CopyFrame { .. } => ev is IoOk || ev is IoErr,
        RunPhase::RemoveFrame { .. } => ev is IoOk || ev is IoErr,
        RunPhase::Drain => ev is Exited,
        RunPhase::SendStop { .. } => ev is Sent || ev is Gone,
        RunPhase::DoneOk => false,
        RunPhase::DoneEarly => false,
        RunPhase::DoneFailed { .. } => false,
    }
}

/// The pump's whole decision logic: one transition per outcome.
pub open spec fn next_phase(
    frames: Seq<FrameView>,
    delete_quirk: bool,
    ph: RunPhase,
    ev: RunEvent,
) -> RunPhase {
    match ph {
        RunPhase::SendStart => if ev is Gone {
            RunPhase::DoneEarly
        } else if frames.len() == 0 {
            RunPhase::Drain
        } else {
            RunPhase::SendFrame { idx: 0 }
        },
        RunPhase::SendFrame { idx } => if ev is Gone {
            RunPhase::DoneEarly
        } else {
            RunPhase::OpenFrame { idx }
        },
        RunPhase::OpenFrame { idx } => if ev is IoErr {
            RunPhase::DoneFailed { fid: frames[idx as int].id, stage: FrameStage::Open }
        } else {
            RunPhase::CopyFrame { idx }
        },
        RunPhase::CopyFrame { idx } => if ev is IoErr {
            RunPhase::DoneFailed { fid: frames[idx as int].id, stage: FrameStage::Copy }
        } else {
            RunPhase::RemoveFrame { idx }
        },
        RunPhase::RemoveFrame { idx } => if ev is IoErr && !delete_quirk {
            RunPhase::DoneFailed { fid: frames[idx as int].id, stage: FrameStage::Remove }
        } else {
            advance(frames, idx as int)
        },
        RunPhase::Drain => match ev {
            RunEvent::Exited { elapsed_ms } => RunPhase::SendStop { time: elapsed_ms },
            _ => ph,
        },
        RunPhase::SendStop { .. } => RunPhase::DoneOk,
        RunPhase::DoneOk => ph,
        RunPhase::DoneEarly => ph,
        RunPhase::DoneFailed { .. } => ph,
    }
}

/// The runner: the frame index it consumes, the deletion-failure policy,
/// and where its pump stands.
#[derive(Debug)]
pub struct Runner {
    pub frames: FrameList,
    pub delete_quirk: bool,
    pub phase: RunPhase,
}

impl Runner {
    /// Any frame index carried by the phase stays within the list.
    pub open spec fn wf(self) -> bool {
        match self.phase {
            RunPhase::SendFrame { idx } => idx < self.frames@.len(),
            RunPhase::OpenFrame { idx } => idx < self.frames@.len(),
            RunPhase::CopyFrame { idx } => idx < self.frames@.len(),
            RunPhase::RemoveFrame { idx } => idx < self.frames@.len(),
            _ => true,
        }
    }

    /// A fresh runner, about to announce the run.
    pub fn start(frames: FrameList, delete_quirk: bool) -> (r: Runner)
        ensures
            r.frames == frames,
            r.delete_quirk == delete_quirk,
            r.phase == RunPhase::SendStart,
            r.wf(),
    {
        Runner { frames, delete_quirk, phase: RunPhase::SendStart }
    }

    /// Feeds one outcome into the pump and moves it to its next phase.
    pub fn step(&mut self, ev: RunEvent)
        requires
            old(self).wf(),
            expects(old(self).phase, ev),
        ensures
            final(self).frames == old(self).frames,
            final(self).delete_quirk == old(self).delete_quirk,
            final(self).phase == next_phase(
                old(self).frames@,
                old(self).delete_quirk,
                old(self).phase,
                ev,
            ),
            final(self).wf(),
    {
        let next = match self.phase {
            RunPhase::SendStart => {
                if matches!(ev, RunEvent::Gone) {
                    RunPhase::DoneEarly
                } else if self.frames.len() == 0 {
                    RunPhase::Drain
                } else {
                    RunPhase::SendFrame { idx: 0 }
                }
            },
            RunPhase::SendFrame { idx } => {
                if matches!(ev, RunEvent::Gone) {
                    RunPhase::DoneEarly
                } else {
                    RunPhase::OpenFrame { idx }
                }
            },
            RunPhase::OpenFrame { idx } => {
                if matches!(ev, RunEvent::IoErr) {
                    RunPhase::DoneFailed {
                        fid: self.frames.frames[idx].0,
                        stage: FrameStage::Open,
                    }
                } else {
                    RunPhase::CopyFrame { idx }
                }
            },
            RunPhase::CopyFrame { idx } => {
                if matches!(ev, RunEvent::IoErr) {
                    RunPhase::DoneFailed {
                        fid: self.frames.frames[idx].0,
                        stage: FrameStage::Copy,
                    }
                } else {
                    RunPhase::RemoveFrame { idx }
                }
            },
            RunPhase::RemoveFrame { idx } => {
                if matches!(ev, RunEvent::IoErr) && !self.delete_quirk {
                    RunPhase::DoneFailed {
                        fid: self.frames.frames[idx].0,
                        stage: FrameStage::Remove,
                    }
                } else {
                    let n = self.frames.len();
                    if idx == n - 1 {
                        RunPhase::Drain
                    } else {
                        RunPhase::SendFrame { idx: idx + 1 }
                    }
                }
            },
            RunPhase::Drain => {
                match ev {
                    RunEvent::Exited { elapsed_ms } => RunPhase::SendStop { time: elapsed_ms },
                    _ => self.phase,
                }
            },
            RunPhase::SendStop { .. } => RunPhase::DoneOk,
            RunPhase::DoneOk => self.phase,
            RunPhase::DoneEarly => self.phase,
            RunPhase::DoneFailed { .. } => self.phase,
        };
        self.phase = next;
    }

    /// The action the current phase calls for, as spoken of in contracts.
    pub open spec fn action_spec(self, a: RunAction) -> bool {
        match self.phase {
            RunPhase::SendStart => a matches RunAction::Send { msg } && msg@
                == (MessageView::Start { frames: self.frames@.len() as u64 }),
            RunPhase::SendFrame { idx } => a matches RunAction::Send { msg } && msg@ == frame_msg(
                self.frames@[idx as int],
            ),
            RunPhase::OpenFrame { idx } => a matches RunAction::Open { path } && path@
                == self.frames@[idx as int].path,
            RunPhase::CopyFrame { idx } => a matches RunAction::Copy { path } && path@
                == self.frames@[idx as int].path,
            RunPhase::RemoveFrame { idx } => a matches RunAction::Remove { path } && path@
                == self.frames@[idx as int].path,
            RunPhase::Drain => a is CloseAndWait,
            RunPhase::SendStop { time } => a matches RunAction::Send { msg } && msg@
                == (MessageView::Stop { time }),
            RunPhase::DoneOk => a matches RunAction::Finished { result: RunResult::Success },
            RunPhase::DoneEarly => a matches RunAction::Finished { result: RunResult::Success },
            RunPhase::DoneFailed { fid, stage } => a matches RunAction::Finished {
                result: RunResult::Failed { fid: f, stage: s },
            } && f == fid && s == stage,
        }
    }

    /// What the caller must do next: the one action this phase calls for.
    pub fn action(&self) -> (a: RunAction)
        requires
            self.wf(),
        ensures
            self.action_spec(a),
    {
        match self.phase {
            RunPhase::SendStart => RunAction::Send {
                msg: Message::Start { frames: self.frames.len() as u64 },
            },
            RunPhase::SendFrame { idx } => RunAction::Send {
                msg: Message::Frame {
                    fid: self.frames.frames[idx].0,
                    path: self.frames.frames[idx].1.clone(),
                },
            },
            RunPhase::OpenFrame { idx } => RunAction::Open {
                path: self.frames.frames[idx].1.clone(),
            },
            RunPhase::CopyFrame { idx } => RunAction::Copy {
                path: self.frames.frames[idx].1.clone(),
            },
            RunPhase::RemoveFrame { idx } => RunAction::Remove {
                path: self.frames.frames[idx].1.clone(),
            },
            RunPhase::Drain => RunAction::CloseAndWait,
            RunPhase::SendStop { time } => RunAction::Send { msg: Message::Stop { time } },
            RunPhase::DoneOk => RunAction::Finished { result: RunResult::Success },
            RunPhase::DoneEarly => RunAction::Finished { result: RunResult::Success },
            RunPhase::DoneFailed { fid, stage } => RunAction::Finished {
                result: RunResult::Failed { fid, stage },
            },
        }
    }
}

/// The phase after a whole event history, starting from `SendStart`.
pub open spec fn run_phase(frames: Seq<FrameView>, quirk: bool, evs: Seq<RunEvent>) -> RunPhase
    decreases evs.len(),
{
    if evs.len() == 0 {
        RunPhase::SendStart
    } else {
        next_phase(frames, quirk, run_phase(frames, quirk, evs.drop_last()), evs.last())
    }
}

/// Every event of the history fits the phase it arrived in.
pub open spec fn valid_events(frames: Seq<FrameView>, quirk: bool, evs: Seq<RunEvent>) -> bool
    decreases evs.len(),
{
    evs.len() == 0 || (valid_events(frames, quirk, evs.drop_last()) && expects(
        run_phase(frames, quirk, evs.drop_last()),
        evs.last(),
    ))
}

/// The messages delivered by one step: one, when a send phase hears that
/// the mailbox took its message.
pub open spec fn msgs_of_step(frames: Seq<FrameView>, ph: RunPhase, ev: RunEvent) -> Seq<
    MessageView,
> {
    if ev is Sent {
        match ph {
            RunPhase::SendStart => seq![
                MessageView::Start { frames: frames.len() as u64 },
            ],
            RunPhase::SendFrame { idx } => seq![frame_msg(frames[idx as int])],
            RunPhase::SendStop { time } => seq![MessageView::Stop { time }],
            _ => Seq::empty(),
        }
    } else {
        Seq::empty()
    }
}

/// All messages delivered over a history, in order.
pub open spec fn run_msgs(frames: Seq<FrameView>, quirk: bool, evs: Seq<RunEvent>) -> Seq<
    MessageView,
>
    decreases evs.len(),
{
    if evs.len() == 0 {
        Seq::empty()
    } else {
        run_msgs(frames, quirk, evs.drop_last()) + msgs_of_step(
            frames,
            run_phase(frames, quirk, evs.drop_last()),
            evs.last(),
        )
    }
}

/// The frames whose bytes one step put into the pipe.
pub open spec fn copies_of_step(frames: Seq<FrameView>, ph: RunPhase, ev: RunEvent) -> Seq<
    FrameView,
> {
    match ph {
        RunPhase::CopyFrame { idx } => if ev is IoOk {
            seq![frames[idx as int]]
        } else {
            Seq::empty()
        },
        _ => Seq::empty(),
    }
}

/// All frames streamed into the pipe over a history, in order.
pub open spec fn run_copies(frames: Seq<FrameView>, quirk: bool, evs: Seq<RunEvent>) -> Seq<
    FrameView,
>
    decreases evs.len(),
{
    if evs.len() == 0 {
        Seq::empty()
    } else {
        run_copies(frames, quirk, evs.drop_last()) + copies_of_step(
            frames,
            run_phase(frames, quirk, evs.drop_last()),
            evs.last(),
        )
    }
}

/// The frames one step deleted from disk.
pub open spec fn removes_of_step(frames: Seq<FrameView>, ph: RunPhase, ev: RunEvent) -> Seq<
    FrameView,
> {
    match ph {
        RunPhase::RemoveFrame { idx } => if ev is IoOk {
            seq![frames[idx as int]]
        } else {
            Seq::empty()
        },
        _ => Seq::empty(),
    }
}

/// All frames deleted over a history, in order.
pub open spec fn run_removes(frames: Seq<FrameView>, quirk: bool, evs: Seq<RunEvent>) -> Seq<
    FrameView,
>
    decreases evs.len(),
{
    if evs.len() == 0 {
        Seq::empty()
    } else {
        run_removes(frames, quirk, evs.drop_last()) + removes_of_step(
            frames,
            run_phase(frames, quirk, evs.drop_last()),
            evs.last(),
        )
    }
}

/// The one message that opens every run.
pub open spec fn start_msg(frames: Seq<FrameView>) -> Seq<MessageView> {
    seq![MessageView::Start { frames: frames.len() as u64 }]
}

/// What each phase tells about the traces so far: how many frames were
/// announced, streamed and deleted, always a prefix, always in order.
pub open spec fn run_inv(frames: Seq<FrameView>, quirk: bool, evs: Seq<RunEvent>) -> bool {
    let ph = run_phase(frames, quirk, evs);
    let msgs = run_msgs(frames, quirk, evs);
    let copies = run_copies(frames, quirk, evs);
    let removes = run_removes(frames, quirk, evs);
    match ph {
        RunPhase::SendStart => msgs == Seq::<MessageView>::empty() && copies == Seq::<
            FrameView,
        >::empty() && removes == Seq::<FrameView>::empty(),
        RunPhase::SendFrame { idx } => 0 <= idx < frames.len() && msgs == start_msg(frames)
            + frame_msgs(frames.take(idx as int)) && copies == frames.take(idx as int) && (!quirk
            ==> removes == frames.take(idx as int)),
        RunPhase::OpenFrame { idx } => 0 <= idx < frames.len() && msgs == start_msg(frames)
            + frame_msgs(frames.take(idx + 1)) && copies == frames.take(idx as int) && (!quirk
            ==> removes == frames.take(idx as int)),
        RunPhase::CopyFrame { idx } => 0 <= idx < frames.len() && msgs == start_msg(frames)
            + frame_msgs(frames.take(idx + 1)) && copies == frames.take(idx as int) && (!quirk
            ==> removes == frames.take(idx as int)),
        RunPhase::RemoveFrame { idx } => 0 <= idx < frames.len() && msgs == start_msg(frames)
            + frame_msgs(frames.take(idx + 1)) && copies == frames.take(idx + 1) && (!quirk
            ==> removes == frames.take(idx as int)),
        RunPhase::Drain => msgs == start_msg(frames) + frame_msgs(frames) && copies == frames && (
        !quirk ==> removes == frames),
        RunPhase::SendStop { .. } => msgs == start_msg(frames) + frame_msgs(frames) && copies
            == frames && (!quirk ==> removes == frames),
        RunPhase::DoneOk => copies == frames && (!quirk ==> removes == frames) && ((exists|t: u64|
            msgs == start_msg(frames) + frame_msgs(frames) + seq![MessageView::Stop { time: t }])
            || (msgs == start_msg(frames) + frame_msgs(frames) && evs.contains(RunEvent::Gone))),
        RunPhase::DoneEarly => evs.contains(RunEvent::Gone) && ((msgs == Seq::<
            MessageView,
        >::empty() && copies == Seq::<FrameView>::empty() && removes == Seq::<
            FrameView,
        >::empty()) || (exists|m: int|
            #![auto]
            0 <= m <= frames.len() && msgs == start_msg(frames) + frame_msgs(frames.take(m))
                && copies == frames.take(m) && (!quirk ==> removes == frames.take(m)))),
        RunPhase::DoneFailed { fid, stage } => exists|idx: int|
            #![auto]
            0 <= idx < frames.len() && fid == frames[idx].id && match stage {
                FrameStage::Open => msgs == start_msg(frames) + frame_msgs(frames.take(idx + 1))
                    && copies == frames.take(idx) && (!quirk ==> removes == frames.take(idx)),
                FrameStage::Copy => msgs == start_msg(frames) + frame_msgs(frames.take(idx + 1))
                    && copies == frames.take(idx) && (!quirk ==> removes == frames.take(idx)),
                FrameStage::Remove => !quirk && msgs == start_msg(frames) + frame_msgs(
                    frames.take(idx + 1),
                ) && copies == frames.take(idx + 1) && removes == frames.take(idx),
            },
    }
}

/// Extending a history by one event extends what it contains.
proof fn lemma_contains_push(evs: Seq<RunEvent>, x: RunEvent, y: RunEvent)
    requires
        evs.contains(x) || x == y,
    ensures
        evs.push(y).contains(x),
{
    if x == y {
        assert(evs.push(y)[evs.len() as int] == y);
    } else {
        let i = choose|i: int| 0 <= i < evs.len() && evs[i] == x;
        assert(evs.push(y)[i] == x);
    }
}

/// Announcing, streaming or deleting one more frame extends the trace's
/// prefix by exactly that frame.
proof fn lemma_take_one_more(frames: Seq<FrameView>, idx: int)
    requires
        0 <= idx < frames.len(),
    ensures
        frames.take(idx + 1) =~= frames.take(idx).push(frames[idx]),
        frame_msgs(frames.take(idx + 1)) =~= frame_msgs(frames.take(idx)).push(
            frame_msg(frames[idx]),
        ),
{
    assert(frames.take(idx + 1) =~= frames.take(idx).push(frames[idx]));
}

/// The pump's history invariant: however a valid run unfolds, the
/// messages, the streamed frames and the deleted frames are the prefixes
/// that the current phase dictates.
/// One step of the invariant, from a phase that is about to send.
proof fn lemma_step_from_send_start(
    frames: Seq<FrameView>,
    quirk: bool,
    pre: Seq<RunEvent>,
    ev: RunEvent,
)
    requires
        frames.len() <= usize::MAX,
        run_inv(frames, quirk, pre),
        run_phase(frames, quirk, pre) is SendStart,
        expects(run_phase(frames, quirk, pre), ev),
    ensures
        run_inv(frames, quirk, pre.push(ev)),
{
    let evs = pre.push(ev);
    assert(evs.drop_last() =~= pre);
    let msgs = run_msgs(frames, quirk, pre);
    assert(run_copies(frames, quirk, evs) =~= run_copies(frames, quirk, pre));
    assert(run_removes(frames, quirk, evs) =~= run_removes(frames, quirk, pre));
    if ev is Gone {
        lemma_contains_push(pre, RunEvent::Gone, ev);
        assert(run_msgs(frames, quirk, evs) =~= msgs);
        assert(run_msgs(frames, quirk, evs) == Seq::<MessageView>::empty());
    } else if frames.len() == 0 {
        assert(frame_msgs(frames).len() == 0);
        assert(run_msgs(frames, quirk, evs) =~= start_msg(frames) + frame_msgs(frames));
        assert(run_copies(frames, quirk, evs) =~= frames);
        assert(run_removes(frames, quirk, evs) =~= frames);
    } else {
        assert(frame_msgs(frames.take(0)).len() == 0);
        assert(run_msgs(frames, quirk, evs) =~= start_msg(frames) + frame_msgs(frames.take(0)));
        assert(run_copies(frames, quirk, evs) =~= frames.take(0));
        assert(run_removes(frames, quirk, evs) =~= frames.take(0));
    }
}

/// One step of the invariant, from a phase announcing a frame.
proof fn lemma_step_from_send_frame(
    frames: Seq<FrameView>,
    quirk: bool,
    pre: Seq<RunEvent>,
    ev: RunEvent,
)
    requires
        frames.len() <= usize::MAX,
        run_inv(frames, quirk, pre),
        run_phase(frames, quirk, pre) is SendFrame,
        expects(run_phase(frames, quirk, pre), ev),
    ensures
        run_inv(frames, quirk, pre.push(ev)),
{
    let evs = pre.push(ev);
    assert(evs.drop_last() =~= pre);
    let idx = run_phase(frames, quirk, pre)->SendFrame_idx;
    let msgs = run_msgs(frames, quirk, pre);
    assert(run_copies(frames, quirk, evs) =~= run_copies(frames, quirk, pre));
    assert(run_removes(frames, quirk, evs) =~= run_removes(frames, quirk, pre));
    if ev is Gone {
        lemma_contains_push(pre, RunEvent::Gone, ev);
        assert(run_msgs(frames, quirk, evs) =~= msgs);
        let m = idx as int;
        assert(0 <= m <= frames.len() && run_msgs(frames, quirk, evs) == start_msg(frames)
            + frame_msgs(frames.take(m)) && run_copies(frames, quirk, evs) == frames.take(m) && (
        !quirk ==> run_removes(frames, quirk, evs) == frames.take(m)));
    } else {
        lemma_take_one_more(frames, idx as int);
        assert(run_msgs(frames, quirk, evs) =~= start_msg(frames) + frame_msgs(
            frames.take(idx + 1),
        ));
    }
}

/// One step of the invariant, from a phase opening a frame file.
proof fn lemma_step_from_open(
    frames: Seq<FrameView>,
    quirk: bool,
    pre: Seq<RunEvent>,
    ev: RunEvent,
)
    requires
        frames.len() <= usize::MAX,
        run_inv(frames, quirk, pre),
        run_phase(frames, quirk, pre) is OpenFrame,
        expects(run_phase(frames, quirk, pre), ev),
    ensures
        run_inv(frames, quirk, pre.push(ev)),
{
    let evs = pre.push(ev);
    assert(evs.drop_last() =~= pre);
    let idx = run_phase(frames, quirk, pre)->OpenFrame_idx;
    assert(run_msgs(frames, quirk, evs) =~= run_msgs(frames, quirk, pre));
    assert(run_copies(frames, quirk, evs) =~= run_copies(frames, quirk, pre));
    assert(run_removes(frames, quirk, evs) =~= run_removes(frames, quirk, pre));
    if ev is IoErr {
        let w = idx as int;
        assert(0 <= w < frames.len() && frames[w].id == frames[w].id && run_msgs(
            frames,
            quirk,
            evs,
        ) == start_msg(frames) + frame_msgs(frames.take(w + 1)) && run_copies(frames, quirk, evs)
            == frames.take(w) && (!quirk ==> run_removes(frames, quirk, evs) == frames.take(w)));
    }
}

/// One step of the invariant, from a phase streaming a frame's bytes.
proof fn lemma_step_from_copy(
    frames: Seq<FrameView>,
    quirk: bool,
    pre: Seq<RunEvent>,
    ev: RunEvent,
)
    requires
        frames.len() <= usize::MAX,
        run_inv(frames, quirk, pre),
        run_phase(frames, quirk, pre) is CopyFrame,
        expects(run_phase(frames, quirk, pre), ev),
    ensures
        run_inv(frames, quirk, pre.push(ev)),
{
    let evs = pre.push(ev);
    assert(evs.drop_last() =~= pre);
    let idx = run_phase(frames, quirk, pre)->CopyFrame_idx;
    assert(run_msgs(frames, quirk, evs) =~= run_msgs(frames, quirk, pre));
    assert(run_removes(frames, quirk, evs) =~= run_removes(frames, quirk, pre));
    if ev is IoOk {
        lemma_take_one_more(frames, idx as int);
        assert(run_copies(frames, quirk, evs) =~= frames.take(idx + 1));
    } else {
        assert(run_copies(frames, quirk, evs) =~= run_copies(frames, quirk, pre));
        let w = idx as int;
        assert(0 <= w < frames.len() && frames[w].id == frames[w].id && run_msgs(
            frames,
            quirk,
            evs,
        ) == start_msg(frames) + frame_msgs(frames.take(w + 1)) && run_copies(frames, quirk, evs)
            == frames.take(w) && (!quirk ==> run_removes(frames, quirk, evs) == frames.take(w)));
    }
}

/// One step of the invariant, from a phase deleting a frame file.
proof fn lemma_step_from_remove(
    frames: Seq<FrameView>,
    quirk: bool,
    pre: Seq<RunEvent>,
    ev: RunEvent,
)
    requires
        frames.len() <= usize::MAX,
        run_inv(frames, quirk, pre),
        run_phase(frames, quirk, pre) is RemoveFrame,
        expects(run_phase(frames, quirk, pre), ev),
    ensures
        run_inv(frames, quirk, pre.push(ev)),
{
    let evs = pre.push(ev);
    assert(evs.drop_last() =~= pre);
    let idx = run_phase(frames, quirk, pre)->RemoveFrame_idx;
    assert(run_msgs(frames, quirk, evs) =~= run_msgs(frames, quirk, pre));
    assert(run_copies(frames, quirk, evs) =~= run_copies(frames, quirk, pre));
    lemma_take_one_more(frames, idx as int);
    if ev is IoErr && !quirk {
        assert(run_removes(frames, quirk, evs) =~= run_removes(frames, quirk, pre));
        let w = idx as int;
        assert(0 <= w < frames.len() && frames[w].id == frames[w].id && !quirk && run_msgs(
            frames,
            quirk,
            evs,
        ) == start_msg(frames) + frame_msgs(frames.take(w + 1)) && run_copies(frames, quirk, evs)
            == frames.take(w + 1) && run_removes(frames, quirk, evs) == frames.take(w));
    } else {
        if ev is IoOk {
            assert(run_removes(frames, quirk, evs) =~= run_removes(frames, quirk, pre).push(
                frames[idx as int],
            ));
        } else {
            assert(run_removes(frames, quirk, evs) =~= run_removes(frames, quirk, pre));
        }
        if idx + 1 == frames.len() {
            assert(frames.take(idx + 1) =~= frames);
        }
    }
}

/// One step of the invariant, from the draining phase.
proof fn lemma_step_from_drain(
    frames: Seq<FrameView>,
    quirk: bool,
    pre: Seq<RunEvent>,
    ev: RunEvent,
)
    requires
        frames.len() <= usize::MAX,
        run_inv(frames, quirk, pre),
        run_phase(frames, quirk, pre) is Drain,
        expects(run_phase(frames, quirk, pre), ev),
    ensures
        run_inv(frames, quirk, pre.push(ev)),
{
    let evs = pre.push(ev);
    assert(evs.drop_last() =~= pre);
    assert(run_msgs(frames, quirk, evs) =~= run_msgs(frames, quirk, pre));
    assert(run_copies(frames, quirk, evs) =~= run_copies(frames, quirk, pre));
    assert(run_removes(frames, quirk, evs) =~= run_removes(frames, quirk, pre));
}

/// One step of the invariant, from the phase announcing the end.
proof fn lemma_step_from_send_stop(
    frames: Seq<FrameView>,
    quirk: bool,
    pre: Seq<RunEvent>,
    ev: RunEvent,
)
    requires
        frames.len() <= usize::MAX,
        run_inv(frames, quirk, pre),
        run_phase(frames, quirk, pre) is SendStop,
        expects(run_phase(frames, quirk, pre), ev),
    ensures
        run_inv(frames, quirk, pre.push(ev)),
{
    let evs = pre.push(ev);
    assert(evs.drop_last() =~= pre);
    let time = run_phase(frames, quirk, pre)->SendStop_time;
    assert(run_copies(frames, quirk, evs) =~= run_copies(frames, quirk, pre));
    assert(run_removes(frames, quirk, evs) =~= run_removes(frames, quirk, pre));
    if ev is Sent {
        assert(run_msgs(frames, quirk, evs) =~= start_msg(frames) + frame_msgs(frames) + seq![
            MessageView::Stop { time },
        ]);
        assert(exists|t: u64|
            run_msgs(frames, quirk, evs) == start_msg(frames) + frame_msgs(frames) + seq![
                MessageView::Stop { time: t },
            ]) by {
            assert(run_msgs(frames, quirk, evs) == start_msg(frames) + frame_msgs(frames) + seq![
                MessageView::Stop { time },
            ]);
        }
    } else {
        lemma_contains_push(pre, RunEvent::Gone, ev);
        assert(run_msgs(frames, quirk, evs) =~= run_msgs(frames, quirk, pre));
    }
}

/// The pump's history invariant: however a valid run unfolds, the
/// messages, the streamed frames and the deleted frames are the prefixes
/// that the current phase dictates.
pub proof fn lemma_run_inv(frames: Seq<FrameView>, quirk: bool, evs: Seq<RunEvent>)
    requires
        frames.len() <= usize::MAX,
        valid_events(frames, quirk, evs),
    ensures
        run_inv(frames, quirk, evs),
    decreases evs.len(),
{
    if evs.len() == 0 {
    } else {
        let pre = evs.drop_last();
        let ev = evs.last();
        lemma_run_inv(frames, quirk, pre);
        assert(pre.push(ev) =~= evs);
        match run_phase(frames, quirk, pre) {
            RunPhase::SendStart => lemma_step_from_send_start(frames, quirk, pre, ev),
            RunPhase::SendFrame { .. } => lemma_step_from_send_frame(frames, quirk, pre, ev),
            RunPhase::OpenFrame { .. } => lemma_step_from_open(frames, quirk, pre, ev),
            RunPhase::CopyFrame { .. } => lemma_step_from_copy(frames, quirk, pre, ev),
            RunPhase::RemoveFrame { .. } => lemma_step_from_remove(frames, quirk, pre, ev),
            RunPhase::Drain => lemma_step_from_drain(frames, quirk, pre, ev),
            RunPhase::SendStop { .. } => lemma_step_from_send_stop(frames, quirk, pre, ev),
            RunPhase::DoneOk => assert(false),
            RunPhase::DoneEarly => assert(false),
            RunPhase::DoneFailed { .. } => assert(false),
        }
    }
}

/// Exactly one `Start`, first; then every frame's message in ascending
/// index order; exactly one `Stop`, last.  This is the event stream of a
/// completed run whose consumer never went away.
pub proof fn lemma_event_stream(frames: Seq<FrameView>, quirk: bool, evs: Seq<RunEvent>)
    requires
        frames.len() <= usize::MAX,
        valid_events(frames, quirk, evs),
        run_phase(frames, quirk, evs) == RunPhase::DoneOk,
        forall|i: int| 0 <= i < evs.len() ==> evs[i] != RunEvent::Gone,
    ensures
        exists|t: u64|
            run_msgs(frames, quirk, evs) == start_msg(frames) + frame_msgs(frames) + seq![
                MessageView::Stop { time: t },
            ],
        run_msgs(frames, quirk, evs).len() == frames.len() + 2,
{
    lemma_run_inv(frames, quirk, evs);
    if run_msgs(frames, quirk, evs) == start_msg(frames) + frame_msgs(frames) && evs.contains(
        RunEvent::Gone,
    ) {
        let i = choose|i: int| 0 <= i < evs.len() && evs[i] == RunEvent::Gone;
        assert(false);
    }
    let t = choose|t: u64|
        run_msgs(frames, quirk, evs) == start_msg(frames) + frame_msgs(frames) + seq![
            MessageView::Stop { time: t },
        ];
    assert(run_msgs(frames, quirk, evs).len() == frames.len() + 2);
}

/// A completed run streamed every frame's bytes, each exactly once, in
/// ascending index order — the pipe saw the concatenation of the frame
/// files in the index's order.
pub proof fn lemma_full_run_copies_all(frames: Seq<FrameView>, quirk: bool, evs: Seq<RunEvent>)
    requires
        frames.len() <= usize::MAX,
        valid_events(frames, quirk, evs),
        run_phase(frames, quirk, evs) == RunPhase::DoneOk,
    ensures
        run_copies(frames, quirk, evs) == frames,
{
    lemma_run_inv(frames, quirk, evs);
}

/// At every moment of every valid run, the frames streamed so far are a
/// prefix of the index: a frame's bytes never start flowing before all
/// earlier frames' bytes have fully flowed.
pub proof fn lemma_copies_prefix(frames: Seq<FrameView>, quirk: bool, evs: Seq<RunEvent>)
    requires
        frames.len() <= usize::MAX,
        valid_events(frames, quirk, evs),
    ensures
        exists|m: int|
            #![auto]
            0 <= m <= frames.len() && run_copies(frames, quirk, evs) == frames.take(m),
{
    lemma_run_inv(frames, quirk, evs);
    let copies = run_copies(frames, quirk, evs);
    match run_phase(frames, quirk, evs) {
        RunPhase::SendStart => {
            assert(copies =~= frames.take(0));
        },
        RunPhase::DoneEarly => {
            if copies == Seq::<FrameView>::empty() {
                assert(copies =~= frames.take(0));
            }
        },
        RunPhase::Drain => {
            assert(copies =~= frames.take(frames.len() as int));
        },
        RunPhase::SendStop { .. } => {
            assert(copies =~= frames.take(frames.len() as int));
        },
        RunPhase::DoneOk => {
            assert(copies =~= frames.take(frames.len() as int));
        },
        _ => {},
    }
}

/// In strict mode, a completed run deleted every frame file.
pub proof fn lemma_success_removes_all(frames: Seq<FrameView>, evs: Seq<RunEvent>)
    requires
        frames.len() <= usize::MAX,
        valid_events(frames, false, evs),
        run_phase(frames, false, evs) == RunPhase::DoneOk,
    ensures
        run_removes(frames, false, evs) == frames,
{
    lemma_run_inv(frames, false, evs);
}

/// In tolerant mode a deletion failure changes nothing: the pump moves
/// on exactly as if the deletion had succeeded.
pub proof fn lemma_tolerant_remove_failure_continues(frames: Seq<FrameView>, idx: usize)
    requires
        idx < frames.len(),
    ensures
        next_phase(frames, true, RunPhase::RemoveFrame { idx }, RunEvent::IoErr) == next_phase(
            frames,
            true,
            RunPhase::RemoveFrame { idx },
            RunEvent::IoOk,
        ),
        next_phase(frames, true, RunPhase::RemoveFrame { idx }, RunEvent::IoErr) == advance(
            frames,
            idx as int,
        ),
{
}

/// In strict mode a deletion failure halts the run at once: the error
/// names the failing frame's id, no later frame is ever streamed, and no
/// further event is accepted.
pub proof fn lemma_remove_failure_halts(frames: Seq<FrameView>, evs: Seq<RunEvent>, idx: usize)
    requires
        frames.len() <= usize::MAX,
        valid_events(frames, false, evs),
        run_phase(frames, false, evs) == (RunPhase::RemoveFrame { idx }),
    ensures
        run_phase(frames, false, evs.push(RunEvent::IoErr)) == (RunPhase::DoneFailed {
            fid: frames[idx as int].id,
            stage: FrameStage::Remove,
        }),
        run_copies(frames, false, evs.push(RunEvent::IoErr)) == frames.take(idx + 1),
        run_removes(frames, false, evs.push(RunEvent::IoErr)) == frames.take(idx as int),
        forall|ev: RunEvent|
            !expects(run_phase(frames, false, evs.push(RunEvent::IoErr)), ev),
{
    lemma_run_inv(frames, false, evs);
    let evs2 = evs.push(RunEvent::IoErr);
    assert(evs2.drop_last() =~= evs);
    assert(evs2.last() == RunEvent::IoErr);
    assert(run_copies(frames, false, evs2) =~= run_copies(frames, false, evs));
    assert(run_removes(frames, false, evs2) =~= run_removes(frames, false, evs));
}

} // verus!
