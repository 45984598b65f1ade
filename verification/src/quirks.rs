//! The progress watchdog: an independent sampler that once per second
//! takes whatever message last landed in its single-slot cell and, when
//! something new arrived, persists a progress snapshot.  Pushes into the
//! cell overwrite; between samples all but the latest message are lost by
//! design — only the newest state matters for a progress file.
//!
//! This module holds every decision the watchdog takes and every byte it
//! writes; the caller contributes the timer, the cell and the file I/O.

use vstd::prelude::*;

use crate::json::{json_string, json_string_array, push_json_string, push_json_string_array,
    strings_view};
use crate::numerals::{dec_numeral, push_u64_dec};

verus! {

/// A message forwarded into the watchdog's cell.
#[derive(Debug)]
pub enum QuirksMessage {
    /// The run began, with this many frames ahead.
    Start { frames: u64 },
    /// A frame was announced by the runner.
    Frame { fid: u64, path: String },
    /// The run finished, after `time` milliseconds.
    Stop { time: u64 },
    /// The run failed; the chain of causes, outermost first.
    Error { error: Vec<String> },
}

/// Mathematical image of a [`QuirksMessage`].
pub enum QuirksMessageView {
    Start { frames: u64 },
    Frame { fid: u64, path: Seq<char> },
    Stop { time: u64 },
    Error { error: Seq<Seq<char>> },
}

impl View for QuirksMessage {
    type V = QuirksMessageView;

    open spec fn view(&self) -> QuirksMessageView {
        match self {
            QuirksMessage::Start { frames } => QuirksMessageView::Start { frames: *frames },
            QuirksMessage::Frame { fid, path } => QuirksMessageView::Frame {
                fid: *fid,
                path: path@,
            },
            QuirksMessage::Stop { time } => QuirksMessageView::Stop { time: *time },
            QuirksMessage::Error { error } => QuirksMessageView::Error {
                error: strings_view(error@),
            },
        }
    }
}

/// The image of what the watchdog's cell held, if anything.
pub open spec fn cell_view(m: Option<QuirksMessage>) -> Option<QuirksMessageView> {
    match m {
        Some(q) => Some(q@),
        None => None,
    }
}

/// How far the run has come, as the progress file tells it.
#[derive(Debug)]
pub enum Status {
    /// Frames are still being streamed.
    Rendering,
    /// The run ended without error.
    Done,
    /// The run failed; the chain of causes, outermost first.
    Error { error_chain: Vec<String> },
}

/// Mathematical image of a [`Status`].
pub enum StatusView {
    Rendering,
    Done,
    Error { error_chain: Seq<Seq<char>> },
}

impl View for Status {
    type V = StatusView;

    open spec fn view(&self) -> StatusView {
        match self {
            Status::Rendering => StatusView::Rendering,
            Status::Done => StatusView::Done,
            Status::Error { error_chain } => StatusView::Error {
                error_chain: strings_view(error_chain@),
            },
        }
    }
}

/// One progress snapshot, the sole externally durable sign of liveness.
/// Every write fully replaces the file's prior content.
#[derive(Debug)]
pub struct ProgressSnapshot {
    pub status: Status,
    pub frames: u64,
    pub total: u64,
    pub path: String,
}

/// Mathematical image of a [`ProgressSnapshot`].
pub struct SnapshotView {
    pub status: StatusView,
    pub frames: u64,
    pub total: u64,
    pub path: Seq<char>,
}

impl View for ProgressSnapshot {
    type V = SnapshotView;

    open spec fn view(&self) -> SnapshotView {
        SnapshotView { status: self.status@, frames: self.frames, total: self.total, path: self.path@ }
    }
}

/// The exact text of a snapshot's JSON object: the status tag first,
/// the cause chain right after it when the run failed, then the frame
/// count, the total and the current path.
pub open spec fn snapshot_json(s: SnapshotView) -> Seq<char> {
    match s.status {
        StatusView::Rendering => "{\"status\":\"rendering\",\"frames\":"@ + dec_numeral(
            s.frames as int,
        ) + ",\"total\":"@ + dec_numeral(s.total as int) + ",\"path\":"@ + json_string(s.path)
            + "}"@,
        StatusView::Done => "{\"status\":\"done\",\"frames\":"@ + dec_numeral(s.frames as int)
            + ",\"total\":"@ + dec_numeral(s.total as int) + ",\"path\":"@ + json_string(s.path)
            + "}"@,
        StatusView::Error { error_chain } => "{\"status\":\"error\",\"error_chain\":"@
            + json_string_array(error_chain) + ",\"frames\":"@ + dec_numeral(s.frames as int)
            + ",\"total\":"@ + dec_numeral(s.total as int) + ",\"path\":"@ + json_string(s.path)
            + "}"@,
    }
}

impl ProgressSnapshot {
    /// Renders the snapshot as the JSON object the progress file holds.
    pub fn render_json(&self) -> (r: String)
        ensures
            r@ == snapshot_json(self@),
    {
        let mut out = String::new();
        match &self.status {
            Status::Rendering => {
                out.append("{\"status\":\"rendering\",\"frames\":");
            },
            Status::Done => {
                out.append("{\"status\":\"done\",\"frames\":");
            },
            Status::Error { error_chain } => {
                out.append("{\"status\":\"error\",\"error_chain\":");
                push_json_string_array(&mut out, error_chain);
                out.append(",\"frames\":");
            },
        }
        push_u64_dec(&mut out, self.frames);
        out.append(",\"total\":");
        push_u64_dec(&mut out, self.total);
        out.append(",\"path\":");
        push_json_string(&mut out, self.path.as_str());
        out.append("}");
        proof {
            assert(out@ =~= snapshot_json(self@));
        }
        out
    }
}

/// The watchdog's own state: the run's size and the frames seen so far.
#[derive(Debug)]
pub struct KeysightQuirks {
    pub total: u64,
    pub frames: u64,
}

/// What one timer sample decides: what to write, and whether to exit.
#[derive(Debug)]
pub struct TickOutcome {
    pub write: Option<ProgressSnapshot>,
    pub finished: bool,
}

/// The image of what a sample decided to write, if anything.
pub open spec fn write_view(w: Option<ProgressSnapshot>) -> Option<SnapshotView> {
    match w {
        Some(s) => Some(s@),
        None => None,
    }
}

/// The frame counter after a sample: a frame message moves it, all else
/// leaves it.
pub open spec fn tick_frames(frames: u64, m: Option<QuirksMessageView>) -> u64 {
    match m {
        Some(QuirksMessageView::Frame { fid, .. }) => fid,
        _ => frames,
    }
}

/// What a timer sample writes: a `rendering` snapshot for a frame
/// message, an `error` snapshot for an error message, nothing otherwise.
pub open spec fn tick_write(frames: u64, total: u64, m: Option<QuirksMessageView>) -> Option<
    SnapshotView,
> {
    match m {
        Some(QuirksMessageView::Frame { fid, path }) => Some(
            SnapshotView { status: StatusView::Rendering, frames: fid, total, path },
        ),
        Some(QuirksMessageView::Error { error }) => Some(
            SnapshotView {
                status: StatusView::Error { error_chain: error },
                frames,
                total,
                path: Seq::empty(),
            },
        ),
        _ => None,
    }
}

/// A timer sample exits the loop only on an error message.
pub open spec fn tick_finished(m: Option<QuirksMessageView>) -> bool {
    m matches Some(QuirksMessageView::Error { .. })
}

/// The final snapshot on stop: `error` with the pushed cause chain if
/// one was pushed, `done` otherwise.
pub open spec fn stop_write(frames: u64, total: u64, m: Option<QuirksMessageView>) -> SnapshotView {
    match m {
        Some(QuirksMessageView::Error { error }) => SnapshotView {
            status: StatusView::Error { error_chain: error },
            frames,
            total,
            path: Seq::empty(),
        },
        _ => SnapshotView { status: StatusView::Done, frames, total, path: Seq::empty() },
    }
}

impl KeysightQuirks {
    /// A fresh watchdog for a run of `total` frames; no frame seen yet.
    pub fn start(total: u64) -> (r: KeysightQuirks)
        ensures
            r.total == total,
            r.frames == 0,
    {
        KeysightQuirks { total, frames: 0 }
    }

    /// One timer sample: takes what the cell held and decides what to
    /// write and whether to exit.  Start and stop messages, and an empty
    /// cell, are no-op samples.
    pub fn on_tick(&mut self, m: Option<QuirksMessage>) -> (r: TickOutcome)
        ensures
            final(self).total == old(self).total,
            final(self).frames == tick_frames(old(self).frames, cell_view(m)),
            write_view(r.write) == tick_write(old(self).frames, old(self).total, cell_view(m)),
            r.finished == tick_finished(cell_view(m)),
    {
        match m {
            Some(QuirksMessage::Frame { fid, path }) => {
                self.frames = fid;
                TickOutcome {
                    write: Some(
                        ProgressSnapshot {
                            status: Status::Rendering,
                            frames: fid,
                            total: self.total,
                            path,
                        },
                    ),
                    finished: false,
                }
            },
            Some(QuirksMessage::Error { error }) => TickOutcome {
                write: Some(
                    ProgressSnapshot {
                        status: Status::Error { error_chain: error },
                        frames: self.frames,
                        total: self.total,
                        path: String::new(),
                    },
                ),
                finished: true,
            },
            _ => TickOutcome { write: None, finished: false },
        }
    }

    /// The stop signal: takes what the cell held and builds the final
    /// snapshot — `error` if an error was pushed, else `done`.
    pub fn on_stop(&self, m: Option<QuirksMessage>) -> (r: ProgressSnapshot)
        ensures
            r@ == stop_write(self.frames, self.total, cell_view(m)),
    {
        match m {
            Some(QuirksMessage::Error { error }) => ProgressSnapshot {
                status: Status::Error { error_chain: error },
                frames: self.frames,
                total: self.total,
                path: String::new(),
            },
            _ => ProgressSnapshot {
                status: Status::Done,
                frames: self.frames,
                total: self.total,
                path: String::new(),
            },
        }
    }
}

} // verus!
