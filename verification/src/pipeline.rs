//! The scheduler at the heart of the pipeline loop.
//!
//! Two producers feed the loop: a capture source pushing frames into a
//! bounded queue, and an input source pushing key events. Each cycle the
//! loop takes whichever is ready, transforms and draws on a frame, applies
//! the command of a key, and sleeps away the rest of its per-frame budget.
//! The decisions of that loop live here; the driver around it only moves
//! frames, keys and clock readings in and out.

use vstd::prelude::*;
use crate::app::{toggled_help, App};
use crate::fps::FpsWindow;
use crate::frame::RawFrame;

verus! {

/// Frames per second the loop paces itself to.
pub const TARGET_FPS: u64 = 30;

/// Number of per-frame durations the smoothing window holds.
pub const FPS_WINDOW_CAPACITY: usize = 120;

/// Bound of the capture-to-consumer queue: capture may run at most this
/// many frames ahead of rendering, then it blocks.
pub const FRAME_QUEUE_CAPACITY: usize = 2;

/// Bound of the input-to-consumer queue.
pub const EVENT_QUEUE_CAPACITY: usize = 10;

/// A command derived from one input event, consumed exactly once by the
/// loop before the next cycle.
#[derive(PartialEq, Eq, Structural, Debug, Clone, Copy)]
pub enum PipelineCommand {
    /// Terminate the loop.
    Quit,
    /// Flip the help overlay.
    ToggleHelp,
}

/// The lifecycle of the pipeline loop.
#[derive(PartialEq, Eq, Structural, Debug, Clone, Copy)]
pub enum LoopState {
    /// The loop keeps consuming frames and keys.
    Running,
    /// The loop is over; nothing is captured or drawn any more.
    Terminating,
}

/// The command a key press maps to: `q` quits, `?` toggles the help
/// overlay, every other key is ignored.
pub open spec fn map_key_spec(key: char) -> Option<PipelineCommand> {
    if key == 'q' {
        Some(PipelineCommand::Quit)
    } else if key == '?' {
        Some(PipelineCommand::ToggleHelp)
    } else {
        None
    }
}

/// Maps a key press to its pipeline command, as executable code.
pub fn map_key(key: char) -> (r: Option<PipelineCommand>)
    ensures
        r == map_key_spec(key),
{
    if key == 'q' {
        Some(PipelineCommand::Quit)
    } else if key == '?' {
        Some(PipelineCommand::ToggleHelp)
    } else {
        None
    }
}

/// The loop state after one key press has been handled.
pub open spec fn next_state(state: LoopState, key: char) -> LoopState {
    if map_key_spec(key) == Some(PipelineCommand::Quit) {
        LoopState::Terminating
    } else {
        state
    }
}

/// The per-frame time budget for a target rate, in nanoseconds.
pub open spec fn frame_budget_nanos(target_fps: u64) -> int {
    1_000_000_000int / (target_fps as int)
}

/// How long to sleep after a cycle that took `elapsed` of a `budget`:
/// the remainder of the budget, or nothing when the cycle overran it.
pub open spec fn pacing_spec(budget: u64, elapsed: u64) -> int {
    if elapsed < budget {
        budget - elapsed
    } else {
        0
    }
}

/// The smoothed rate for a mean frame duration, in thousandths of a frame
/// per second. A mean of zero nanoseconds reports zero rather than an
/// unbounded rate.
pub open spec fn fps_milli_spec(avg_nanos: int) -> int {
    if avg_nanos <= 0 {
        0
    } else {
        1_000_000_000_000int / avg_nanos
    }
}

/// Quitting terminates the loop whatever it was doing, and a terminated
/// loop stays terminated under every further key, so no capture is
/// consumed after a quit.
pub proof fn lemma_quit_terminates(state: LoopState, key: char)
    requires
        map_key_spec(key) == Some(PipelineCommand::Quit),
    ensures
        next_state(state, key) == LoopState::Terminating,
        forall|k: char| next_state(LoopState::Terminating, k) == LoopState::Terminating,
{
}

/// The consumer-side scheduler: the loop's lifecycle, its smoothing
/// window, and its per-frame time budget.
pub struct Scheduler {
    /// Whether the loop keeps going.
    pub state: LoopState,
    /// The rolling window of recent frame durations.
    pub window: FpsWindow,
    /// The per-frame time budget, in nanoseconds.
    pub target_frame_nanos: u64,
}

impl Scheduler {
    /// A scheduler is well formed when its window is.
    pub open spec fn wf(self) -> bool {
        self.window.wf()
    }

    /// A scheduler paced to `target_fps` frames per second, its window
    /// freshly seeded.
    pub fn new(target_fps: u64, window_capacity: usize) -> (s: Scheduler)
        requires
            1 <= target_fps,
            1 <= window_capacity,
        ensures
            s.wf(),
            s.state == LoopState::Running,
            s.target_frame_nanos as int == frame_budget_nanos(target_fps),
            s.window.entries().len() == window_capacity,
            forall|i: int|
                0 <= i < window_capacity ==> s.window.entries()[i] == crate::fps::SEED_FRAME_NANOS,
    {
        Scheduler {
            state: LoopState::Running,
            window: FpsWindow::new(window_capacity),
            target_frame_nanos: 1_000_000_000 / target_fps,
        }
    }

    /// Whether the loop should run another cycle.
    pub fn is_running(&self) -> (r: bool)
        ensures
            r == (self.state == LoopState::Running),
    {
        self.state == LoopState::Running
    }

    /// Applies the command of one key press: a quit terminates the loop at
    /// once, a help toggle flips the overlay, any other key changes
    /// nothing. Neither command triggers a draw by itself.
    pub fn handle_key(&mut self, app: &mut App, key: char)
        requires
            old(self).wf(),
        ensures
            final(self).wf(),
            final(self).window == old(self).window,
            final(self).target_frame_nanos == old(self).target_frame_nanos,
            final(self).state == next_state(old(self).state, key),
            *final(app) == (if map_key_spec(key) == Some(PipelineCommand::ToggleHelp) {
                toggled_help(*old(app))
            } else {
                *old(app)
            }),
    {
        match map_key(key) {
            Some(PipelineCommand::Quit) => {
                self.state = LoopState::Terminating;
            },
            Some(PipelineCommand::ToggleHelp) => {
                app.toggle_help();
            },
            None => {},
        }
    }

    /// How much of the per-frame budget a cycle that took `elapsed_nanos`
    /// leaves to sleep away.
    pub fn remaining_budget(&self, elapsed_nanos: u64) -> (sleep: u64)
        ensures
            sleep as int == pacing_spec(self.target_frame_nanos, elapsed_nanos),
    {
        if elapsed_nanos < self.target_frame_nanos {
            self.target_frame_nanos - elapsed_nanos
        } else {
            0
        }
    }

    /// Closes one rendered cycle: records its measured duration in the
    /// window, refreshes the smoothed rate from the window's mean, and
    /// returns how long to sleep so the cycle fills its time budget.
    pub fn finish_frame(&mut self, app: &mut App, elapsed_nanos: u64) -> (sleep: u64)
        requires
            old(self).wf(),
        ensures
            final(self).wf(),
            final(self).state == old(self).state,
            final(self).target_frame_nanos == old(self).target_frame_nanos,
            final(self).window.entries() == old(self).window.entries().update(
                old(self).window.next as int,
                elapsed_nanos,
            ),
            final(app).ascii_frame == old(app).ascii_frame,
            final(app).show_help == old(app).show_help,
            final(app).fps_milli as int == fps_milli_spec(final(self).window.average_spec()),
            sleep as int == pacing_spec(old(self).target_frame_nanos, elapsed_nanos),
    {
        self.window.record(elapsed_nanos);
        let avg = self.window.average_nanos();
        app.fps_milli = if avg == 0 {
            0
        } else {
            1_000_000_000_000u64 / avg
        };
        if elapsed_nanos < self.target_frame_nanos {
            self.target_frame_nanos - elapsed_nanos
        } else {
            0
        }
    }
}

/// The bounded queue between the capture thread and the consumer loop.
///
/// A full queue refuses a frame rather than dropping an old one: the
/// producer keeps the frame and blocks, which is what holds capture within
/// [`FRAME_QUEUE_CAPACITY`] frames of rendering.
pub struct FrameQueue {
    /// The undelivered frames, oldest first.
    pub items: Vec<RawFrame>,
    /// The most frames the queue ever holds.
    pub capacity: usize,
}

impl FrameQueue {
    /// A queue is well formed when it holds at most its capacity of frames.
    pub open spec fn wf(self) -> bool {
        1 <= self.capacity && self.items@.len() <= self.capacity
    }

    /// An empty queue of the given bound.
    pub fn new(capacity: usize) -> (q: FrameQueue)
        requires
            1 <= capacity,
        ensures
            q.wf(),
            q.capacity == capacity,
            q.items@.len() == 0,
    {
        FrameQueue { items: Vec::new(), capacity }
    }

    /// How many frames wait undelivered.
    pub fn len(&self) -> (n: usize)
        ensures
            n == self.items@.len(),
    {
        self.items.len()
    }

    /// Offers a frame. A queue below its bound appends it in arrival
    /// order; a full queue hands it back untouched, so the producer blocks
    /// instead of racing ahead.
    pub fn try_push(&mut self, f: RawFrame) -> (r: Option<RawFrame>)
        requires
            old(self).wf(),
        ensures
            final(self).wf(),
            final(self).capacity == old(self).capacity,
            match r {
                None => old(self).items@.len() < old(self).capacity
                    && final(self).items@ == old(self).items@.push(f),
                Some(back) => old(self).items@.len() == old(self).capacity && final(self).items@
                    == old(self).items@ && back == f,
            },
    {
        if self.items.len() < self.capacity {
            self.items.push(f);
            None
        } else {
            Some(f)
        }
    }

    /// Takes the oldest undelivered frame, in first-in first-out order.
    pub fn pop(&mut self) -> (r: Option<RawFrame>)
        requires
            old(self).wf(),
        ensures
            final(self).wf(),
            final(self).capacity == old(self).capacity,
            match r {
                Some(g) => old(self).items@.len() > 0 && g == old(self).items@[0]
                    && final(self).items@ == old(self).items@.subrange(
                    1,
                    old(self).items@.len() as int,
                ),
                None => old(self).items@.len() == 0 && final(self).items@ == old(self).items@,
            },
    {
        if self.items.len() > 0 {
            let g = self.items.remove(0);
            proof {
                assert(self.items@ =~= old(self).items@.subrange(
                    1,
                    old(self).items@.len() as int,
                ));
            }
            Some(g)
        } else {
            None
        }
    }
}

/// However capture and rendering interleave, the queue never holds more
/// undelivered frames than its bound.
pub proof fn lemma_queue_bounded(q: FrameQueue)
    requires
        q.wf(),
    ensures
        q.items@.len() <= q.capacity,
{
}

} // verus!
