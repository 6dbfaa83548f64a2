//! Application state and its per-cycle updates.
//!
//! An [`App`] holds what the render surface draws: the current text frame,
//! the smoothed frame rate, and whether the help overlay is visible. The
//! pipeline loop is its only writer; drawing only reads it.

use vstd::prelude::*;
use vstd::string::StringExecFns;
use crate::ascii::{process_frame, text_of, transform_ok};
use crate::error::AppError;
use crate::frame::RawFrame;

verus! {

/// The state of the application, drawn once per cycle.
pub struct App {
    /// The text form of the most recently transformed frame.
    pub ascii_frame: String,
    /// The smoothed frame rate, in thousandths of a frame per second.
    pub fps_milli: u64,
    /// Whether the help overlay is visible.
    pub show_help: bool,
}

/// The application state with the help overlay flipped and all else as it
/// was.
pub open spec fn toggled_help(a: App) -> App {
    App { show_help: !a.show_help, ..a }
}

impl App {
    /// A fresh application: no frame yet, no measured rate, help hidden.
    pub fn new() -> (app: App)
        ensures
            app.ascii_frame@ == Seq::<char>::empty(),
            app.fps_milli == 0,
            app.show_help == false,
    {
        proof {
            reveal_strlit("");
        }
        let empty = String::from_str("");
        proof {
            assert(empty@ =~= Seq::<char>::empty());
        }
        App { ascii_frame: empty, fps_milli: 0, show_help: false }
    }

    /// Replaces the current text frame with the transform of a newly
    /// captured frame. On failure the state is left as it was and the
    /// transform error is reported; nothing is retried.
    pub fn update(&mut self, frame: &RawFrame, width: i32, height: i32) -> (r: Result<
        (),
        AppError,
    >)
        ensures
            final(self).fps_milli == old(self).fps_milli,
            final(self).show_help == old(self).show_help,
            match r {
                Ok(_) => transform_ok(*frame, width as int, height as int)
                    && final(self).ascii_frame@ == text_of(*frame, width as int, height as int),
                Err(e) => !transform_ok(*frame, width as int, height as int) && e is Transform
                    && final(self).ascii_frame == old(self).ascii_frame,
            },
    {
        match process_frame(frame, width, height) {
            Ok(s) => {
                self.ascii_frame = s;
                Ok(())
            },
            Err(e) => Err(e),
        }
    }

    /// Flips the visibility of the help overlay. The change is only drawn
    /// on the next scheduled render.
    pub fn toggle_help(&mut self)
        ensures
            *final(self) == toggled_help(*old(self)),
    {
        self.show_help = !self.show_help;
    }
}

/// Toggling the help overlay twice returns the application to the state it
/// started from.
pub proof fn lemma_toggle_help_involutive(a: App)
    ensures
        toggled_help(toggled_help(a)) == a,
{
}

} // verus!
