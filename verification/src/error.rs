//! Error taxonomy of the pipeline.
//!
//! Every failure the library can report falls into one of four kinds:
//! a capture device fault, a transform fault, a render-surface fault, or an
//! input-source fault. All of them are fatal at the pipeline level; none is
//! retried.

use vstd::prelude::*;

verus! {

/// An error raised somewhere along the capture, transform, render pipeline.
#[derive(Debug, Clone)]
pub enum AppError {
    /// The capture device is unavailable, a frame could not be read, or the
    /// frame read was empty.
    Device(String),
    /// Grayscale reduction, resampling or quantization could not be performed
    /// on the given input.
    Transform(String),
    /// The render surface could not be set up, queried for its size, or drawn.
    Surface(String),
    /// The input event source failed while being polled or read.
    Input(String),
    /// Any failure that does not fit the other kinds.
    Other(String),
}

} // verus!
