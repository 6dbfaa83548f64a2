//! A library for rendering camera frames as text art in a terminal.
//!
//! The pipeline takes a raw colour frame, reduces it to luminance, resamples
//! it to the terminal's drawable size with bilinear interpolation, and
//! quantizes each sample onto a fixed character ramp. A scheduler keeps the
//! loop at a target frame rate using a rolling window of frame durations,
//! and turns key presses into pipeline commands.

pub mod app;
pub mod ascii;
pub mod error;
pub mod fps;
pub mod frame;
pub mod pipeline;

pub use app::App;
pub use error::AppError;
pub use frame::RawFrame;
