//! A streaming interpreter for the diagnostic output of a media transcoder.
//!
//! The transcoder writes a block of newline-terminated metadata, possibly an
//! interactive overwrite question, and then a progress line that it redraws
//! in place with carriage returns. The interpreter decides what to read next,
//! takes what was read, and turns it into a progress signal that a renderer
//! can draw.

pub mod classifier;
pub mod cursor;
pub mod error;
pub mod interpreter;
pub mod metric;
pub mod pattern;
pub mod progress;
pub mod replay;
pub mod text;
