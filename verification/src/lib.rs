//! Color-cycling image playback for character terminals.
//!
//! An indexed image is shown with two pixels per character cell, using
//! half-block glyphs and 24-bit colors. The palette changes over time: color
//! cycles rotate parts of it, and a timeline fades it from one palette to the
//! next over the day. Each frame only the cells that changed are written.
//!
//! - [`image_to_ansi`] renders frames as escape sequences, [`ansi`] holds
//!   their vocabulary, [`screen`] states what they do to a terminal, and
//!   [`reading`] how the text is read back.
//! - [`palette`] and [`world`] compute the colors of a moment.
//! - [`input`], [`playback`], [`status`], [`stage`] and [`session`] are the
//!   rules of a playback session, frame by frame.

pub mod ansi;
pub mod color;
pub mod error;
pub mod image;
pub mod image_to_ansi;
pub mod input;
pub mod palette;
pub mod playback;
pub mod reading;
pub mod screen;
pub mod session;
pub mod stage;
pub mod status;
pub mod text;
pub mod world;
