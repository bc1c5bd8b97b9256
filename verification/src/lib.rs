//! Engine of a microtonal tracker: patch settings, per-voice signal graphs,
//! voice allocation, pattern data and the tick scheduler that plays it.
//!
//! The engine never touches audio samples. Every quantity it handles is an
//! integer: scalar parameters are held in thousandths of their unit, time in
//! nanoseconds, tempo as a ratio of integers. What the audio side has to do is
//! handed over as commands and signal descriptions.

pub mod backend;
pub mod edit;
pub mod fx;
pub mod graph;
pub mod label;
pub mod messages;
pub mod midi;
pub mod module;
pub mod order;
pub mod playback;
pub mod playthrough;
pub mod settings;
pub mod storage;
pub mod synth;
pub mod tempo;

use vstd::prelude::*;

verus! {

/// Application name, for window titles and device names.
pub const APP_NAME: &'static str = "Osctet";

} // verus!
