//! A verified real-time software synthesizer core.
//!
//! Audio voices generate band-limited periodic waveforms, shape them with
//! an attack-decay-sustain-release envelope and a low-frequency vibrato,
//! and are driven by a time- and target-indexed instruction schedule.
//! Signal values, frequencies and gains are Q16 fixed-point integers
//! (see `fixed`), so every stage of the per-sample path is verified.

pub mod app;
pub mod fixed;
pub mod instruction;
pub mod instruction_handler;
pub mod instrument;
pub mod tui_elements;
pub mod view;
