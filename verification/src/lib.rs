//! A real-time audio pass-through equalizer, as a library: the equalizer
//! profile and its text format, the two filter engines, the latency buffer
//! between capture and playback, and the rules by which a running pipeline is
//! started, stopped and superseded.
//!
//! The library does no floating-point arithmetic. The numbers of a profile
//! are kept as the decimal literals that wrote them, the samples in the
//! latency buffer as bit patterns, and the engines take the arithmetic of the
//! filters as a function of the program around them.
//!
//! - [`text`], [`number`]: tokens, lines and decimal literals.
//! - [`eq`], [`render`], [`roundtrip`]: the profile, reading it from text,
//!   writing it as text, and what the two owe each other.
//! - [`cascade`], [`engine`]: which bands an engine compiles, and the engines.
//! - [`ring`], [`run`], [`settings`]: the latency buffer, and the life of a
//!   pipeline instance.
//! - [`command`], [`executor`], [`utils`]: the control side.

pub mod cascade;
pub mod command;
pub mod engine;
pub mod eq;
pub mod executor;
pub mod number;
pub mod render;
pub mod ring;
pub mod roundtrip;
pub mod run;
pub mod settings;
pub mod text;
pub mod utils;
