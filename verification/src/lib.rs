//! Voice capture pipeline: normalised sample storage, the recorder's state
//! machine, the uncompressed audio container, and the rules for talking to
//! the transcription and chat services.
//!
//! Samples are binary32 floating-point numbers. They are carried as their
//! IEEE-754 bit patterns, so every rule about them is a rule about integers.

pub mod chat;
pub mod config;
pub mod device;
pub mod error;
pub mod normalize;
pub mod recorder;
pub mod sample;
pub mod screenshot;
pub mod service;
pub mod transcription;
pub mod wav;
