//! A typing-practice challenge library.
//!
//! The heart of the crate is [`model::WordsChallengeModel`], a pure state
//! machine that consumes keystrokes, tracks the typing cursor and the set of
//! mistyped positions, detects completion, and reports timing statistics
//! (accuracy and words per minute, both as integer tenths).  The mathematical
//! model of a challenge lives in [`challenge`], the executable state machine
//! in [`model`] and [`stats`], per-character display classification in
//! [`character_widget`], and the proved laws of the state machine in [`laws`].

pub mod challenge;
pub mod character_widget;
pub mod laws;
pub mod model;
pub mod stats;
