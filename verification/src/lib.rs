//! Segmentation-and-pipeline orchestrator for a live speech-translation loop.
//!
//! The library models the core of a capture-translate-speak pipeline: a
//! segmenter that partitions an unbounded sample stream into fixed-duration
//! segments, a FIFO handoff of finalized segment identifiers, and a driver
//! state machine that sends each segment through translation, launches
//! synthesis of the translated text, and manages segment storage, shutting
//! down cleanly when a termination phrase is detected.

pub mod phrase;
pub mod pipeline;
pub mod segmenter;
pub mod synthesis;
pub mod translate;
