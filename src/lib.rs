//! A streaming speech pipeline: downmixing, a sample hand-off queue,
//! fixed-window rate conversion and fixed-length chunking, the inference
//! worker's decisions and the capture lifecycle; besides these, the choice of
//! a capture configuration and the sample conversion of a WAV recording.
pub mod chunking;
pub mod bridge;
pub mod downmix;
pub mod worker;
pub mod lifecycle;
pub mod config;
pub mod wav;
