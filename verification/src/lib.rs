//! Recovers a GPS track from dashcam footage whose telemetry (latitude and
//! longitude in degrees-minutes-seconds, speed, timestamp) is burned into the
//! video frames as on-screen text.
//!
//! The library holds the verified core of the pipeline: the noise-tolerant
//! coordinate parser, the decimal conversion and output formatting, the track
//! assembly state machine, the worker shutdown protocol, and the frame
//! bookkeeping helpers. Frame extraction, image preprocessing at the pixel
//! level, optical character recognition and all file-system work stay outside
//! the library.

pub mod control;
pub mod decimal;
pub mod frames;
pub mod parser;
pub mod strutil;
pub mod timecode;
pub mod track;
