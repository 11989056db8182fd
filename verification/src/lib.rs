//! Transcoding of stereo 16-bit WAV objects into MP3, and the packaging of the
//! results: container decoding, channel splitting, encoding, output naming,
//! archive assembly and the decisions of one invocation.
//!
//! What is taken on trust about the outside crates stands in four modules:
//! `wav_reader` (hound), `lame` (mp3lame_encoder), `zip_sink` (zip) and `utc`
//! (chrono). Everything else is verified against those contracts.

pub mod error;
pub mod wav_reader;
pub mod container;
pub mod splitter;
pub mod naming;
pub mod lame;
pub mod mp3_encode_i16;
pub mod zip_sink;
pub mod archive;
pub mod staging;
pub mod utc;
pub mod event_handler;
