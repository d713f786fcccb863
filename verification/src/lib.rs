//! Turns a compressed or container-wrapped audio file into a compact,
//! normalized amplitude envelope suitable for rendering a waveform.
//!
//! The pipeline has three stages: decoding the input bytes into a flat
//! interleaved buffer of integer PCM samples, reducing that buffer into one
//! summary value per output slot, and normalizing the summaries by the
//! sequence's extremum. Amplitudes are carried as exact integers throughout:
//! per-block means are held in fixed point (see `model::MEAN_ONE`) and the
//! final outputs range over `0 ..= model::WAVEFORM_SCALE` (or its signed
//! counterpart), so every arithmetic step has a precise contract.

pub mod decode;
pub mod model;
pub mod processor;
