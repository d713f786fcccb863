[package]
name = "waveform"
version = "0.1.0"
edition = "2021"
publish = false

[dependencies]
symphonia = { version = "0.5", features = ["wav", "pcm", "flac", "mp3", "ogg", "vorbis", "aiff"] }
rayon = "1"
wasm-bindgen = "0.2"
console_error_panic_hook = "0.1"
