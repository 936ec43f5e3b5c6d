//! Rules and formats of a screen recorder.
pub mod audio;
pub mod clock;
pub mod control;
pub mod encoding;
pub mod history;
pub mod hotkeys;
pub mod merge;
pub mod mfhw;
pub mod mp4info;
pub mod mp4mux;
pub mod nativerec;
pub mod ocr;
pub mod order;
pub mod paths;
pub mod picture;
pub mod recorder;
pub mod screens;
pub mod screenshot;
pub mod settings;
pub mod text;
pub mod wgc;
