//! Narration timing and playback synchronisation for replaying commit
//! history as a typed, narrated terminal animation.

pub mod chunker;
pub mod cli;
pub mod context;
pub mod difftext;
pub mod duration;
pub mod editor;
pub mod generation;
pub mod grouping;
pub mod hunks;
pub mod narration;
pub mod ordering;
pub mod player;
pub mod setup;
pub mod store;
pub mod text;
pub mod tts;
pub mod types;
pub mod ui;
pub mod wire;
