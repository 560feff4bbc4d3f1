//! Control core of a pad sampler with two effect buses: the effect catalog,
//! the persisted effect configuration, the audio engine's command handling and
//! voice bookkeeping, and the file-browser and autosave decisions.

pub mod effects;
pub mod ipc;
pub mod state;
pub mod engine;
pub mod project;
pub mod audio_files;
