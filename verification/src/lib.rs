//! Transmission scheduling and playback synchronisation for a simulated
//! radio scanner: a table of networks and their scan frequencies, a weighted
//! content library, per-set conversation sequencing, transmission assembly,
//! a director with a deadline, a queue matched against the scan cursor and a
//! playback timeline with a spectral frame schedule.
//!
//! The library computes and decides; it reads no file and plays no sound.
//! Times are whole microseconds and signal levels whole thousandths
//! throughout.

pub mod director;
pub mod interface;
pub mod interfaces;
pub mod library;
pub mod networks;
pub mod playback;
pub mod queue;
pub mod random;
pub mod scanner;
pub mod sets;
pub mod settings;
pub mod system;
pub mod time;
pub mod transmission;
