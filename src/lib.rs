//! Pitch estimation from a stream of audio samples.
//!
//! The library holds the decisions of a pitch detector: the sliding window
//! that collects samples into analysis blocks, the search for the dominant
//! spectral bin within a frequency band, and the match of the estimated
//! frequency against a table of reference pitches. Sample values and
//! spectral magnitudes are carried as opaque values or as order-preserving
//! integer keys, so every rule here is exact integer arithmetic.

pub mod config;
pub mod notes;
pub mod peak;
pub mod window;

pub use config::{ConfigError, Detection, PitchConfig};
pub use notes::{nearest_reference, standard_guitar_tuning};
pub use peak::{bin_frequency_mhz, peak_bin, search_band_end};
pub use window::SlidingWindow;
