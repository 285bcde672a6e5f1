//! Trimming, fading and resampling of single-hit audio samples: region
//! detection by amplitude threshold, sample-buffer transforms, output naming
//! and the batching of files into Octatrack sample chains.

pub mod arith;
pub mod resample;
pub mod audio;
pub mod regions;
pub mod trim;
pub mod preset;
pub mod naming;
pub mod chain;
pub mod plan;
pub mod folder;
pub mod sox;
