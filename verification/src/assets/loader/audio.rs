//! The audio loader.
use vstd::prelude::*;

verus! {

/// Loads audio files (WAV, MP3, Ogg, FLAC, M4A, AAC) into samples.
pub struct AudioLoader;

} // verus!
