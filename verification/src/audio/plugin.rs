//! The audio plugin's settings, and which audio systems they switch on.
use vstd::prelude::*;

verus! {

/// Whether sources are placed in space, and whether moving sources shift in
/// pitch.
pub struct AudioPluginConfig {
    pub enable_spatial_audio: bool,
    pub enable_doppler: bool,
}

impl Default for AudioPluginConfig {
    fn default() -> (r: Self)
        ensures
            r.enable_spatial_audio,
            r.enable_doppler,
    {
        AudioPluginConfig { enable_spatial_audio: true, enable_doppler: true }
    }
}

/// The audio plugin's settings, as plain values.
pub struct AudioSettings {
    pub spatial: bool,
    pub doppler: bool,
}

/// Plays audio sources, in space where configured.
pub struct AudioPlugin {
    config: AudioPluginConfig,
}

impl View for AudioPlugin {
    type V = AudioSettings;

    closed spec fn view(&self) -> AudioSettings {
        AudioSettings { spatial: self.config.enable_spatial_audio, doppler: self.config.enable_doppler }
    }
}

impl Default for AudioPlugin {
    fn default() -> (r: Self)
        ensures
            r@.spatial,
            r@.doppler,
    {
        AudioPlugin::new()
    }
}

impl AudioPlugin {
    /// The plugin with spatial audio and the Doppler effect on.
    pub fn new() -> (r: Self)
        ensures
            r@.spatial,
            r@.doppler,
    {
        AudioPlugin { config: AudioPluginConfig::default() }
    }

    /// The plugin with the given settings.
    pub fn with_config(config: AudioPluginConfig) -> (r: Self)
        ensures
            r@.spatial == config.enable_spatial_audio,
            r@.doppler == config.enable_doppler,
    {
        AudioPlugin { config }
    }

    /// The same plugin with spatial audio off.
    pub fn without_spatial_audio(self) -> (r: Self)
        ensures
            !r@.spatial,
            r@.doppler == self@.doppler,
    {
        let mut s = self;
        s.config.enable_spatial_audio = false;
        s
    }

    /// The same plugin with the Doppler effect off.
    pub fn without_doppler(self) -> (r: Self)
        ensures
            r@.spatial == self@.spatial,
            !r@.doppler,
    {
        let mut s = self;
        s.config.enable_doppler = false;
        s
    }

    /// Whether the spatial audio system runs.
    pub fn spatial_audio_active(&self) -> (r: bool)
        ensures
            r == self@.spatial,
    {
        self.config.enable_spatial_audio
    }

    /// Whether the Doppler system runs: it needs spatial audio as well.
    pub fn doppler_active(&self) -> (r: bool)
        ensures
            r == (self@.doppler && self@.spatial),
    {
        self.config.enable_doppler && self.config.enable_spatial_audio
    }
}

} // verus!
