//! What the host configures of the encoders.

use crate::text::same_text;
use vstd::prelude::*;

verus! {

/// How much time the encoders may spend on quality.
#[derive(Clone, Copy, Debug, PartialEq, Eq, Structural)]
pub enum Quality {
    Realtime,
    Good,
    Best,
}

impl Quality {
    /// The tier that a setting's text names: `Good` and `Best` their own,
    /// anything else `Realtime`.
    pub open spec fn spec_from_name(name: Seq<char>) -> Quality {
        if name == "Good"@ {
            Quality::Good
        } else if name == "Best"@ {
            Quality::Best
        } else {
            Quality::Realtime
        }
    }

    /// Reads a tier from a setting's text.
    pub fn from_name(name: &str) -> (quality: Quality)
        ensures
            quality == Self::spec_from_name(name@),
    {
        if same_text(name, "Good") {
            Quality::Good
        } else if same_text(name, "Best") {
            Quality::Best
        } else {
            Quality::Realtime
        }
    }

    /// The name of the tier as the video codec's `quality` and `deadline`
    /// options take it.
    pub open spec fn spec_deadline(self) -> Seq<char> {
        match self {
            Quality::Realtime => "realtime"@,
            Quality::Good => "good"@,
            Quality::Best => "best"@,
        }
    }

    /// The name of the tier as the video codec's `quality` and `deadline`
    /// options take it.
    pub fn deadline(&self) -> (name: &'static str)
        ensures
            name@ == self.spec_deadline(),
    {
        match self {
            Quality::Realtime => "realtime",
            Quality::Good => "good",
            Quality::Best => "best",
        }
    }

    /// The audio codec's compression level for the tier: the more time
    /// there is, the lower the level.
    pub open spec fn spec_compression_level(self) -> u32 {
        match self {
            Quality::Realtime => 10,
            Quality::Good => 5,
            Quality::Best => 0,
        }
    }

    /// The audio codec's compression level for the tier.
    pub fn compression_level(&self) -> (level: u32)
        ensures
            level == self.spec_compression_level(),
    {
        match self {
            Quality::Realtime => 10,
            Quality::Good => 5,
            Quality::Best => 0,
        }
    }
}

/// What the host configures: the encoder's threads and quality tier, and
/// whether the recording carries alpha and audio.
#[derive(Clone, Copy, Debug, PartialEq, Eq, Structural)]
pub struct EncoderConfig {
    /// Threads given to the video encoder; 0 lets the codec choose.
    pub thread_count: u32,
    pub quality: Quality,
    pub alpha_channel: bool,
    pub enable_audio: bool,
}

impl Default for EncoderConfig {
    fn default() -> (config: Self)
        ensures
            config == EncoderConfig::initial(),
    {
        Self {
            thread_count: 0,
            quality: Quality::Realtime,
            alpha_channel: false,
            enable_audio: true,
        }
    }
}

impl EncoderConfig {
    /// The configuration of a host that has set nothing.
    pub open spec fn initial() -> EncoderConfig {
        EncoderConfig {
            thread_count: 0,
            quality: Quality::Realtime,
            alpha_channel: false,
            enable_audio: true,
        }
    }

    /// The configuration that the host's settings give. Each argument is one
    /// setting as the host holds it, or nothing where the setting is absent
    /// or has another type than it should; such a setting takes its value
    /// from [`EncoderConfig::initial`].
    pub open spec fn spec_from_project_settings(
        thread_count: Option<u32>,
        quality: Option<&str>,
        alpha_channel: Option<bool>,
        enable_audio: Option<bool>,
    ) -> EncoderConfig {
        EncoderConfig {
            thread_count: match thread_count {
                Some(count) => count,
                None => Self::initial().thread_count,
            },
            quality: match quality {
                Some(name) => Quality::spec_from_name(name@),
                None => Self::initial().quality,
            },
            alpha_channel: match alpha_channel {
                Some(flag) => flag,
                None => Self::initial().alpha_channel,
            },
            enable_audio: match enable_audio {
                Some(flag) => flag,
                None => Self::initial().enable_audio,
            },
        }
    }

    /// Builds the configuration from the host's settings, read by the
    /// caller.
    pub fn from_project_settings(
        thread_count: Option<u32>,
        quality: Option<&str>,
        alpha_channel: Option<bool>,
        enable_audio: Option<bool>,
    ) -> (config: Self)
        ensures
            config == Self::spec_from_project_settings(
                thread_count,
                quality,
                alpha_channel,
                enable_audio,
            ),
    {
        let initial = EncoderConfig::default();
        Self {
            thread_count: match thread_count {
                Some(count) => count,
                None => initial.thread_count,
            },
            quality: match quality {
                Some(name) => Quality::from_name(name),
                None => initial.quality,
            },
            alpha_channel: match alpha_channel {
                Some(flag) => flag,
                None => initial.alpha_channel,
            },
            enable_audio: match enable_audio {
                Some(flag) => flag,
                None => initial.enable_audio,
            },
        }
    }
}

} // verus!
