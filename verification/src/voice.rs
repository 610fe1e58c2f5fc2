//! Languages, voices and audio formats offered to applications.
use vstd::prelude::*;

verus! {

/// Language of a voice AI session.
#[derive(Debug, Clone, Copy, PartialEq, Eq, Hash, Structural)]
pub enum Lang {
    En,
    Fr,
    Es,
    De,
    Pt,
}

impl Lang {
    /// The language code of each language.
    pub open spec fn spec_code(self) -> Seq<char> {
        match self {
            Lang::En => "en"@,
            Lang::Fr => "fr"@,
            Lang::Es => "es"@,
            Lang::De => "de"@,
            Lang::Pt => "pt"@,
        }
    }

    /// Returns the language code (e.g., "en", "fr").
    pub fn code(&self) -> (r: &'static str)
        ensures
            r@ == self.spec_code(),
    {
        match self {
            Lang::En => "en",
            Lang::Fr => "fr",
            Lang::Es => "es",
            Lang::De => "de",
            Lang::Pt => "pt",
        }
    }

    /// Returns the language code string for use as TTS rewrite_rules.
    pub fn rewrite_rules(&self) -> (r: &'static str)
        ensures
            r@ == self.spec_code(),
    {
        self.code()
    }
}

/// Gender of a voice.
#[derive(Debug, Clone, Copy, PartialEq, Eq, Hash, Structural)]
pub enum Gender {
    Masculine,
    Feminine,
}

impl Gender {
    /// The display name of each gender.
    pub open spec fn spec_name(self) -> Seq<char> {
        match self {
            Gender::Masculine => "Masculine"@,
            Gender::Feminine => "Feminine"@,
        }
    }

    /// The display name ("Masculine" or "Feminine").
    pub fn __str__(&self) -> (r: &'static str)
        ensures
            r@ == self.spec_name(),
    {
        match self {
            Gender::Masculine => "Masculine",
            Gender::Feminine => "Feminine",
        }
    }
}

/// Country/accent of a voice.
#[derive(Debug, Clone, Copy, PartialEq, Eq, Hash, Structural)]
pub enum Country {
    Us,
    Gb,
    Fr,
    De,
    Mx,
    Es,
    Br,
}

impl Country {
    /// The display name of each country.
    pub open spec fn spec_name(self) -> Seq<char> {
        match self {
            Country::Us => "United States"@,
            Country::Gb => "United Kingdom"@,
            Country::Fr => "France"@,
            Country::De => "Germany"@,
            Country::Mx => "Mexico"@,
            Country::Es => "Spain"@,
            Country::Br => "Brazil"@,
        }
    }

    /// The country code of each country.
    pub open spec fn spec_code(self) -> Seq<char> {
        match self {
            Country::Us => "us"@,
            Country::Gb => "gb"@,
            Country::Fr => "fr"@,
            Country::De => "de"@,
            Country::Mx => "mx"@,
            Country::Es => "es"@,
            Country::Br => "br"@,
        }
    }

    /// The display name (e.g., "United States").
    pub fn __str__(&self) -> (r: &'static str)
        ensures
            r@ == self.spec_name(),
    {
        match self {
            Country::Us => "United States",
            Country::Gb => "United Kingdom",
            Country::Fr => "France",
            Country::De => "Germany",
            Country::Mx => "Mexico",
            Country::Es => "Spain",
            Country::Br => "Brazil",
        }
    }

    /// Returns the country code (e.g., "us", "gb").
    pub fn code(&self) -> (r: &'static str)
        ensures
            r@ == self.spec_code(),
    {
        match self {
            Country::Us => "us",
            Country::Gb => "gb",
            Country::Fr => "fr",
            Country::De => "de",
            Country::Mx => "mx",
            Country::Es => "es",
            Country::Br => "br",
        }
    }
}

/// Flagship voice information: name, voice ID, language, country, gender, and description.
#[derive(Debug, Clone)]
pub struct FlagshipVoice {
    pub name: String,
    pub voice_id: String,
    pub language: Lang,
    pub country: Country,
    pub gender: Gender,
    pub description: String,
}

/// Audio format for encoding/decoding.
#[derive(Debug, Clone, Copy, PartialEq, Eq, Hash, Structural)]
pub enum AudioFormat {
    OggOpus,
    Pcm,
    Ulaw,
}

/// Sample rate of incoming PCM audio.
pub const INPUT_SAMPLE_RATE: usize = 24000;

/// Sample rate of outgoing PCM audio.
pub const OUTPUT_SAMPLE_RATE: usize = 48000;

/// μ-law is a telephony codec defined at 8 kHz (G.711); using it at 24/48 kHz
/// would be non-standard and incompatible with Twilio Media Streams etc.
pub const ULAW_SAMPLE_RATE: usize = 8000;

/// An audio codec together with its sample rate.
#[derive(Debug, Clone, Copy, PartialEq, Eq, Structural)]
pub enum CodecFormat {
    OggOpus,
    Pcm { sample_rate: usize },
    Ulaw { sample_rate: usize },
}

impl AudioFormat {
    /// The codec used to encode outgoing audio in this format.
    pub fn to_encoder_format(self) -> (r: CodecFormat)
        ensures
            r == match self {
                AudioFormat::OggOpus => CodecFormat::OggOpus,
                AudioFormat::Pcm => CodecFormat::Pcm { sample_rate: OUTPUT_SAMPLE_RATE },
                AudioFormat::Ulaw => CodecFormat::Ulaw { sample_rate: ULAW_SAMPLE_RATE },
            },
    {
        match self {
            AudioFormat::OggOpus => CodecFormat::OggOpus,
            AudioFormat::Pcm => CodecFormat::Pcm { sample_rate: OUTPUT_SAMPLE_RATE },
            AudioFormat::Ulaw => CodecFormat::Ulaw { sample_rate: ULAW_SAMPLE_RATE },
        }
    }

    /// The codec used to decode incoming audio in this format.
    pub fn to_decoder_format(self) -> (r: CodecFormat)
        ensures
            r == match self {
                AudioFormat::OggOpus => CodecFormat::OggOpus,
                AudioFormat::Pcm => CodecFormat::Pcm { sample_rate: INPUT_SAMPLE_RATE },
                AudioFormat::Ulaw => CodecFormat::Ulaw { sample_rate: ULAW_SAMPLE_RATE },
            },
    {
        match self {
            AudioFormat::OggOpus => CodecFormat::OggOpus,
            AudioFormat::Pcm => CodecFormat::Pcm { sample_rate: INPUT_SAMPLE_RATE },
            AudioFormat::Ulaw => CodecFormat::Ulaw { sample_rate: ULAW_SAMPLE_RATE },
        }
    }
}

} // verus!
