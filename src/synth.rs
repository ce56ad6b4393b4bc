//! The synthesis configuration of each slide: what the speech provider is
//! asked for, and the pause that each provider needs between slides.

use vstd::prelude::*;
use crate::slide::Slide;
use crate::text::{contains_text, find_infix};

verus! {

/// The speech providers whose behaviour the pipeline tells apart.
#[derive(Clone, Copy, Debug, PartialEq, Eq, Structural)]
pub enum ProviderKind {
    /// Leaves no pause between clips.
    Google,
    /// Conditions each clip on the narration of its neighbours.
    ElevenLabs,
    /// Any other provider.
    Other,
}

/// The build settings read from the deck's configuration block.
#[derive(Clone, Debug)]
pub struct Config {
    pub provider: Option<String>,
    pub model: Option<String>,
    pub voice: String,
    pub audio_format: Option<String>,
    /// Bit pattern of the requested speech speed.
    pub speed_bits: Option<u64>,
    pub seed: Option<u64>,
    pub language_code: Option<String>,
}

/// Every parameter that decides the synthesized bytes of one slide.
#[derive(Clone, Debug)]
pub struct SynthesisConfig {
    pub voice: Option<String>,
    pub output_format: Option<String>,
    /// Bit pattern of the requested speech speed.
    pub speed_bits: Option<u64>,
    pub seed: Option<u64>,
    pub language_code: Option<String>,
    /// Provider-side seed sent beside the request.
    pub extra_seed: Option<u64>,
    /// Narration of the slide before, for providers that use it.
    pub previous_text: Option<String>,
    /// Narration of the slide after, for providers that use it.
    pub next_text: Option<String>,
}

/// View of an optional string.
pub open spec fn opt_view(o: Option<String>) -> Option<Seq<char>> {
    match o {
        Some(s) => Some(s@),
        None => None,
    }
}

/// The mathematical value of a `SynthesisConfig`.
pub ghost struct SynthesisView {
    pub voice: Option<Seq<char>>,
    pub output_format: Option<Seq<char>>,
    pub speed_bits: Option<u64>,
    pub seed: Option<u64>,
    pub language_code: Option<Seq<char>>,
    pub extra_seed: Option<u64>,
    pub previous_text: Option<Seq<char>>,
    pub next_text: Option<Seq<char>>,
}

impl View for SynthesisConfig {
    type V = SynthesisView;

    open spec fn view(&self) -> SynthesisView {
        SynthesisView {
            voice: opt_view(self.voice),
            output_format: opt_view(self.output_format),
            speed_bits: self.speed_bits,
            seed: self.seed,
            language_code: opt_view(self.language_code),
            extra_seed: self.extra_seed,
            previous_text: opt_view(self.previous_text),
            next_text: opt_view(self.next_text),
        }
    }
}

/// Seed that providers other than Google receive beside the request.
pub const PROVIDER_SEED: u64 = 42;

/// Copy of an optional string.
pub fn clone_opt(o: &Option<String>) -> (r: Option<String>)
    ensures
        opt_view(r) == opt_view(*o),
{
    match o {
        Some(s) => Some(s.clone()),
        None => None,
    }
}

/// Whether two optional strings hold the same text.
pub fn opt_eq(a: &Option<String>, b: &Option<String>) -> (r: bool)
    ensures
        r == (opt_view(*a) == opt_view(*b)),
{
    match (a, b) {
        (Some(x), Some(y)) => x.eq(y),
        (None, None) => true,
        _ => false,
    }
}

impl SynthesisConfig {
    /// Whether both configurations ask for the same synthesis.
    pub fn same_as(&self, other: &SynthesisConfig) -> (r: bool)
        ensures
            r == (self@ == other@),
    {
        opt_eq(&self.voice, &other.voice) && opt_eq(&self.output_format, &other.output_format)
            && self.speed_bits == other.speed_bits && self.seed == other.seed && opt_eq(
            &self.language_code,
            &other.language_code,
        ) && self.extra_seed == other.extra_seed && opt_eq(&self.previous_text, &other.previous_text)
            && opt_eq(&self.next_text, &other.next_text)
    }

    /// A copy with the same view.
    pub fn duplicate(&self) -> (r: SynthesisConfig)
        ensures
            r@ == self@,
    {
        SynthesisConfig {
            voice: clone_opt(&self.voice),
            output_format: clone_opt(&self.output_format),
            speed_bits: self.speed_bits,
            seed: self.seed,
            language_code: clone_opt(&self.language_code),
            extra_seed: self.extra_seed,
            previous_text: clone_opt(&self.previous_text),
            next_text: clone_opt(&self.next_text),
        }
    }
}

/// The synthesis configuration that `config` asks of `provider`, before any
/// neighbouring narration is added.
pub open spec fn base_synthesis(config: Config, provider: ProviderKind) -> SynthesisView {
    SynthesisView {
        voice: Some(config.voice@),
        output_format: opt_view(config.audio_format),
        speed_bits: config.speed_bits,
        seed: config.seed,
        language_code: opt_view(config.language_code),
        extra_seed: if provider == ProviderKind::Google {
            None
        } else {
            Some(PROVIDER_SEED)
        },
        previous_text: None,
        next_text: None,
    }
}

/// The synthesis configuration for `provider` under `config`.
pub fn tts_config(config: &Config, provider: ProviderKind) -> (r: SynthesisConfig)
    ensures
        r@ == base_synthesis(*config, provider),
{
    SynthesisConfig {
        voice: Some(config.voice.clone()),
        output_format: clone_opt(&config.audio_format),
        speed_bits: config.speed_bits,
        seed: config.seed,
        language_code: clone_opt(&config.language_code),
        extra_seed: if provider == ProviderKind::Google {
            None
        } else {
            Some(PROVIDER_SEED)
        },
        previous_text: None,
        next_text: None,
    }
}

/// Narration of the slide before position `idx` (1-based), if any.
pub open spec fn previous_note(slides: Seq<Slide>, idx: int) -> Option<Seq<char>> {
    if 1 < idx && idx - 2 < slides.len() {
        Some(slides[idx - 2].speaker_note@)
    } else {
        None
    }
}

/// Narration of the slide after position `idx` (1-based), if any.
pub open spec fn next_note(slides: Seq<Slide>, idx: int) -> Option<Seq<char>> {
    if 1 <= idx && idx < slides.len() {
        Some(slides[idx].speaker_note@)
    } else {
        None
    }
}

/// Sets the neighbouring narration of the slide at position `idx` (1-based)
/// of `slides`; a side without a neighbour gets none.
pub fn set_previous_and_next_text(tts_config: &mut SynthesisConfig, slides: &[Slide], idx: usize)
    ensures
        final(tts_config)@ == (SynthesisView {
            previous_text: previous_note(slides@, idx as int),
            next_text: next_note(slides@, idx as int),
            ..old(tts_config)@
        }),
{
    let n = slides.len();
    if 1 < idx && idx - 2 < n {
        tts_config.previous_text = Some(slides[idx - 2].speaker_note.clone());
    } else {
        tts_config.previous_text = None;
    }
    if 1 <= idx && idx < n {
        tts_config.next_text = Some(slides[idx].speaker_note.clone());
    } else {
        tts_config.next_text = None;
    }
}

/// The synthesis configuration of the slide at 0-based position `i`.
pub open spec fn slide_synthesis(config: Config, provider: ProviderKind, slides: Seq<Slide>, i: int) -> SynthesisView {
    if provider == ProviderKind::ElevenLabs {
        SynthesisView {
            previous_text: previous_note(slides, i + 1),
            next_text: next_note(slides, i + 1),
            ..base_synthesis(config, provider)
        }
    } else {
        base_synthesis(config, provider)
    }
}

/// The synthesis configuration of every slide, in slide order; providers that
/// condition on neighbours get the narration before and after each slide.
pub fn audio_configs(config: &Config, provider: ProviderKind, slides: &[Slide]) -> (r: Vec<SynthesisConfig>)
    ensures
        r@.len() == slides@.len(),
        forall|i: int| 0 <= i < slides@.len() ==> #[trigger] r@[i]@ == slide_synthesis(*config, provider, slides@, i),
{
    let base = tts_config(config, provider);
    let mut out: Vec<SynthesisConfig> = Vec::new();
    let mut i: usize = 0;
    while i < slides.len()
        invariant
            i <= slides@.len(),
            base@ == base_synthesis(*config, provider),
            out@.len() == i,
            forall|j: int| 0 <= j < i ==> #[trigger] out@[j]@ == slide_synthesis(*config, provider, slides@, j),
        decreases slides@.len() - i,
    {
        let mut c = base.duplicate();
        if provider == ProviderKind::ElevenLabs {
            set_previous_and_next_text(&mut c, slides, i + 1);
        }
        out.push(c);
        i += 1;
    }
    out
}

/// The audio file extension: the configured format, `mp3` by default.
pub fn audio_format(config: &Config) -> (r: String)
    ensures
        r@ == (match config.audio_format {
            Some(f) => f@,
            None => "mp3"@,
        }),
{
    match &config.audio_format {
        Some(f) => f.clone(),
        None => String::from_str("mp3"),
    }
}

/// Lower-case form of a string, as Unicode case mapping gives it.
pub uninterp spec fn lower_of(s: Seq<char>) -> Seq<char>;

/// Relies on `str::to_lowercase`: the result depends on the characters alone.
#[verifier::external_body]
fn lowercase(s: &str) -> (r: String)
    ensures
        r@ == lower_of(s@),
{
    s.to_lowercase()
}

/// Pause after an interior slide, in milliseconds, for `provider` running
/// `model`: Google and Zonos models leave no pause of their own and get 200,
/// ElevenLabs spaces clips through neighbouring text and gets none, every
/// other model gets a short 50.
pub open spec fn pause_ms(provider: ProviderKind, model: Option<Seq<char>>) -> nat {
    if provider == ProviderKind::Google {
        200
    } else if provider == ProviderKind::ElevenLabs {
        0
    } else {
        match model {
            Some(m) => if find_infix(lower_of(m), 0, "zonos"@) is Some {
                200
            } else {
                50
            },
            None => 50,
        }
    }
}

/// Pause held after the last slide, in milliseconds, so that players do not
/// cut the end of the narration.
pub const FINAL_PAUSE_MS: u64 = 500;

/// Pause after an interior slide, in milliseconds.
pub fn transition_pause(model: &Option<String>, provider: ProviderKind) -> (r: u64)
    ensures
        r == pause_ms(provider, opt_view(*model)),
{
    if provider == ProviderKind::Google {
        return 200;
    }
    if provider == ProviderKind::ElevenLabs {
        return 0;
    }
    if let Some(m) = model {
        let lower = lowercase(m.as_str());
        if contains_text(lower.as_str(), "zonos") {
            return 200;
        }
    }
    50
}

/// Pause after the slide at 0-based position `i` of `n`.
pub open spec fn slide_pause(provider: ProviderKind, model: Option<Seq<char>>, i: int, n: int) -> nat {
    if i < n - 1 {
        pause_ms(provider, model)
    } else {
        FINAL_PAUSE_MS as nat
    }
}

/// Pause after each of `n` slides: the provider's transition pause, and the
/// final pause after the last one.
pub fn slide_pauses(model: &Option<String>, provider: ProviderKind, n: usize) -> (r: Vec<u64>)
    ensures
        r@.len() == n,
        forall|i: int| 0 <= i < n ==> #[trigger] r@[i] == slide_pause(provider, opt_view(*model), i, n as int),
{
    let p = transition_pause(model, provider);
    let mut out: Vec<u64> = Vec::new();
    let mut i: usize = 0;
    while i < n
        invariant
            i <= n,
            p == pause_ms(provider, opt_view(*model)),
            out@.len() == i,
            forall|j: int| 0 <= j < i ==> #[trigger] out@[j] == slide_pause(provider, opt_view(*model), j, n as int),
        decreases n - i,
    {
        if i + 1 < n {
            out.push(p);
        } else {
            out.push(FINAL_PAUSE_MS);
        }
        i += 1;
    }
    out
}

} // verus!
