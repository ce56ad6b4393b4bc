//! Content-addressed freshness of generated assets: the fingerprint of each
//! asset, the decision to reuse or regenerate it, and the laws that the
//! decision obeys across builds.

use vstd::prelude::*;
use crate::slide::Slide;
use crate::synth::{
    audio_configs, next_note, slide_synthesis, Config, ProviderKind, SynthesisConfig, SynthesisView,
};

verus! {

/// Fingerprint of a slide's narration audio.
#[derive(Clone, Debug)]
pub struct AudioCacheKey {
    pub text: String,
    pub config: SynthesisConfig,
}

/// Fingerprint of a slide's still-image clip: the slide, its narration, the
/// synthesis that voiced it and a digest of the rendered image's bytes.
#[derive(Clone, Debug)]
pub struct ClipCacheKey {
    pub slide: u64,
    pub text: String,
    pub config: SynthesisConfig,
    pub image_digest: String,
}

/// Fingerprint of a generated asset, by kind of asset.
#[derive(Clone, Debug)]
pub enum CacheKey {
    Audio(AudioCacheKey),
    Clip(ClipCacheKey),
}

/// The mathematical value of a fingerprint.
pub ghost enum CacheKeyView {
    Audio { text: Seq<char>, config: SynthesisView },
    Clip { slide: u64, text: Seq<char>, config: SynthesisView, image_digest: Seq<char> },
}

impl View for CacheKey {
    type V = CacheKeyView;

    open spec fn view(&self) -> CacheKeyView {
        match self {
            CacheKey::Audio(k) => CacheKeyView::Audio { text: k.text@, config: k.config@ },
            CacheKey::Clip(k) => CacheKeyView::Clip {
                slide: k.slide,
                text: k.text@,
                config: k.config@,
                image_digest: k.image_digest@,
            },
        }
    }
}

/// View of a stored fingerprint, if one could be read.
pub open spec fn stored_view(stored: Option<CacheKey>) -> Option<CacheKeyView> {
    match stored {
        Some(k) => Some(k@),
        None => None,
    }
}

impl CacheKey {
    /// Whether both fingerprints are equal field by field.
    pub fn same_as(&self, other: &CacheKey) -> (r: bool)
        ensures
            r == (self@ == other@),
    {
        match (self, other) {
            (CacheKey::Audio(a), CacheKey::Audio(b)) => a.text.eq(&b.text) && a.config.same_as(&b.config),
            (CacheKey::Clip(a), CacheKey::Clip(b)) => a.slide == b.slide && a.text.eq(&b.text)
                && a.config.same_as(&b.config) && a.image_digest.eq(&b.image_digest),
            _ => false,
        }
    }
}

/// An asset is fresh when it is present and the fingerprint stored beside it
/// equals the one computed now. A missing or unreadable fingerprint is no
/// match.
pub open spec fn fresh(stored: Option<CacheKeyView>, asset_present: bool, current: CacheKeyView) -> bool {
    asset_present && stored == Some(current)
}

/// Whether the asset guarded by `current` can be reused: `stored` is the
/// fingerprint read from its sidecar, `None` when the sidecar is absent or
/// does not hold a readable fingerprint.
pub fn is_fresh(stored: &Option<CacheKey>, asset_present: bool, current: &CacheKey) -> (r: bool)
    ensures
        r == fresh(stored_view(*stored), asset_present, current@),
{
    if !asset_present {
        return false;
    }
    match stored {
        Some(k) => k.same_as(current),
        None => false,
    }
}

/// What the pipeline does about one asset.
#[derive(Clone, Copy, Debug, PartialEq, Eq, Structural)]
pub enum AssetAction {
    /// The asset is reused as it is.
    Skip,
    /// The asset is generated anew; when `commit` holds, its fingerprint is
    /// written after the asset itself.
    Generate { commit: bool },
}

/// With caching on, a fresh asset is skipped; everything else is generated,
/// and its fingerprint committed when caching is on.
pub open spec fn action_for(cache: bool, stored: Option<CacheKeyView>, asset_present: bool, current: CacheKeyView) -> AssetAction {
    if cache && fresh(stored, asset_present, current) {
        AssetAction::Skip
    } else {
        AssetAction::Generate { commit: cache }
    }
}

/// Decides whether the asset guarded by `current` is reused or generated.
pub fn asset_action(cache: bool, stored: &Option<CacheKey>, asset_present: bool, current: &CacheKey) -> (r: AssetAction)
    ensures
        r == action_for(cache, stored_view(*stored), asset_present, current@),
{
    if cache && is_fresh(stored, asset_present, current) {
        AssetAction::Skip
    } else {
        AssetAction::Generate { commit: cache }
    }
}

/// The stored fingerprint and the asset's presence once `action` has been
/// carried out: a generated asset is written, then its fingerprint committed
/// if asked.
pub open spec fn state_after(
    action: AssetAction,
    stored: Option<CacheKeyView>,
    asset_present: bool,
    current: CacheKeyView,
) -> (Option<CacheKeyView>, bool) {
    match action {
        AssetAction::Skip => (stored, asset_present),
        AssetAction::Generate { commit } => (if commit {
            Some(current)
        } else {
            stored
        }, true),
    }
}

/// Fingerprint of the narration audio of `slide` synthesized with `config`.
pub fn audio_cache_key(slide: &Slide, config: &SynthesisConfig) -> (r: CacheKey)
    ensures
        r@ == (CacheKeyView::Audio { text: slide.speaker_note@, config: config@ }),
{
    CacheKey::Audio(AudioCacheKey { text: slide.speaker_note.clone(), config: config.duplicate() })
}

/// Fingerprint of the clip of `slide`, voiced with `config`, over an image
/// whose bytes have the digest `image_digest`.
pub fn clip_cache_key(slide: &Slide, config: &SynthesisConfig, image_digest: &str) -> (r: CacheKey)
    ensures
        r@ == (CacheKeyView::Clip {
            slide: slide.idx,
            text: slide.speaker_note@,
            config: config@,
            image_digest: image_digest@,
        }),
{
    CacheKey::Clip(
        ClipCacheKey {
            slide: slide.idx,
            text: slide.speaker_note.clone(),
            config: config.duplicate(),
            image_digest: String::from_str(image_digest),
        },
    )
}

/// Fingerprint of the audio of the slide at 0-based position `i`.
pub open spec fn audio_key_of(config: Config, provider: ProviderKind, slides: Seq<Slide>, i: int) -> CacheKeyView {
    CacheKeyView::Audio { text: slides[i].speaker_note@, config: slide_synthesis(config, provider, slides, i) }
}

/// Fingerprint of the audio of every slide, in slide order.
pub fn audio_keys(config: &Config, provider: ProviderKind, slides: &[Slide]) -> (r: Vec<CacheKey>)
    ensures
        r@.len() == slides@.len(),
        forall|i: int| 0 <= i < slides@.len() ==> #[trigger] r@[i]@ == audio_key_of(*config, provider, slides@, i),
{
    let configs = audio_configs(config, provider, slides);
    let mut out: Vec<CacheKey> = Vec::new();
    let mut i: usize = 0;
    while i < slides.len()
        invariant
            i <= slides@.len(),
            configs@.len() == slides@.len(),
            forall|j: int| 0 <= j < slides@.len() ==> #[trigger] configs@[j]@ == slide_synthesis(*config, provider, slides@, j),
            out@.len() == i,
            forall|j: int| 0 <= j < i ==> #[trigger] out@[j]@ == audio_key_of(*config, provider, slides@, j),
        decreases slides@.len() - i,
    {
        let k = audio_cache_key(&slides[i], &configs[i]);
        out.push(k);
        i += 1;
    }
    out
}

/// A second build over unchanged inputs regenerates nothing: whatever an
/// asset's state before a cached build, once that build has carried out its
/// action the same fingerprint finds the asset fresh and skips it.
pub proof fn lemma_rebuild_skips(stored: Option<CacheKeyView>, asset_present: bool, current: CacheKeyView)
    ensures
        ({
            let action = action_for(true, stored, asset_present, current);
            let (stored2, present2) = state_after(action, stored, asset_present, current);
            action_for(true, stored2, present2, current) == AssetAction::Skip
        }),
{
}

/// A sidecar that held no readable fingerprint is a miss: the asset is
/// generated and, with caching on, its fingerprint written anew, after which
/// the asset is fresh.
pub proof fn lemma_unreadable_fingerprint_regenerates(cache: bool, asset_present: bool, current: CacheKeyView)
    ensures
        action_for(cache, None, asset_present, current) == (AssetAction::Generate { commit: cache }),
        cache ==> ({
            let (stored2, present2) = state_after(
                AssetAction::Generate { commit: cache },
                None,
                asset_present,
                current,
            );
            fresh(stored2, present2, current)
        }),
{
}

/// `edited` is `slides` with only the narration of position `k` changed.
pub open spec fn narration_edited(slides: Seq<Slide>, edited: Seq<Slide>, k: int) -> bool {
    &&& 0 <= k < slides.len()
    &&& edited.len() == slides.len()
    &&& edited[k].idx == slides[k].idx
    &&& edited[k].speaker_note@ != slides[k].speaker_note@
    &&& forall|j: int| 0 <= j < slides.len() && j != k ==> #[trigger] edited[j].idx == slides[j].idx
        && edited[j].speaker_note@ == slides[j].speaker_note@
}

/// Changing the narration of one slide, for a provider that does not look at
/// neighbouring slides, changes that slide's audio fingerprint and no other:
/// after a cached build, every other slide is skipped and that one is
/// generated, and so is the clip that shows it.
pub proof fn lemma_narration_edit_invalidates_one_slide(
    config: Config,
    provider: ProviderKind,
    slides: Seq<Slide>,
    edited: Seq<Slide>,
    k: int,
    clip_config: SynthesisView,
    image_digest: Seq<char>,
)
    requires
        provider != ProviderKind::ElevenLabs,
        narration_edited(slides, edited, k),
    ensures
        action_for(
            true,
            Some(
                CacheKeyView::Clip {
                    slide: slides[k].idx,
                    text: slides[k].speaker_note@,
                    config: clip_config,
                    image_digest,
                },
            ),
            true,
            CacheKeyView::Clip {
                slide: edited[k].idx,
                text: edited[k].speaker_note@,
                config: clip_config,
                image_digest,
            },
        ) == (AssetAction::Generate { commit: true }),
        action_for(true, Some(audio_key_of(config, provider, slides, k)), true, audio_key_of(config, provider, edited, k))
            == (AssetAction::Generate { commit: true }),
        forall|j: int| 0 <= j < slides.len() && j != k ==> action_for(
            true,
            Some(audio_key_of(config, provider, slides, j)),
            true,
            #[trigger] audio_key_of(config, provider, edited, j),
        ) == AssetAction::Skip,
{
    assert forall|j: int| 0 <= j < slides.len() && j != k implies #[trigger] audio_key_of(config, provider, edited, j)
        == audio_key_of(config, provider, slides, j) by {
        assert(edited[j].idx == slides[j].idx);
    }
}

/// For a provider that conditions each slide on its neighbours, changing the
/// narration of slide `k + 1` changes the audio fingerprint of slide `k`, so
/// a cached build generates slide `k` again.
pub proof fn lemma_next_slide_edit_invalidates_previous(
    config: Config,
    slides: Seq<Slide>,
    edited: Seq<Slide>,
    k: int,
)
    requires
        narration_edited(slides, edited, k + 1),
        0 <= k,
    ensures
        audio_key_of(config, ProviderKind::ElevenLabs, edited, k) != audio_key_of(
            config,
            ProviderKind::ElevenLabs,
            slides,
            k,
        ),
        action_for(
            true,
            Some(audio_key_of(config, ProviderKind::ElevenLabs, slides, k)),
            true,
            audio_key_of(config, ProviderKind::ElevenLabs, edited, k),
        ) == (AssetAction::Generate { commit: true }),
{
    let a = slide_synthesis(config, ProviderKind::ElevenLabs, slides, k);
    let b = slide_synthesis(config, ProviderKind::ElevenLabs, edited, k);
    assert(a.next_text == next_note(slides, k + 1));
    assert(b.next_text == next_note(edited, k + 1));
    assert(a.next_text != b.next_text);
}

/// Re-rendering a slide's image with other bytes changes the digest, and so
/// the clip's fingerprint, while the audio fingerprint of the slide, which no
/// image enters, stays fresh.
pub proof fn lemma_image_edit_invalidates_clip_only(
    slide: u64,
    text: Seq<char>,
    config: SynthesisView,
    old_digest: Seq<char>,
    new_digest: Seq<char>,
)
    requires
        old_digest != new_digest,
    ensures
        ({
            let audio = CacheKeyView::Audio { text, config };
            action_for(true, Some(audio), true, audio) == AssetAction::Skip
        }),
        action_for(
            true,
            Some(CacheKeyView::Clip { slide, text, config, image_digest: old_digest }),
            true,
            CacheKeyView::Clip { slide, text, config, image_digest: new_digest },
        ) == (AssetAction::Generate { commit: true }),
{
}

} // verus!
