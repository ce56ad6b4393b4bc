//! Incremental narrated-video pipeline: slide model, cache keys, timing
//! arithmetic and encoder invocation plans.

pub mod cache;
pub mod concat;
pub mod config;
pub mod path;
pub mod preview;
pub mod slide;
pub mod synth;
pub mod text;
pub mod timing;
pub mod video;

pub use cache::{asset_action, audio_cache_key, audio_keys, clip_cache_key, is_fresh, AssetAction, CacheKey};
pub use concat::{clip_order, concat_manifest, ManifestError};
pub use config::{config_section, ConfigError};
pub use path::{audio_cache_key_path, audio_path, image_path};
pub use slide::{slides, trim_speaker_note, NoteEntry, Slide, SlideError};
pub use synth::{audio_configs, audio_format, slide_pauses, transition_pause, tts_config, Config, ProviderKind, SynthesisConfig};
pub use timing::{display_durations, parse_ffmpeg_duration, print_ffmpeg_duration, probe_report_duration, MediaTime};
pub use video::{encoder_args, filter_graph, stream_index, video_filters, video_inputs, video_output_name, Stream};
