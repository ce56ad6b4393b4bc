use trv::cache::AudioCacheKey;
use trv::video::{clip_args, clip_path, concat_args};
use trv::preview::{add_timestamp, core_html, index_html, is_stale_file, public_dir};
use trv::synth::set_previous_and_next_text;
use trv::text::{contains_text, decimal};
use trv::{
    asset_action, audio_cache_key, audio_cache_key_path, audio_configs, audio_format, audio_keys,
    audio_path, clip_cache_key, clip_order, concat_manifest, config_section, display_durations,
    encoder_args, filter_graph, image_path, is_fresh, parse_ffmpeg_duration, print_ffmpeg_duration,
    probe_report_duration, slide_pauses, slides, stream_index, transition_pause,
    trim_speaker_note, tts_config, video_filters, video_inputs, video_output_name, AssetAction,
    CacheKey, Config, ConfigError, ManifestError, MediaTime, NoteEntry, ProviderKind, Slide,
    SlideError, Stream,
};

fn slide(idx: u64, note: &str) -> Slide {
    Slide { idx, speaker_note: note.to_string() }
}

fn config() -> Config {
    Config {
        provider: None,
        model: None,
        voice: "af_sky".to_string(),
        audio_format: None,
        speed_bits: Some(1.25f64.to_bits()),
        seed: Some(7),
        language_code: None,
    }
}

fn deck() -> Vec<Slide> {
    vec![slide(1, "One."), slide(2, "Two."), slide(3, "Three.")]
}

fn ms(h: u32, m: u32, s: u32, milli: u32) -> MediaTime {
    MediaTime::from_hms_milli_opt(h, m, s, milli).unwrap()
}

#[test]
fn test_trim_speaker_note() {
    let text = "\n    foo.\n\nbar.\n\n ";
    let out = trim_speaker_note(text);
    assert_eq!(out, "foo.\n\nbar.");
}

#[test]
fn test_parse_ffprobe_duration() {
    assert_eq!(parse_ffmpeg_duration("00:00:00.50").unwrap(), ms(0, 0, 0, 500));
    assert_eq!(parse_ffmpeg_duration("00:00:01.45").unwrap(), ms(0, 0, 1, 450));
    assert_eq!(parse_ffmpeg_duration("00:01:00.45").unwrap(), ms(0, 1, 0, 450));
    assert_eq!(parse_ffmpeg_duration("01:00:00.45").unwrap(), ms(1, 0, 0, 450));
    assert_eq!(parse_ffmpeg_duration("01:00:00.99").unwrap(), ms(1, 0, 0, 990));
}

#[test]
fn test_print_ffmpeg_duration() {
    assert_eq!(print_ffmpeg_duration(&ms(0, 0, 0, 500)), "00:00:00.50");
    assert_eq!(print_ffmpeg_duration(&ms(0, 0, 10, 10)), "00:00:10.01");
    assert_eq!(print_ffmpeg_duration(&ms(0, 0, 10, 990)), "00:00:10.99");
}

#[test]
fn trim_joins_single_line_breaks() {
    assert_eq!(trim_speaker_note("  a\n  b  \n\n\n c\t"), "ab\n\nc");
    assert_eq!(trim_speaker_note(""), "");
    assert_eq!(trim_speaker_note(" \n \n "), "");
}

#[test]
fn parse_duration_fraction_digits() {
    assert_eq!(parse_ffmpeg_duration("00:00:02.5").unwrap(), ms(0, 0, 2, 500));
    assert_eq!(parse_ffmpeg_duration("00:00:02.1234").unwrap(), ms(0, 0, 2, 123));
    assert_eq!(parse_ffmpeg_duration("23:59:59.99").unwrap().millis, 86_399_990);
}

#[test]
fn parse_duration_rejects_malformed_text() {
    assert_eq!(parse_ffmpeg_duration("N/A"), None);
    assert_eq!(parse_ffmpeg_duration("24:00:00.00"), None);
    assert_eq!(parse_ffmpeg_duration("00:60:00.00"), None);
    assert_eq!(parse_ffmpeg_duration("00:00:60.00"), None);
    assert_eq!(parse_ffmpeg_duration("00:00:01"), None);
    assert_eq!(parse_ffmpeg_duration("00:0a:01.00"), None);
    assert_eq!(parse_ffmpeg_duration("00:00:01."), None);
}

#[test]
fn probe_report_gives_labelled_duration() {
    let report = "Input #0, mp3, from 'audio/1.mp3':\n  Duration: 00:00:03.52, start: 0.025057, bitrate: 64 kb/s\n";
    assert_eq!(probe_report_duration(report).unwrap(), ms(0, 0, 3, 520));
    assert_eq!(probe_report_duration("  Duration: 00:01:02.03"), Some(ms(0, 1, 2, 30)));
    assert_eq!(probe_report_duration("no duration here"), None);
    assert_eq!(probe_report_duration("Duration: N/A, bitrate: N/A"), None);
}

#[test]
fn print_then_parse_gives_back_the_time() {
    let t = ms(1, 2, 3, 450);
    assert_eq!(parse_ffmpeg_duration(&print_ffmpeg_duration(&t)).unwrap(), t);
}

#[test]
fn media_time_rejects_out_of_range_fields() {
    assert!(MediaTime::from_hms_milli_opt(24, 0, 0, 0).is_none());
    assert!(MediaTime::from_hms_milli_opt(0, 0, 0, 1000).is_none());
    assert_eq!(ms(1, 1, 1, 1).millis, 3_661_001);
}

#[test]
fn asset_paths() {
    let s = slide(3, "x");
    assert_eq!(audio_path("_out", &s, "mp3"), "_out/audio/3.mp3");
    assert_eq!(image_path("_out/", &s), "_out/image/3.png");
    assert_eq!(audio_cache_key_path("", &s), "audio/3.audio.cache_key");
    assert_eq!(decimal(1200), "1200");
}

#[test]
fn stream_indexing_follows_slide_position() {
    let slides = deck();
    assert_eq!(stream_index(&slides[1], Stream::Audio), 2);
    assert_eq!(stream_index(&slides[1], Stream::Video), 3);
    assert_eq!(stream_index(&slide(2, "other text"), Stream::Video), 3);
    assert_eq!(stream_index(&slides[0], Stream::Audio), 0);
    assert_eq!(video_output_name(&slides[2]), "v3");
}

#[test]
fn filter_graph_of_two_slides() {
    let slides = vec![slide(1, "a"), slide(2, "b")];
    assert_eq!(
        video_filters(&slides),
        vec![
            "[1:v]scale=-1:1920,format=yuv420p[v1];".to_string(),
            "[3:v]scale=-1:1920,format=yuv420p[v2];".to_string()
        ]
    );
    assert_eq!(video_inputs(&slides), vec!["[v1][0:a]".to_string(), "[v2][2:a]".to_string()]);
    assert_eq!(
        filter_graph(&slides),
        "[1:v]scale=-1:1920,format=yuv420p[v1]; [3:v]scale=-1:1920,format=yuv420p[v2]; [v1][0:a][v2][2:a] concat=n=2:v=1:a=1 [outv] [outa]"
    );
}

#[test]
fn encoder_arguments_of_one_slide() {
    let slides = vec![slide(1, "a")];
    let args = encoder_args("out", &slides, "mp3", &vec![ms(0, 0, 2, 500)], "opus", "out.mp4");
    let expected: Vec<&str> = vec![
        "-y", "-i", "out/audio/1.mp3", "-loop", "1", "-framerate", "1", "-t", "00:00:02.50", "-i",
        "out/image/1.png", "-filter_complex",
        "[1:v]scale=-1:1920,format=yuv420p[v1]; [v1][0:a] concat=n=1:v=1:a=1 [outv] [outa]",
        "-map", "[outv]", "-r", "30", "-map", "[outa]", "-tune", "stillimage", "-strict", "-2",
        "-c:a", "opus", "-shortest", "-movflags", "faststart", "out/out.mp4",
    ];
    assert_eq!(args, expected);
}

#[test]
fn pauses_by_provider_and_model() {
    assert_eq!(transition_pause(&None, ProviderKind::Google), 200);
    assert_eq!(transition_pause(&None, ProviderKind::ElevenLabs), 0);
    assert_eq!(transition_pause(&Some("Zyphra/Zonos-v0.1-hybrid".to_string()), ProviderKind::Other), 200);
    assert_eq!(transition_pause(&Some("hexgrad/Kokoro-82M".to_string()), ProviderKind::Other), 50);
    assert_eq!(transition_pause(&None, ProviderKind::Other), 50);
    assert_eq!(slide_pauses(&None, ProviderKind::Google, 3), vec![200, 200, 500]);
    assert_eq!(slide_pauses(&None, ProviderKind::Other, 1), vec![500]);
    assert!(contains_text("abc", "bc"));
    assert!(!contains_text("abc", "cb"));
}

#[test]
fn display_time_adds_up_to_audio_plus_pauses() {
    let probed = vec![ms(0, 0, 3, 520), ms(0, 0, 1, 0), ms(0, 1, 0, 10)];
    let pauses = slide_pauses(&None, ProviderKind::Google, 3);
    let displays = display_durations(&probed, &pauses).unwrap();
    let total: u64 = displays.iter().map(|d| d.millis).sum();
    let audio: u64 = probed.iter().map(|d| d.millis).sum();
    let pause: u64 = pauses.iter().sum();
    assert_eq!(total, audio + pause);
    assert_eq!(total, 3_520 + 1_000 + 60_010 + 200 + 200 + 500);
    assert_eq!(display_durations(&vec![ms(23, 59, 59, 900)], &vec![500]), None);
}

#[test]
fn concat_manifest_orders_numerically() {
    let names = vec!["2.mp4".to_string(), "10.mp4".to_string(), "1.mp4".to_string()];
    assert_eq!(clip_order(&names).unwrap(), vec![2, 0, 1]);
    assert_eq!(
        concat_manifest(&names).unwrap(),
        "file '1.mp4'\nfile '2.mp4'\nfile '10.mp4'\n"
    );
    let bad = vec!["1.mp4".to_string(), "intro.mp4".to_string()];
    assert_eq!(concat_manifest(&bad), Err(ManifestError::NotNumbered { position: 1 }));
    assert_eq!(concat_manifest(&vec![]).unwrap(), "");
}

#[test]
fn config_block_is_extracted() {
    let src = "#import \"x\"\n// --- trv config:\n// provider = \"google\"\n  // voice = \"en-US\"\n// ---\n// not config\n";
    assert_eq!(config_section(src).unwrap(), "provider = \"google\"\nvoice = \"en-US\"");
    assert_eq!(config_section("no block\n").unwrap(), "");
    assert_eq!(
        config_section("// --- trv config:\nvoice = 1\n// ---\n"),
        Err(ConfigError::UnprefixedLine { line: 1 })
    );
}

fn entry(tag: Option<&str>, v: Option<u64>, t: Option<&str>) -> NoteEntry {
    NoteEntry {
        tag: tag.map(|s| s.to_string()),
        value_u64: v,
        value_text: t.map(|s| s.to_string()),
    }
}

#[test]
fn slides_from_note_entries() {
    let entries = vec![
        entry(Some("NewSlide"), None, None),
        entry(None, Some(0), None),
        entry(None, None, None),
        entry(None, None, None),
        entry(None, None, Some("  Hello\n world. ")),
        entry(Some("Other"), None, None),
    ];
    let out = slides(&entries).unwrap();
    assert_eq!(out.len(), 1);
    assert_eq!(out[0].idx, 1);
    assert_eq!(out[0].speaker_note, "Helloworld.");
    let truncated = vec![entry(Some("NewSlide"), None, None), entry(None, Some(0), None)];
    assert_eq!(slides(&truncated).unwrap_err(), SlideError::Truncated { position: 0 });
    let mut bad_index = entries.clone();
    bad_index[1] = entry(None, None, Some("x"));
    assert_eq!(slides(&bad_index).unwrap_err(), SlideError::BadIndex { position: 0 });
    let mut bad_note = entries.clone();
    bad_note[4] = entry(None, Some(3), None);
    assert_eq!(slides(&bad_note).unwrap_err(), SlideError::BadNote { position: 0 });
}

#[test]
fn synthesis_config_per_provider() {
    let c = config();
    let google = tts_config(&c, ProviderKind::Google);
    assert_eq!(google.extra_seed, None);
    assert_eq!(google.voice.as_deref(), Some("af_sky"));
    let other = tts_config(&c, ProviderKind::Other);
    assert_eq!(other.extra_seed, Some(42));
    assert_eq!(audio_format(&c), "mp3");
    let slides = deck();
    let mut cfg = tts_config(&c, ProviderKind::ElevenLabs);
    set_previous_and_next_text(&mut cfg, &slides, 3);
    assert_eq!(cfg.previous_text.as_deref(), Some("Two."));
    assert_eq!(cfg.next_text, None);
    let configs = audio_configs(&c, ProviderKind::ElevenLabs, &slides);
    assert_eq!(configs[0].previous_text, None);
    assert_eq!(configs[0].next_text.as_deref(), Some("Two."));
    assert_eq!(configs[1].previous_text.as_deref(), Some("One."));
}

fn committed(key: &CacheKey) -> Option<CacheKey> {
    Some(key.clone())
}

#[test]
fn unchanged_inputs_are_skipped() {
    let c = config();
    let first = audio_keys(&c, ProviderKind::Other, &deck());
    let second = audio_keys(&c, ProviderKind::Other, &deck());
    for i in 0..3 {
        assert_eq!(asset_action(true, &None, false, &first[i]), AssetAction::Generate { commit: true });
        assert_eq!(asset_action(true, &committed(&first[i]), true, &second[i]), AssetAction::Skip);
    }
    assert_eq!(
        asset_action(false, &committed(&first[0]), true, &second[0]),
        AssetAction::Generate { commit: false }
    );
}

#[test]
fn narration_edit_invalidates_only_that_slide() {
    let c = config();
    let slides = deck();
    let before = audio_keys(&c, ProviderKind::Other, &slides);
    let mut edited = deck();
    edited[1].speaker_note = "Two, reworded.".to_string();
    let after = audio_keys(&c, ProviderKind::Other, &edited);
    for i in 0..3 {
        let action = asset_action(true, &committed(&before[i]), true, &after[i]);
        if i == 1 {
            assert_eq!(action, AssetAction::Generate { commit: true });
        } else {
            assert_eq!(action, AssetAction::Skip);
        }
    }
}

#[test]
fn neighbour_edit_invalidates_previous_slide() {
    let c = config();
    let slides = deck();
    let before = audio_keys(&c, ProviderKind::ElevenLabs, &slides);
    let mut edited = deck();
    edited[2].speaker_note = "Three, reworded.".to_string();
    let after = audio_keys(&c, ProviderKind::ElevenLabs, &edited);
    assert_eq!(asset_action(true, &committed(&before[1]), true, &after[1]), AssetAction::Generate { commit: true });
    assert_eq!(asset_action(true, &committed(&before[0]), true, &after[0]), AssetAction::Skip);
}

#[test]
fn image_edit_invalidates_clip_only() {
    let c = tts_config(&config(), ProviderKind::Other);
    let s = slide(2, "Two.");
    let audio = audio_cache_key(&s, &c);
    let old_clip = clip_cache_key(&s, &c, "sha256:aaaa");
    let new_clip = clip_cache_key(&s, &c, "sha256:bbbb");
    assert_eq!(asset_action(true, &committed(&audio), true, &audio), AssetAction::Skip);
    assert_eq!(asset_action(true, &committed(&old_clip), true, &new_clip), AssetAction::Generate { commit: true });
    assert!(!is_fresh(&committed(&audio), true, &old_clip));
}

#[test]
fn unreadable_fingerprint_is_a_miss() {
    let c = tts_config(&config(), ProviderKind::Other);
    let key = audio_cache_key(&slide(1, "One."), &c);
    assert!(!is_fresh(&None, true, &key));
    assert_eq!(asset_action(true, &None, true, &key), AssetAction::Generate { commit: true });
    assert!(is_fresh(&committed(&key), true, &key));
    assert!(!is_fresh(&committed(&key), false, &key));
    let other_text = CacheKey::Audio(AudioCacheKey { text: "Changed.".to_string(), config: c.clone() });
    assert!(!is_fresh(&committed(&other_text), true, &key));
}

#[test]
fn preview_file_names_carry_the_timestamp() {
    assert_eq!(add_timestamp("1.png", 1700000000), "1_1700000000.png");
    assert_eq!(add_timestamp("archive.tar.gz", 5), "archive.tar_5.gz");
    assert_eq!(add_timestamp("README", 5), "README_5.");
    assert_eq!(add_timestamp(".hidden", 5), ".hidden_5.");
    assert_eq!(public_dir("_out"), "_out/public");
    assert!(is_stale_file("1_41.png", 42));
    assert!(!is_stale_file("1_42.png", 42));
    assert!(!is_stale_file("index.html", 42));
    assert!(!is_stale_file("README", 42));
}

#[test]
fn preview_page_lists_every_slide() {
    let block = core_html(&slide(2, "x"), 9, "mp3");
    assert_eq!(
        block,
        "<div class='slide'>\n    <h2>Slide 2</h2>\n\n    <a href='2_9.png'>\n        <img src='2_9.png' alt='Slide 2'/><br/>\n    </a>\n    <audio controls src='2_9.mp3'/></audio>\n</div>\n"
    );
    let page = index_html(&[slide(1, "a"), slide(2, "b")], "mp3", 9, 77, true);
    assert!(page.starts_with("<!DOCTYPE html>\n<html lang='en'>\n"));
    assert!(page.contains("Waiting for first build..."));
    assert!(page.contains("<h2>Slide 1</h2>"));
    assert!(page.contains("</div>\n\n<div class='slide'>\n    <h2>Slide 2</h2>"));
    assert!(page.ends_with("<div id='timestamp' style='display: none;'>77</div>\n</body>\n</html>\n"));
    let later = index_html(&[], "mp3", 9, 78, false);
    assert!(!later.contains("Waiting"));
}

#[test]
fn clip_and_concat_arguments() {
    let s = slide(4, "x");
    assert_eq!(clip_path("out", &s), "out/video/4.mp4");
    let args = clip_args("out", &s, "wav", &ms(0, 0, 1, 250), "aac");
    let expected: Vec<&str> = vec![
        "-y", "-loop", "1", "-framerate", "1", "-t", "00:00:01.25", "-i", "out/image/4.png", "-i",
        "out/audio/4.wav", "-vf", "scale=-1:1920,format=yuv420p", "-r", "30", "-tune",
        "stillimage", "-strict", "-2", "-c:a", "aac", "-shortest", "out/video/4.mp4",
    ];
    assert_eq!(args, expected);
    assert_eq!(
        concat_args("out/clips.txt", "out/out.mp4"),
        vec!["-y", "-f", "concat", "-safe", "0", "-i", "out/clips.txt", "-c", "copy", "out/out.mp4"]
    );
}
