//! The single encoder invocation that assembles the whole deck: input
//! stream bookkeeping, the filter graph and the argument list.

use vstd::prelude::*;
use crate::path::{asset_path, audio_path, image_path, joined, push_component};
use crate::slide::Slide;
use crate::text::{dec, push_char, push_decimal};
use crate::timing::{clock_text, print_ffmpeg_duration, MediaTime};

verus! {

/// Output height of every slide image, in pixels.
pub const HEIGHT: u64 = 1920;

/// The two encoder inputs of a slide.
#[derive(Clone, Copy, Debug, PartialEq, Eq, Structural)]
pub enum Stream {
    Audio,
    Video,
}

/// A slide position whose stream slots fit in a `u64`.
pub open spec fn index_fits(idx: u64) -> bool {
    1 <= idx && idx < 0x8000_0000_0000_0000
}

/// Every slide of `slides` has a position whose slots fit.
pub open spec fn indices_fit(slides: Seq<Slide>) -> bool {
    forall|i: int| 0 <= i < slides.len() ==> index_fits(#[trigger] slides[i].idx)
}

/// Input slot of a stream of slide `idx`: audio at `2*(idx-1)`, image right
/// after it.
pub open spec fn stream_slot(idx: nat, stream: Stream) -> nat {
    match stream {
        Stream::Audio => (2 * (idx - 1)) as nat,
        Stream::Video => (2 * (idx - 1) + 1) as nat,
    }
}

/// Input slot of `stream` of `slide`.
pub fn stream_index(slide: &Slide, stream: Stream) -> (r: u64)
    requires
        index_fits(slide.idx),
    ensures
        r == stream_slot(slide.idx as nat, stream),
{
    let index = 2 * (slide.idx - 1);
    match stream {
        Stream::Audio => index,
        Stream::Video => index + 1,
    }
}

/// Label of the scaled image stream of slide `idx`: `v{idx}`.
pub open spec fn output_label(idx: nat) -> Seq<char> {
    seq!['v'] + dec(idx)
}

/// Label of the scaled image stream of `slide`, such as `v1`.
pub fn video_output_name(slide: &Slide) -> (r: String)
    ensures
        r@ == output_label(slide.idx as nat),
{
    let mut out = String::new();
    push_char(&mut out, 'v');
    push_decimal(&mut out, slide.idx);
    out
}

/// `[{slot}:v]scale=-1:{HEIGHT},format=yuv420p[v{idx}];`
pub open spec fn filter_of(idx: nat) -> Seq<char> {
    seq!['['] + dec(stream_slot(idx, Stream::Video)) + ":v]scale=-1:"@ + dec(HEIGHT as nat)
        + ",format=yuv420p["@ + output_label(idx) + "];"@
}

/// `[v{idx}][{slot}:a]`
pub open spec fn pair_of(idx: nat) -> Seq<char> {
    seq!['['] + output_label(idx) + "]["@ + dec(stream_slot(idx, Stream::Audio)) + ":a]"@
}

/// Views of a sequence of strings.
pub open spec fn views(v: Seq<String>) -> Seq<Seq<char>> {
    v.map_values(|s: String| s@)
}

/// Scaling filter of each slide, in slide order.
pub fn video_filters(slides: &[Slide]) -> (r: Vec<String>)
    requires
        indices_fit(slides@),
    ensures
        r@.len() == slides@.len(),
        forall|i: int| 0 <= i < slides@.len() ==> #[trigger] r@[i]@ == filter_of(slides@[i].idx as nat),
{
    let mut out: Vec<String> = Vec::new();
    let mut i: usize = 0;
    while i < slides.len()
        invariant
            i <= slides@.len(),
            indices_fit(slides@),
            out@.len() == i,
            forall|j: int| 0 <= j < i ==> #[trigger] out@[j]@ == filter_of(slides@[j].idx as nat),
        decreases slides@.len() - i,
    {
        let slide = &slides[i];
        assert(index_fits(slides@[i as int].idx));
        let mut f = String::new();
        push_char(&mut f, '[');
        push_decimal(&mut f, stream_index(slide, Stream::Video));
        f.append(":v]scale=-1:");
        push_decimal(&mut f, HEIGHT);
        f.append(",format=yuv420p[");
        let name = video_output_name(slide);
        f.append(name.as_str());
        f.append("];");
        assert(f@ =~= filter_of(slide.idx as nat));
        out.push(f);
        i += 1;
    }
    out
}

/// Pairing of each scaled image stream with its audio input, in slide order.
pub fn video_inputs(slides: &[Slide]) -> (r: Vec<String>)
    requires
        indices_fit(slides@),
    ensures
        r@.len() == slides@.len(),
        forall|i: int| 0 <= i < slides@.len() ==> #[trigger] r@[i]@ == pair_of(slides@[i].idx as nat),
{
    let mut out: Vec<String> = Vec::new();
    let mut i: usize = 0;
    while i < slides.len()
        invariant
            i <= slides@.len(),
            indices_fit(slides@),
            out@.len() == i,
            forall|j: int| 0 <= j < i ==> #[trigger] out@[j]@ == pair_of(slides@[j].idx as nat),
        decreases slides@.len() - i,
    {
        let slide = &slides[i];
        assert(index_fits(slides@[i as int].idx));
        let mut f = String::new();
        push_char(&mut f, '[');
        let name = video_output_name(slide);
        f.append(name.as_str());
        f.append("][");
        push_decimal(&mut f, stream_index(slide, Stream::Audio));
        f.append(":a]");
        assert(f@ =~= pair_of(slide.idx as nat));
        out.push(f);
        i += 1;
    }
    out
}

/// The parts joined with `sep` between neighbours.
pub open spec fn join_sep(parts: Seq<Seq<char>>, sep: Seq<char>) -> Seq<char>
    decreases parts.len(),
{
    if parts.len() == 0 {
        Seq::empty()
    } else if parts.len() == 1 {
        parts[0]
    } else {
        join_sep(parts.drop_last(), sep) + sep + parts.last()
    }
}

/// The parts one after another.
pub open spec fn concat_all(parts: Seq<Seq<char>>) -> Seq<char>
    decreases parts.len(),
{
    if parts.len() == 0 {
        Seq::empty()
    } else {
        concat_all(parts.drop_last()) + parts.last()
    }
}

/// Scaling filter of each slide.
pub open spec fn filter_texts(slides: Seq<Slide>) -> Seq<Seq<char>> {
    slides.map_values(|s: Slide| filter_of(s.idx as nat))
}

/// Image and audio pair of each slide.
pub open spec fn pair_texts(slides: Seq<Slide>) -> Seq<Seq<char>> {
    slides.map_values(|s: Slide| pair_of(s.idx as nat))
}

/// The filter graph of the deck: every scaling filter, then every pair, then
/// the concatenation of all pairs into `[outv]` and `[outa]`.
pub open spec fn filter_graph_text(slides: Seq<Slide>) -> Seq<char> {
    join_sep(filter_texts(slides), seq![' ']) + seq![' '] + concat_all(pair_texts(slides))
        + " concat=n="@
        + dec(slides.len()) + ":v=1:a=1 [outv] [outa]"@
}

/// The strings of `parts` joined with `sep`.
pub fn join_strings(parts: &Vec<String>, sep: &str) -> (r: String)
    ensures
        r@ == join_sep(views(parts@), sep@),
{
    let mut out = String::new();
    let mut i: usize = 0;
    while i < parts.len()
        invariant
            i <= parts@.len(),
            out@ == join_sep(views(parts@).take(i as int), sep@),
        decreases parts@.len() - i,
    {
        let ghost pre = views(parts@).take(i as int);
        let ghost now = views(parts@).take(i as int + 1);
        assert(now.drop_last() =~= pre);
        if i > 0 {
            out.append(sep);
        }
        out.append(parts[i].as_str());
        assert(out@ =~= join_sep(now, sep@));
        i += 1;
    }
    assert(views(parts@).take(i as int) =~= views(parts@));
    out
}

/// The strings of `parts` one after another.
pub fn concat_strings(parts: &Vec<String>) -> (r: String)
    ensures
        r@ == concat_all(views(parts@)),
{
    let mut out = String::new();
    let mut i: usize = 0;
    while i < parts.len()
        invariant
            i <= parts@.len(),
            out@ == concat_all(views(parts@).take(i as int)),
        decreases parts@.len() - i,
    {
        let ghost now = views(parts@).take(i as int + 1);
        assert(now.drop_last() =~= views(parts@).take(i as int));
        out.append(parts[i].as_str());
        assert(out@ =~= concat_all(now));
        i += 1;
    }
    assert(views(parts@).take(i as int) =~= views(parts@));
    out
}

/// The filter graph that scales every slide image, pairs it with its audio
/// and concatenates all pairs in slide order.
pub fn filter_graph(slides: &[Slide]) -> (r: String)
    requires
        indices_fit(slides@),
    ensures
        r@ == filter_graph_text(slides@),
{
    let filters = video_filters(slides);
    let inputs = video_inputs(slides);
    assert(views(filters@) =~= filter_texts(slides@));
    assert(views(inputs@) =~= pair_texts(slides@));
    let mut out = join_strings(&filters, " ");
    proof {
        reveal_strlit(" ");
        assert(" "@ =~= seq![' ']);
    }
    assert(out@ == join_sep(filter_texts(slides@), seq![' ']));
    push_char(&mut out, ' ');
    let pairs = concat_strings(&inputs);
    out.append(pairs.as_str());
    out.append(" concat=n=");
    push_decimal(&mut out, slides.len() as u64);
    out.append(":v=1:a=1 [outv] [outa]");
    assert(out@ =~= filter_graph_text(slides@));
    out
}

/// The ten encoder arguments of one slide: its audio input, then its image
/// looped at one frame per second for `display`.
pub open spec fn slide_args(dir: Seq<char>, slide: Slide, audio_ext: Seq<char>, display: MediaTime) -> Seq<Seq<char>> {
    seq![
        "-i"@,
        asset_path(dir, "audio"@, slide.idx as nat, seq!['.'] + audio_ext),
        "-loop"@,
        "1"@,
        "-framerate"@,
        "1"@,
        "-t"@,
        clock_text(display.millis as nat),
        "-i"@,
        asset_path(dir, "image"@, slide.idx as nat, ".png"@),
    ]
}

/// The input arguments of the first `k` slides.
pub open spec fn input_args(
    dir: Seq<char>,
    slides: Seq<Slide>,
    audio_ext: Seq<char>,
    displays: Seq<MediaTime>,
    k: nat,
) -> Seq<Seq<char>>
    decreases k,
{
    if k == 0 {
        Seq::empty()
    } else {
        input_args(dir, slides, audio_ext, displays, (k - 1) as nat) + slide_args(
            dir,
            slides[k - 1],
            audio_ext,
            displays[k - 1],
        )
    }
}

/// The whole argument list of the encoder run that assembles the deck.
pub open spec fn encoder_args_text(
    dir: Seq<char>,
    slides: Seq<Slide>,
    audio_ext: Seq<char>,
    displays: Seq<MediaTime>,
    audio_codec: Seq<char>,
    output: Seq<char>,
) -> Seq<Seq<char>> {
    seq!["-y"@] + input_args(dir, slides, audio_ext, displays, slides.len()) + seq![
        "-filter_complex"@,
        filter_graph_text(slides),
        "-map"@,
        "[outv]"@,
        "-r"@,
        "30"@,
        "-map"@,
        "[outa]"@,
        "-tune"@,
        "stillimage"@,
        "-strict"@,
        "-2"@,
        "-c:a"@,
        audio_codec,
        "-shortest"@,
        "-movflags"@,
        "faststart"@,
        joined(dir, output),
    ]
}

fn push_arg(args: &mut Vec<String>, a: String)
    ensures
        views(final(args)@) == views(old(args)@).push(a@),
{
    let ghost before = args@;
    args.push(a);
    assert(views(args@) =~= views(before).push(a@));
}

fn push_lit(args: &mut Vec<String>, a: &str)
    ensures
        views(final(args)@) == views(old(args)@).push(a@),
{
    push_arg(args, String::from_str(a));
}

/// Arguments of the one encoder run that assembles the deck into
/// `{dir}/{output}`: for each slide its audio and its image held for
/// `displays[i]`, the filter graph, 30 fps output, `audio_codec`, and the
/// shortest stream deciding the length.
pub fn encoder_args(
    dir: &str,
    slides: &[Slide],
    audio_ext: &str,
    displays: &Vec<MediaTime>,
    audio_codec: &str,
    output: &str,
) -> (r: Vec<String>)
    requires
        indices_fit(slides@),
        displays@.len() == slides@.len(),
        forall|i: int| 0 <= i < displays@.len() ==> (#[trigger] displays@[i]).wf(),
    ensures
        views(r@) == encoder_args_text(dir@, slides@, audio_ext@, displays@, audio_codec@, output@),
{
    let mut args: Vec<String> = Vec::new();
    push_lit(&mut args, "-y");
    let mut i: usize = 0;
    while i < slides.len()
        invariant
            i <= slides@.len(),
            displays@.len() == slides@.len(),
            forall|j: int| 0 <= j < displays@.len() ==> (#[trigger] displays@[j]).wf(),
            views(args@) == seq!["-y"@] + input_args(dir@, slides@, audio_ext@, displays@, i as nat),
        decreases slides@.len() - i,
    {
        let ghost before = views(args@);
        let slide = &slides[i];
        push_lit(&mut args, "-i");
        push_arg(&mut args, audio_path(dir, slide, audio_ext));
        push_lit(&mut args, "-loop");
        push_lit(&mut args, "1");
        push_lit(&mut args, "-framerate");
        push_lit(&mut args, "1");
        push_lit(&mut args, "-t");
        push_arg(&mut args, print_ffmpeg_duration(&displays[i]));
        push_lit(&mut args, "-i");
        push_arg(&mut args, image_path(dir, slide));
        assert(views(args@) =~= before + slide_args(dir@, slides@[i as int], audio_ext@, displays@[i as int]));
        i += 1;
    }
    push_lit(&mut args, "-filter_complex");
    push_arg(&mut args, filter_graph(slides));
    push_lit(&mut args, "-map");
    push_lit(&mut args, "[outv]");
    push_lit(&mut args, "-r");
    push_lit(&mut args, "30");
    push_lit(&mut args, "-map");
    push_lit(&mut args, "[outa]");
    push_lit(&mut args, "-tune");
    push_lit(&mut args, "stillimage");
    push_lit(&mut args, "-strict");
    push_lit(&mut args, "-2");
    push_lit(&mut args, "-c:a");
    push_lit(&mut args, audio_codec);
    push_lit(&mut args, "-shortest");
    push_lit(&mut args, "-movflags");
    push_lit(&mut args, "faststart");
    let mut out_path = String::from_str(dir);
    push_component(&mut out_path, output);
    push_arg(&mut args, out_path);
    assert(views(args@) =~= encoder_args_text(dir@, slides@, audio_ext@, displays@, audio_codec@, output@));
    args
}

/// Path of the clip of `slide`: `{dir}/video/{idx}.mp4`.
pub fn clip_path(dir: &str, slide: &Slide) -> (r: String)
    ensures
        r@ == asset_path(dir@, "video"@, slide.idx as nat, ".mp4"@),
{
    crate::path::build_asset_path(dir, "video", slide.idx, ".mp4")
}

/// Arguments of the encoder run that makes the clip of one slide: its image
/// looped for `display`, scaled to the output height, muxed with its audio.
pub open spec fn clip_args_text(
    dir: Seq<char>,
    slide: Slide,
    audio_ext: Seq<char>,
    display: MediaTime,
    audio_codec: Seq<char>,
) -> Seq<Seq<char>> {
    seq![
        "-y"@,
        "-loop"@,
        "1"@,
        "-framerate"@,
        "1"@,
        "-t"@,
        clock_text(display.millis as nat),
        "-i"@,
        asset_path(dir, "image"@, slide.idx as nat, ".png"@),
        "-i"@,
        asset_path(dir, "audio"@, slide.idx as nat, seq!['.'] + audio_ext),
        "-vf"@,
        "scale=-1:"@ + dec(HEIGHT as nat) + ",format=yuv420p"@,
        "-r"@,
        "30"@,
        "-tune"@,
        "stillimage"@,
        "-strict"@,
        "-2"@,
        "-c:a"@,
        audio_codec,
        "-shortest"@,
        asset_path(dir, "video"@, slide.idx as nat, ".mp4"@),
    ]
}

/// Arguments of the encoder run that makes the clip of `slide`, shown for
/// `display`.
pub fn clip_args(dir: &str, slide: &Slide, audio_ext: &str, display: &MediaTime, audio_codec: &str) -> (r: Vec<String>)
    requires
        display.wf(),
    ensures
        views(r@) == clip_args_text(dir@, *slide, audio_ext@, *display, audio_codec@),
{
    let mut args: Vec<String> = Vec::new();
    push_lit(&mut args, "-y");
    push_lit(&mut args, "-loop");
    push_lit(&mut args, "1");
    push_lit(&mut args, "-framerate");
    push_lit(&mut args, "1");
    push_lit(&mut args, "-t");
    push_arg(&mut args, print_ffmpeg_duration(display));
    push_lit(&mut args, "-i");
    push_arg(&mut args, image_path(dir, slide));
    push_lit(&mut args, "-i");
    push_arg(&mut args, audio_path(dir, slide, audio_ext));
    push_lit(&mut args, "-vf");
    let mut scale = String::from_str("scale=-1:");
    push_decimal(&mut scale, HEIGHT);
    scale.append(",format=yuv420p");
    push_arg(&mut args, scale);
    push_lit(&mut args, "-r");
    push_lit(&mut args, "30");
    push_lit(&mut args, "-tune");
    push_lit(&mut args, "stillimage");
    push_lit(&mut args, "-strict");
    push_lit(&mut args, "-2");
    push_lit(&mut args, "-c:a");
    push_lit(&mut args, audio_codec);
    push_lit(&mut args, "-shortest");
    push_arg(&mut args, clip_path(dir, slide));
    assert(views(args@) =~= clip_args_text(dir@, *slide, audio_ext@, *display, audio_codec@));
    args
}

/// Arguments of the encoder run that joins the clips that `manifest` lists
/// into `output` by stream copy, without encoding again.
pub fn concat_args(manifest: &str, output: &str) -> (r: Vec<String>)
    ensures
        views(r@) == seq![
            "-y"@,
            "-f"@,
            "concat"@,
            "-safe"@,
            "0"@,
            "-i"@,
            manifest@,
            "-c"@,
            "copy"@,
            output@,
        ],
{
    let mut args: Vec<String> = Vec::new();
    push_lit(&mut args, "-y");
    push_lit(&mut args, "-f");
    push_lit(&mut args, "concat");
    push_lit(&mut args, "-safe");
    push_lit(&mut args, "0");
    push_lit(&mut args, "-i");
    push_lit(&mut args, manifest);
    push_lit(&mut args, "-c");
    push_lit(&mut args, "copy");
    push_lit(&mut args, output);
    assert(views(args@) =~= seq![
        "-y"@,
        "-f"@,
        "concat"@,
        "-safe"@,
        "0"@,
        "-i"@,
        manifest@,
        "-c"@,
        "copy"@,
        output@,
    ]);
    args
}

} // verus!
