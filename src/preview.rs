//! The live preview of a deck: the public directory, cache-busting file
//! names, the HTML page that lists every slide, and which files a refresh
//! leaves behind.

use vstd::prelude::*;
use crate::path::{joined, push_component};
use crate::slide::Slide;
use crate::text::{chars_of, dec, find_infix, find_infix_from, push_char, push_decimal};

verus! {

/// Directory that the preview server publishes: `{out_dir}/public`.
pub fn public_dir(out_dir: &str) -> (r: String)
    ensures
        r@ == joined(out_dir@, "public"@),
{
    let mut p = String::from_str(out_dir);
    push_component(&mut p, "public");
    p
}

/// Position of the last `.` of `name`.
pub open spec fn last_dot(name: Seq<char>, end: int) -> Option<int>
    decreases end,
{
    if end <= 0 || end > name.len() {
        None
    } else if name[end - 1] == '.' {
        Some(end - 1)
    } else {
        last_dot(name, end - 1)
    }
}

/// Stem and extension of a file name: split at the last `.` unless that
/// dot opens the name, in which case there is no extension.
pub open spec fn split_name(name: Seq<char>) -> (Seq<char>, Option<Seq<char>>) {
    match last_dot(name, name.len() as int) {
        Some(p) => if p > 0 {
            (name.subrange(0, p), Some(name.subrange(p + 1, name.len() as int)))
        } else {
            (name, None)
        },
        None => (name, None),
    }
}

/// `{stem}_{timestamp}.{extension}` of a file name.
pub open spec fn stamped_name(name: Seq<char>, timestamp: nat) -> Seq<char> {
    let (stem, ext) = split_name(name);
    stem + seq!['_'] + dec(timestamp) + seq!['.'] + match ext {
        Some(e) => e,
        None => Seq::empty(),
    }
}

fn split_point(name: &Vec<char>) -> (r: Option<usize>)
    ensures
        match r {
            Some(p) => last_dot(name@, name@.len() as int) == Some(p as int) && 0 < p < name@.len(),
            None => match last_dot(name@, name@.len() as int) {
                Some(p) => p == 0,
                None => true,
            },
        },
{
    let mut end = name.len();
    while end > 0
        invariant
            end <= name@.len(),
            last_dot(name@, name@.len() as int) == last_dot(name@, end as int),
        decreases end,
    {
        if name[end - 1] == '.' {
            if end - 1 > 0 {
                return Some(end - 1);
            } else {
                return None;
            }
        }
        end -= 1;
    }
    None
}

fn push_range(out: &mut String, s: &Vec<char>, lo: usize, hi: usize)
    requires
        lo <= hi <= s@.len(),
    ensures
        final(out)@ == old(out)@ + s@.subrange(lo as int, hi as int),
{
    let ghost start = out@;
    let mut i = lo;
    while i < hi
        invariant
            lo <= i <= hi <= s@.len(),
            out@ == start + s@.subrange(lo as int, i as int),
        decreases hi - i,
    {
        push_char(out, s[i]);
        i += 1;
        assert(out@ =~= start + s@.subrange(lo as int, i as int));
    }
}

/// Adds `timestamp` to a file name, as in `1_1700000000.png`, so that a
/// browser fetches the new file instead of a cached one.
pub fn add_timestamp(filename: &str, timestamp: u64) -> (r: String)
    ensures
        r@ == stamped_name(filename@, timestamp as nat),
{
    let s = chars_of(filename);
    let n = s.len();
    let mut out = String::new();
    match split_point(&s) {
        Some(p) => {
            push_range(&mut out, &s, 0, p);
            push_char(&mut out, '_');
            push_decimal(&mut out, timestamp);
            push_char(&mut out, '.');
            push_range(&mut out, &s, p + 1, n);
        },
        None => {
            push_range(&mut out, &s, 0, n);
            push_char(&mut out, '_');
            push_decimal(&mut out, timestamp);
            push_char(&mut out, '.');
        },
    }
    assert(s@.subrange(0, n as int) =~= s@);
    assert(out@ =~= stamped_name(filename@, timestamp as nat));
    out
}

/// Whether a refresh of the preview removes the file: it has an extension
/// other than `html` and its name lacks the current `_{timestamp}`.
pub open spec fn is_stale(name: Seq<char>, timestamp: nat) -> bool {
    match split_name(name).1 {
        Some(e) => e != "html"@ && find_infix(name, 0, seq!['_'] + dec(timestamp)) is None,
        None => false,
    }
}

/// Whether the public file `filename` is left over from an earlier refresh.
pub fn is_stale_file(filename: &str, timestamp: u64) -> (r: bool)
    ensures
        r == is_stale(filename@, timestamp as nat),
{
    let s = chars_of(filename);
    let n = s.len();
    match split_point(&s) {
        Some(p) => {
            let mut ext = String::new();
            push_range(&mut ext, &s, p + 1, n);
            let html = String::from_str("html");
            if ext.eq(&html) {
                return false;
            }
            let mut tag = String::new();
            push_char(&mut tag, '_');
            push_decimal(&mut tag, timestamp);
            let t = chars_of(tag.as_str());
            find_infix_from(&s, 0, &t).is_none()
        },
        None => false,
    }
}

/// The block of one slide in the preview page.
pub open spec fn slide_block(idx: nat, image_file: Seq<char>, audio_file: Seq<char>) -> Seq<char> {
    "<div class='slide'>\n    <h2>Slide "@ + dec(idx) + "</h2>\n\n    <a href='"@ + image_file
        + "'>\n        <img src='"@ + image_file + "' alt='Slide "@ + dec(idx)
        + "'/><br/>\n    </a>\n    <audio controls src='"@ + audio_file + "'/></audio>\n</div>\n"@
}

/// The preview block of `slide`, pointing at its time-stamped image and
/// audio files.
pub fn core_html(slide: &Slide, timestamp: u64, audio_ext: &str) -> (r: String)
    ensures
        r@ == slide_block(
            slide.idx as nat,
            stamped_name(dec(slide.idx as nat) + ".png"@, timestamp as nat),
            stamped_name(dec(slide.idx as nat) + seq!['.'] + audio_ext@, timestamp as nat),
        ),
{
    let mut image = String::new();
    push_decimal(&mut image, slide.idx);
    image.append(".png");
    assert(image@ =~= dec(slide.idx as nat) + ".png"@);
    let image_file = add_timestamp(image.as_str(), timestamp);
    let mut audio = String::new();
    push_decimal(&mut audio, slide.idx);
    push_char(&mut audio, '.');
    audio.append(audio_ext);
    assert(audio@ =~= dec(slide.idx as nat) + seq!['.'] + audio_ext@);
    let audio_file = add_timestamp(audio.as_str(), timestamp);
    let mut out = String::from_str("<div class='slide'>\n    <h2>Slide ");
    push_decimal(&mut out, slide.idx);
    out.append("</h2>\n\n    <a href='");
    out.append(image_file.as_str());
    out.append("'>\n        <img src='");
    out.append(image_file.as_str());
    out.append("' alt='Slide ");
    push_decimal(&mut out, slide.idx);
    out.append("'/><br/>\n    </a>\n    <audio controls src='");
    out.append(audio_file.as_str());
    out.append("'/></audio>\n</div>\n");
    assert(out@ =~= slide_block(slide.idx as nat, image_file@, audio_file@));
    out
}

/// Start of the preview page, up to the waiting note.
pub const PAGE_HEAD: &'static str = "<!DOCTYPE html>\n<html lang='en'>\n<head>\n    <title>trv</title>\n    <meta charset='UTF-8'>\n    <meta name='viewport' content='width=device-width, initial-scale=1.0'>\n    <style>\n        body {\n            text-align: center;\n        }\n        img {\n            max-width: 800px;\n            max-height: 80vh;\n            border: 1px solid black;\n        }\n        audio {\n            width: 800px;\n        }\n        .slide {\n            margin-bottom: 60px;\n        }\n        .slide h2 {\n            margin-bottom: 10px;\n        }\n    </style>\n</head>\n<body>\n    ";

/// Note shown before the first build has finished.
pub const WAITING_NOTE: &'static str = "Waiting for first build... Page will update when done. This might take a while...";

/// The preview page: the waiting note on the first render, the blocks of all
/// slides, and `now` in a hidden element that the page polls for changes.
pub open spec fn page_text(waiting: bool, blocks: Seq<Seq<char>>, now: nat) -> Seq<char> {
    PAGE_HEAD@ + (if waiting {
        WAITING_NOTE@
    } else {
        Seq::empty()
    }) + "\n    "@ + crate::slide::join_newline(blocks)
        + "\n\n    <div id='timestamp' style='display: none;'>"@ + dec(now)
        + "</div>\n</body>\n</html>\n"@
}

/// The preview page of `slides`, with files time-stamped `timestamp`.
pub fn index_html(slides: &[Slide], audio_ext: &str, timestamp: u64, now: u64, init: bool) -> (r: String)
    ensures
        r@ == page_text(
            init,
            slides@.map_values(
                |s: Slide|
                    slide_block(
                        s.idx as nat,
                        stamped_name(dec(s.idx as nat) + ".png"@, timestamp as nat),
                        stamped_name(dec(s.idx as nat) + seq!['.'] + audio_ext@, timestamp as nat),
                    ),
            ),
            now as nat,
        ),
{
    let ghost blocks = slides@.map_values(
        |s: Slide|
            slide_block(
                s.idx as nat,
                stamped_name(dec(s.idx as nat) + ".png"@, timestamp as nat),
                stamped_name(dec(s.idx as nat) + seq!['.'] + audio_ext@, timestamp as nat),
            ),
    );
    let mut core = String::new();
    let mut i: usize = 0;
    while i < slides.len()
        invariant
            i <= slides@.len(),
            blocks.len() == slides@.len(),
            forall|j: int| 0 <= j < slides@.len() ==> #[trigger] blocks[j] == slide_block(
                slides@[j].idx as nat,
                stamped_name(dec(slides@[j].idx as nat) + ".png"@, timestamp as nat),
                stamped_name(dec(slides@[j].idx as nat) + seq!['.'] + audio_ext@, timestamp as nat),
            ),
            core@ == crate::slide::join_newline(blocks.take(i as int)),
        decreases slides@.len() - i,
    {
        let ghost now_blocks = blocks.take(i as int + 1);
        assert(now_blocks.drop_last() =~= blocks.take(i as int));
        if i > 0 {
            push_char(&mut core, '\n');
        }
        let b = core_html(&slides[i], timestamp, audio_ext);
        core.append(b.as_str());
        assert(core@ =~= crate::slide::join_newline(now_blocks));
        i += 1;
    }
    assert(blocks.take(i as int) =~= blocks);
    let mut out = String::from_str(PAGE_HEAD);
    if init {
        out.append(WAITING_NOTE);
    }
    out.append("\n    ");
    out.append(core.as_str());
    out.append("\n\n    <div id='timestamp' style='display: none;'>");
    push_decimal(&mut out, now);
    out.append("</div>\n</body>\n</html>\n");
    assert(out@ =~= page_text(init, blocks, now as nat));
    out
}

} // verus!
