//! Where each asset of a slide lives below the output directory.

use vstd::prelude::*;
use crate::slide::Slide;
use crate::text::{dec, push_decimal};

verus! {

/// `dir` joined with the relative component `name`, as a path join does on
/// a relative name: no separator after an empty directory or one that already
/// ends with a slash.
pub open spec fn joined(dir: Seq<char>, name: Seq<char>) -> Seq<char> {
    if dir.len() == 0 {
        name
    } else if dir.last() == '/' {
        dir + name
    } else {
        dir + seq!['/'] + name
    }
}

/// `{dir}/{sub}/{idx}{suffix}`.
pub open spec fn asset_path(dir: Seq<char>, sub: Seq<char>, idx: nat, suffix: Seq<char>) -> Seq<char> {
    joined(joined(dir, sub), dec(idx) + suffix)
}

/// Appends `name` to `dir` as `joined` describes.
pub(crate) fn push_component(dir: &mut String, name: &str)
    ensures
        final(dir)@ == joined(old(dir)@, name@),
{
    let ghost d0 = dir@;
    let n = dir.as_str().unicode_len();
    if n > 0 && dir.as_str().get_char(n - 1) != '/' {
        dir.append("/");
        assert(dir@ == d0 + seq!['/']) by {
            reveal_strlit("/");
        }
    }
    dir.append(name);
}

/// Builds `{dir}/{sub}/{idx}{suffix}`.
pub(crate) fn build_asset_path(dir: &str, sub: &str, idx: u64, suffix: &str) -> (r: String)
    ensures
        r@ == asset_path(dir@, sub@, idx as nat, suffix@),
{
    let mut p = String::from_str(dir);
    push_component(&mut p, sub);
    let mut name = String::new();
    push_decimal(&mut name, idx);
    name.append(suffix);
    push_component(&mut p, name.as_str());
    p
}

/// Path of the narration audio of `slide`: `{dir}/audio/{idx}.{audio_ext}`.
pub fn audio_path(dir: &str, slide: &Slide, audio_ext: &str) -> (r: String)
    ensures
        r@ == asset_path(dir@, "audio"@, slide.idx as nat, seq!['.'] + audio_ext@),
{
    let mut suffix = String::from_str(".");
    suffix.append(audio_ext);
    proof {
        reveal_strlit(".");
    }
    build_asset_path(dir, "audio", slide.idx, suffix.as_str())
}

/// Path of the rendered image of `slide`: `{dir}/image/{idx}.png`.
pub fn image_path(dir: &str, slide: &Slide) -> (r: String)
    ensures
        r@ == asset_path(dir@, "image"@, slide.idx as nat, ".png"@),
{
    build_asset_path(dir, "image", slide.idx, ".png")
}

/// Path of the fingerprint stored beside the narration audio of `slide`:
/// `{dir}/audio/{idx}.audio.cache_key`.
pub fn audio_cache_key_path(dir: &str, slide: &Slide) -> (r: String)
    ensures
        r@ == asset_path(dir@, "audio"@, slide.idx as nat, ".audio.cache_key"@),
{
    build_asset_path(dir, "audio", slide.idx, ".audio.cache_key")
}

} // verus!
