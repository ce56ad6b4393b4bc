//! The slide record, the cleanup of presenter notes, and the reading of a
//! deck's exported note entries into slides.

use vstd::prelude::*;
use crate::text::{chars_of, text_of};

verus! {

/// One slide of the deck: its 1-based position and its narration text.
#[derive(Clone, Debug)]
pub struct Slide {
    pub idx: u64,
    pub speaker_note: String,
}

/// A white-space character, as Unicode's `White_Space` property lists them.
pub open spec fn is_ws(c: char) -> bool {
    c == '\t' || c == '\n' || c == '\u{0B}' || c == '\u{0C}' || c == '\r' || c == ' ' || c
        == '\u{85}' || c == '\u{A0}' || c == '\u{1680}' || ('\u{2000}' <= c && c <= '\u{200A}')
        || c == '\u{2028}' || c == '\u{2029}' || c == '\u{202F}' || c == '\u{205F}' || c
        == '\u{3000}'
}

fn is_ws_char(c: char) -> (r: bool)
    ensures
        r == is_ws(c),
{
    c == '\t' || c == '\n' || c == '\u{0B}' || c == '\u{0C}' || c == '\r' || c == ' ' || c
        == '\u{85}' || c == '\u{A0}' || c == '\u{1680}' || ('\u{2000}' <= c && c <= '\u{200A}')
        || c == '\u{2028}' || c == '\u{2029}' || c == '\u{202F}' || c == '\u{205F}' || c
        == '\u{3000}'
}

/// `s` without leading white space.
pub open spec fn trim_start(s: Seq<char>) -> Seq<char>
    decreases s.len(),
{
    if s.len() > 0 && is_ws(s[0]) {
        trim_start(s.drop_first())
    } else {
        s
    }
}

/// `s` without trailing white space.
pub open spec fn trim_end(s: Seq<char>) -> Seq<char>
    decreases s.len(),
{
    if s.len() > 0 && is_ws(s.last()) {
        trim_end(s.drop_last())
    } else {
        s
    }
}

/// `s` without white space at either end.
pub open spec fn trim_ws(s: Seq<char>) -> Seq<char> {
    trim_end(trim_start(s))
}

/// The lines of `s`, split at each newline.
pub open spec fn lines_of(s: Seq<char>) -> Seq<Seq<char>>
    decreases s.len(),
{
    if s.len() == 0 {
        seq![Seq::empty()]
    } else {
        let p = lines_of(s.drop_last());
        if s.last() == '\n' {
            p.push(Seq::empty())
        } else {
            p.update(p.len() - 1, p.last().push(s.last()))
        }
    }
}

/// The parts joined with newlines.
pub open spec fn join_newline(parts: Seq<Seq<char>>) -> Seq<char>
    decreases parts.len(),
{
    if parts.len() == 0 {
        Seq::empty()
    } else if parts.len() == 1 {
        parts[0]
    } else {
        join_newline(parts.drop_last()) + seq!['\n'] + parts.last()
    }
}

/// Every line of `s` trimmed, joined again with newlines.
pub open spec fn trim_lines(s: Seq<char>) -> Seq<char> {
    join_newline(lines_of(s).map_values(|l: Seq<char>| trim_ws(l)))
}

/// Each pair of consecutive newlines kept, taken from the left, and every
/// newline left over dropped: a run of `k` newlines keeps `2 * (k / 2)`.
pub open spec fn collapse_newlines(t: Seq<char>) -> Seq<char>
    decreases t.len(),
{
    if t.len() == 0 {
        Seq::empty()
    } else if t.len() >= 2 && t[0] == '\n' && t[1] == '\n' {
        seq!['\n', '\n'] + collapse_newlines(t.subrange(2, t.len() as int))
    } else if t[0] == '\n' {
        collapse_newlines(t.drop_first())
    } else {
        seq![t[0]] + collapse_newlines(t.drop_first())
    }
}

/// The narration that a presenter note gives: lines trimmed, single line
/// breaks joined, paragraph breaks kept, and the ends trimmed.
pub open spec fn clean_note(s: Seq<char>) -> Seq<char> {
    trim_ws(collapse_newlines(trim_lines(s)))
}

proof fn lemma_lines_nonempty(s: Seq<char>)
    ensures
        lines_of(s).len() >= 1,
    decreases s.len(),
{
    if s.len() > 0 {
        lemma_lines_nonempty(s.drop_last());
    }
}

/// `s[lo..hi]` with white space at both ends removed.
pub(crate) fn trim_range(s: &Vec<char>, lo: usize, hi: usize) -> (r: Vec<char>)
    requires
        lo <= hi <= s@.len(),
    ensures
        r@ == trim_ws(s@.subrange(lo as int, hi as int)),
{
    let ghost whole = s@.subrange(lo as int, hi as int);
    let mut a = lo;
    while a < hi && is_ws_char(s[a])
        invariant
            lo <= a <= hi <= s@.len(),
            trim_start(whole) == trim_start(s@.subrange(a as int, hi as int)),
        decreases hi - a,
    {
        assert(s@.subrange(a as int, hi as int).drop_first() =~= s@.subrange(a + 1, hi as int));
        a += 1;
    }
    assert(trim_start(s@.subrange(a as int, hi as int)) == s@.subrange(a as int, hi as int));
    let mut b = hi;
    while b > a && is_ws_char(s[b - 1])
        invariant
            lo <= a <= b <= hi <= s@.len(),
            trim_ws(whole) == trim_end(s@.subrange(a as int, b as int)),
        decreases b - a,
    {
        assert(s@.subrange(a as int, b as int).drop_last() =~= s@.subrange(a as int, b - 1));
        b -= 1;
    }
    let mut out: Vec<char> = Vec::new();
    let mut i = a;
    while i < b
        invariant
            a <= i <= b <= s@.len(),
            out@ == s@.subrange(a as int, i as int),
        decreases b - i,
    {
        out.push(s[i]);
        i += 1;
        assert(out@ =~= s@.subrange(a as int, i as int));
    }
    out
}

fn append_chars(out: &mut Vec<char>, more: &Vec<char>)
    ensures
        final(out)@ == old(out)@ + more@,
{
    let ghost start = out@;
    let mut i: usize = 0;
    while i < more.len()
        invariant
            i <= more@.len(),
            out@ == start + more@.subrange(0, i as int),
        decreases more@.len() - i,
    {
        out.push(more[i]);
        i += 1;
        assert(out@ =~= start + more@.subrange(0, i as int));
    }
    assert(more@.subrange(0, i as int) =~= more@);
}

/// Every line of `s` trimmed and joined again with newlines.
fn trimmed_lines(s: &Vec<char>) -> (r: Vec<char>)
    ensures
        r@ == trim_lines(s@),
{
    let mut out: Vec<char> = Vec::new();
    let mut line_start: usize = 0;
    let mut i: usize = 0;
    while i < s.len()
        invariant
            line_start <= i <= s@.len(),
            lines_of(s@.subrange(0, i as int)).len() >= 1,
            lines_of(s@.subrange(0, i as int)).last() == s@.subrange(line_start as int, i as int),
            out@ == join_newline(
                lines_of(s@.subrange(0, i as int)).drop_last().map_values(|l: Seq<char>| trim_ws(l)),
            ),
            (lines_of(s@.subrange(0, i as int)).len() == 1) == (line_start == 0),
        decreases s@.len() - i,
    {
        let ghost pre = s@.subrange(0, i as int);
        let ghost now = s@.subrange(0, i + 1);
        assert(now.drop_last() =~= pre);
        let ghost lp = lines_of(pre);
        if s[i] == '\n' {
            let t = trim_range(s, line_start, i);
            let ghost mapped = lines_of(now).drop_last().map_values(|l: Seq<char>| trim_ws(l));
            let ghost prev = lp.drop_last().map_values(|l: Seq<char>| trim_ws(l));
            assert(lines_of(now).drop_last() =~= lp);
            assert(mapped.drop_last() =~= prev);
            if line_start > 0 {
                out.push('\n');
            }
            append_chars(&mut out, &t);
            assert(out@ =~= join_newline(mapped));
            line_start = i + 1;
            i += 1;
            assert(lines_of(s@.subrange(0, i as int)).last() =~= s@.subrange(line_start as int, i as int));
        } else {
            assert(lines_of(now).drop_last() =~= lp.drop_last());
            assert(lines_of(now).last() =~= s@.subrange(line_start as int, i + 1));
            i += 1;
        }
    }
    assert(s@.subrange(0, i as int) =~= s@);
    let t = trim_range(s, line_start, i);
    let ghost ls = lines_of(s@);
    let ghost mapped = ls.map_values(|l: Seq<char>| trim_ws(l));
    assert(mapped.drop_last() =~= ls.drop_last().map_values(|l: Seq<char>| trim_ws(l)));
    if line_start > 0 {
        out.push('\n');
    }
    append_chars(&mut out, &t);
    assert(out@ =~= join_newline(mapped));
    out
}

/// `t` with its newline runs collapsed as `collapse_newlines` says.
fn collapsed(t: &Vec<char>) -> (r: Vec<char>)
    ensures
        r@ == collapse_newlines(t@),
{
    let n = t.len();
    let mut out: Vec<char> = Vec::new();
    let mut i: usize = 0;
    assert(t@.subrange(0, n as int) =~= t@);
    assert(out@ + collapse_newlines(t@) =~= collapse_newlines(t@));
    while i < n
        invariant
            i <= n == t@.len(),
            out@ + collapse_newlines(t@.subrange(i as int, n as int)) == collapse_newlines(t@),
        decreases n - i,
    {
        let ghost rest = t@.subrange(i as int, n as int);
        if t[i] == '\n' && i + 1 < n && t[i + 1] == '\n' {
            assert(rest.subrange(2, rest.len() as int) =~= t@.subrange(i + 2, n as int));
            out.push('\n');
            out.push('\n');
            i += 2;
            assert(out@ + collapse_newlines(t@.subrange(i as int, n as int)) =~= collapse_newlines(t@));
        } else if t[i] == '\n' {
            assert(rest.drop_first() =~= t@.subrange(i + 1, n as int));
            i += 1;
        } else {
            assert(rest.drop_first() =~= t@.subrange(i + 1, n as int));
            out.push(t[i]);
            i += 1;
            assert(out@ + collapse_newlines(t@.subrange(i as int, n as int)) =~= collapse_newlines(t@));
        }
    }
    assert(t@.subrange(n as int, n as int) =~= Seq::<char>::empty());
    assert(out@ + Seq::<char>::empty() =~= out@);
    out
}

/// Cleans a presenter note for speech: every line trimmed, single line breaks
/// removed, paragraph breaks kept, and white space at both ends removed, as
/// leading white space makes some voices utter stray sounds.
pub fn trim_speaker_note(text: &str) -> (r: String)
    ensures
        r@ == clean_note(text@),
{
    let s = chars_of(text);
    let a = trimmed_lines(&s);
    let b = collapsed(&a);
    let c = trim_range(&b, 0, b.len());
    assert(b@.subrange(0, b@.len() as int) =~= b@);
    text_of(&c)
}

/// One entry of the presenter-note export of a deck, reduced to what the
/// reader looks at: its `t` tag when it is an object with a string tag, and
/// its `v` field when that is an unsigned integer or a string.
#[derive(Clone, Debug)]
pub struct NoteEntry {
    pub tag: Option<String>,
    pub value_u64: Option<u64>,
    pub value_text: Option<String>,
}

/// Why the note entries of a deck do not describe its slides.
#[derive(Clone, Copy, Debug, PartialEq, Eq, Structural)]
pub enum SlideError {
    /// The slide marked at `position` lacks the entries that follow a marker.
    Truncated { position: usize },
    /// The entry after the marker at `position` holds no usable page number.
    BadIndex { position: usize },
    /// The note entry of the slide marked at `position` holds no text.
    BadNote { position: usize },
}

/// The mathematical value of a slide: position and narration.
pub ghost struct SlideView {
    pub idx: u64,
    pub note: Seq<char>,
}

impl View for Slide {
    type V = SlideView;

    open spec fn view(&self) -> SlideView {
        SlideView { idx: self.idx, note: self.speaker_note@ }
    }
}

/// The entry starts a slide.
pub open spec fn is_new_slide(e: NoteEntry) -> bool {
    e.tag matches Some(t) && t@ == "NewSlide"@
}

/// The slide marked at `i`: its 0-based page number is in entry `i + 1`, its
/// note in entry `i + 4`.
pub open spec fn slide_at(entries: Seq<NoteEntry>, i: int) -> Result<SlideView, SlideError> {
    if i + 4 >= entries.len() {
        Err(SlideError::Truncated { position: i as usize })
    } else if !(entries[i + 1].value_u64 matches Some(v) && v < u64::MAX) {
        Err(SlideError::BadIndex { position: i as usize })
    } else if entries[i + 4].value_text is None {
        Err(SlideError::BadNote { position: i as usize })
    } else {
        Ok(
            SlideView {
                idx: (entries[i + 1].value_u64.unwrap() + 1) as u64,
                note: clean_note(entries[i + 4].value_text.unwrap()@),
            },
        )
    }
}

/// The slides marked among the first `k` entries, in order, or the error of
/// the first marked slide that cannot be read.
pub open spec fn slides_in(entries: Seq<NoteEntry>, k: nat) -> Result<Seq<SlideView>, SlideError>
    decreases k,
{
    if k == 0 {
        Ok(Seq::empty())
    } else {
        match slides_in(entries, (k - 1) as nat) {
            Err(e) => Err(e),
            Ok(acc) => if is_new_slide(entries[k - 1]) {
                match slide_at(entries, k - 1) {
                    Ok(v) => Ok(acc.push(v)),
                    Err(e) => Err(e),
                }
            } else {
                Ok(acc)
            },
        }
    }
}

/// Once a prefix of the entries fails, every longer prefix fails the same way.
proof fn lemma_error_persists(entries: Seq<NoteEntry>, k: nat, m: nat)
    requires
        k <= m,
        slides_in(entries, k) is Err,
    ensures
        slides_in(entries, m) == slides_in(entries, k),
    decreases m - k,
{
    if k < m {
        lemma_error_persists(entries, k, (m - 1) as nat);
    }
}

/// Views of a sequence of slides.
pub open spec fn slide_views(v: Seq<Slide>) -> Seq<SlideView> {
    v.map_values(|s: Slide| s@)
}

fn entry_is_new_slide(e: &NoteEntry) -> (r: bool)
    ensures
        r == is_new_slide(*e),
{
    match &e.tag {
        Some(t) => {
            let marker = String::from_str("NewSlide");
            t.eq(&marker)
        },
        None => false,
    }
}

impl Slide {
    /// The slide of a page number counted from 0 and its raw note.
    pub fn new(page: u64, note: &str) -> (r: Slide)
        requires
            page < u64::MAX,
        ensures
            r.idx == page + 1,
            r.speaker_note@ == clean_note(note@),
    {
        Slide { idx: page + 1, speaker_note: trim_speaker_note(note) }
    }
}

/// The slides that the note entries of a deck describe, in order: each entry
/// tagged `NewSlide` at position `i` takes its 0-based page number from entry
/// `i + 1` and its note from entry `i + 4`.
pub fn slides(entries: &[NoteEntry]) -> (r: Result<Vec<Slide>, SlideError>)
    ensures
        match r {
            Ok(v) => slides_in(entries@, entries@.len()) == Ok::<Seq<SlideView>, SlideError>(slide_views(v@)),
            Err(e) => slides_in(entries@, entries@.len()) == Err::<Seq<SlideView>, SlideError>(e),
        },
{
    let mut out: Vec<Slide> = Vec::new();
    let mut i: usize = 0;
    assert(slide_views(out@) =~= Seq::<SlideView>::empty());
    while i < entries.len()
        invariant
            i <= entries@.len(),
            slides_in(entries@, i as nat) == Ok::<Seq<SlideView>, SlideError>(slide_views(out@)),
        decreases entries@.len() - i,
    {
        if entry_is_new_slide(&entries[i]) {
            if entries.len() - i <= 4 {
                proof {
                    lemma_error_persists(entries@, (i + 1) as nat, entries@.len());
                }
                return Err(SlideError::Truncated { position: i });
            }
            let page: u64 = match entries[i + 1].value_u64 {
                Some(v) => v,
                None => u64::MAX,
            };
            if page == u64::MAX {
                proof {
                    lemma_error_persists(entries@, (i + 1) as nat, entries@.len());
                }
                return Err(SlideError::BadIndex { position: i });
            }
            let note = match &entries[i + 4].value_text {
                Some(t) => t,
                None => {
                    proof {
                        lemma_error_persists(entries@, (i + 1) as nat, entries@.len());
                    }
                    return Err(SlideError::BadNote { position: i });
                },
            };
            let slide = Slide::new(page, note.as_str());
            let ghost before = out@;
            out.push(slide);
            assert(slide_views(out@) =~= slide_views(before).push(slide@));
        }
        i += 1;
    }
    Ok(out)
}

} // verus!
