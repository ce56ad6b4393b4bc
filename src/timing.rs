//! Clock values of probed media, their textual form in the encoder's
//! `HH:MM:SS.cc` syntax, and the display time of each slide.

use vstd::prelude::*;
use crate::text::{chars_of, digit_of, find_char, find_char_from, find_infix, find_infix_from, push_char};

verus! {

/// Milliseconds in one day: a clock value stays below it.
pub const DAY_MS: u64 = 86_400_000;

/// A time of day with millisecond precision, held as milliseconds since
/// midnight.
#[derive(Clone, Copy, Debug, PartialEq, Eq, Structural)]
pub struct MediaTime {
    pub millis: u64,
}

/// Milliseconds of `hour:min:sec.milli`.
pub open spec fn hms_millis(hour: nat, min: nat, sec: nat, milli: nat) -> nat {
    ((hour * 60 + min) * 60 + sec) * 1000 + milli
}

impl MediaTime {
    /// Below one day.
    pub open spec fn wf(&self) -> bool {
        self.millis < DAY_MS
    }

    /// The clock value `hour:min:sec.milli`, or `None` when a field is out of
    /// its range.
    pub fn from_hms_milli_opt(hour: u32, min: u32, sec: u32, milli: u32) -> (r: Option<MediaTime>)
        ensures
            r == (if hour < 24 && min < 60 && sec < 60 && milli < 1000 {
                Some(MediaTime { millis: hms_millis(hour as nat, min as nat, sec as nat, milli as nat) as u64 })
            } else {
                None
            }),
            r matches Some(t) ==> t.wf(),
    {
        if hour < 24 && min < 60 && sec < 60 && milli < 1000 {
            let h = hour as u64;
            let m = min as u64;
            let s = sec as u64;
            let ms = milli as u64;
            Some(MediaTime { millis: ((h * 60 + m) * 60 + s) * 1000 + ms })
        } else {
            None
        }
    }
}

/// Two decimal digits of a value below one hundred.
pub open spec fn two_digits(n: nat) -> Seq<char> {
    seq![digit_of(n / 10), digit_of(n % 10)]
}

/// `HH:MM:SS.cc` of a clock value, hundredths truncated.
pub open spec fn clock_text(ms: nat) -> Seq<char> {
    two_digits(ms / 3_600_000) + seq![':'] + two_digits((ms / 60_000) % 60) + seq![':']
        + two_digits((ms / 1000) % 60) + seq!['.'] + two_digits((ms % 1000) / 10)
}

fn push_two_digits(out: &mut String, n: u64)
    requires
        n < 100,
    ensures
        final(out)@ == old(out)@ + two_digits(n as nat),
{
    push_char(out, ((n / 10) as u8 + 48u8) as char);
    push_char(out, ((n % 10) as u8 + 48u8) as char);
}

/// The encoder's textual form of `duration`: `HH:MM:SS.cc`.
pub fn print_ffmpeg_duration(duration: &MediaTime) -> (r: String)
    requires
        duration.wf(),
    ensures
        r@ == clock_text(duration.millis as nat),
{
    let ms = duration.millis;
    let mut out = String::new();
    push_two_digits(&mut out, ms / 3_600_000);
    push_char(&mut out, ':');
    push_two_digits(&mut out, (ms / 60_000) % 60);
    push_char(&mut out, ':');
    push_two_digits(&mut out, (ms / 1000) % 60);
    push_char(&mut out, '.');
    push_two_digits(&mut out, (ms % 1000) / 10);
    out
}

/// `probed` held for `pause_ms` more: `None` when that reaches a day.
pub fn display_duration(probed: MediaTime, pause_ms: u64) -> (r: Option<MediaTime>)
    requires
        probed.wf(),
    ensures
        r == (if probed.millis + pause_ms < DAY_MS {
            Some(MediaTime { millis: (probed.millis + pause_ms) as u64 })
        } else {
            None
        }),
{
    if pause_ms < DAY_MS - probed.millis {
        Some(MediaTime { millis: probed.millis + pause_ms })
    } else {
        None
    }
}

/// Display time of each slide: its probed audio duration plus its pause;
/// `None` when one of them reaches a day.
pub fn display_durations(probed: &Vec<MediaTime>, pauses: &Vec<u64>) -> (r: Option<Vec<MediaTime>>)
    requires
        probed@.len() == pauses@.len(),
        forall|i: int| 0 <= i < probed@.len() ==> (#[trigger] probed@[i]).wf(),
    ensures
        r is Some <==> forall|i: int| 0 <= i < probed@.len() ==> #[trigger] probed@[i].millis + pauses@[i] < DAY_MS,
        r matches Some(d) ==> d@.len() == probed@.len() && forall|i: int| 0 <= i < d@.len() ==> (
        #[trigger] d@[i]).millis == probed@[i].millis + pauses@[i] && d@[i].wf(),
{
    let mut out: Vec<MediaTime> = Vec::new();
    let mut i: usize = 0;
    while i < probed.len()
        invariant
            i <= probed@.len(),
            probed@.len() == pauses@.len(),
            forall|j: int| 0 <= j < probed@.len() ==> (#[trigger] probed@[j]).wf(),
            out@.len() == i,
            forall|j: int| 0 <= j < i ==> #[trigger] probed@[j].millis + pauses@[j] < DAY_MS,
            forall|j: int| 0 <= j < i ==> (#[trigger] out@[j]).millis == probed@[j].millis + pauses@[j]
                && out@[j].wf(),
        decreases probed@.len() - i,
    {
        match display_duration(probed[i], pauses[i]) {
            Some(d) => out.push(d),
            None => return None,
        }
        i += 1;
    }
    Some(out)
}

/// Sum of the milliseconds of `ts`.
pub open spec fn total_millis(ts: Seq<MediaTime>) -> nat
    decreases ts.len(),
{
    if ts.len() == 0 {
        0
    } else {
        total_millis(ts.drop_last()) + ts.last().millis as nat
    }
}

/// Sum of `ps`.
pub open spec fn total(ps: Seq<u64>) -> nat
    decreases ps.len(),
{
    if ps.len() == 0 {
        0
    } else {
        total(ps.drop_last()) + ps.last() as nat
    }
}

/// The display times of a deck add up to its probed audio durations plus its
/// pauses: the assembled video runs `sum(d_i) + sum(p_i)`.
pub proof fn lemma_display_total(probed: Seq<MediaTime>, pauses: Seq<u64>, displays: Seq<MediaTime>)
    requires
        probed.len() == pauses.len(),
        displays.len() == probed.len(),
        forall|i: int| 0 <= i < displays.len() ==> (#[trigger] displays[i]).millis == probed[i].millis + pauses[i],
    ensures
        total_millis(displays) == total_millis(probed) + total(pauses),
    decreases probed.len(),
{
    if probed.len() > 0 {
        let n = probed.len() - 1;
        assert(displays[n].millis == probed[n].millis + pauses[n]);
        lemma_display_total(probed.drop_last(), pauses.drop_last(), displays.drop_last());
    }
}

/// An ASCII digit.
pub open spec fn is_digit(c: char) -> bool {
    '0' <= c && c <= '9'
}

/// A non-empty run of ASCII digits.
pub open spec fn all_digits(s: Seq<char>) -> bool {
    s.len() > 0 && forall|i: int| 0 <= i < s.len() ==> is_digit(#[trigger] s[i])
}

/// Value of an ASCII digit.
pub open spec fn digit_value(c: char) -> nat {
    ((c as u32) - 48) as nat
}

/// Base-ten value of a run of digits.
pub open spec fn digits_value(s: Seq<char>) -> nat
    decreases s.len(),
{
    if s.len() == 0 {
        0
    } else {
        digits_value(s.drop_last()) * 10 + digit_value(s.last())
    }
}

/// Ten to the power `n`.
pub open spec fn pow10(n: nat) -> nat
    decreases n,
{
    if n == 0 {
        1
    } else {
        10 * pow10((n - 1) as nat)
    }
}

/// A run of `n` digits has a value below `10^n`.
proof fn lemma_digits_bound(s: Seq<char>)
    requires
        forall|i: int| 0 <= i < s.len() ==> is_digit(#[trigger] s[i]),
    ensures
        digits_value(s) < pow10(s.len()),
    decreases s.len(),
{
    if s.len() > 0 {
        let p = s.drop_last();
        assert forall|i: int| 0 <= i < p.len() implies is_digit(#[trigger] p[i]) by {
            assert(p[i] == s[i]);
        }
        lemma_digits_bound(p);
        let v = digits_value(p);
        let q = pow10(p.len());
        let d = digit_value(s.last());
        assert(is_digit(s[s.len() - 1]));
        assert(d <= 9);
        assert(v * 10 + d < 10 * q) by (nonlinear_arith)
            requires
                v < q,
                d <= 9,
        ;
    }
}

/// Milliseconds of a fraction of a second written with the digits `f`: the
/// first three digits, padded on the right with zeros.
pub open spec fn fraction_millis(f: Seq<char>) -> nat {
    if f.len() >= 3 {
        digits_value(f.take(3))
    } else if f.len() == 2 {
        digits_value(f) * 10
    } else {
        digits_value(f) * 100
    }
}

/// The clock value written `H:M:S.F`, each field a run of digits, with hours
/// below 24 and minutes and seconds below 60; `None` for any other text.
pub open spec fn parsed_duration(s: Seq<char>) -> Option<MediaTime> {
    match find_char(s, 0, ':') {
        None => None,
        Some(a) => match find_char(s, a + 1, ':') {
            None => None,
            Some(b) => match find_char(s, b + 1, '.') {
                None => None,
                Some(c) => {
                    let h = s.subrange(0, a);
                    let m = s.subrange(a + 1, b);
                    let sec = s.subrange(b + 1, c);
                    let f = s.subrange(c + 1, s.len() as int);
                    if all_digits(h) && all_digits(m) && all_digits(sec) && all_digits(f)
                        && digits_value(h) < 24 && digits_value(m) < 60 && digits_value(sec) < 60 {
                        Some(
                            MediaTime {
                                millis: hms_millis(
                                    digits_value(h),
                                    digits_value(m),
                                    digits_value(sec),
                                    fraction_millis(f),
                                ) as u64,
                            },
                        )
                    } else {
                        None
                    }
                },
            },
        },
    }
}

proof fn lemma_digit_round_trip(d: nat)
    requires
        d < 10,
    ensures
        is_digit(digit_of(d)),
        digit_value(digit_of(d)) == d,
{
    assert(((d + 48) as u8) as char == ((d + 48) as u8) as char);
}

proof fn lemma_two_digits_round_trip(n: nat)
    requires
        n < 100,
    ensures
        all_digits(two_digits(n)),
        digits_value(two_digits(n)) == n,
        two_digits(n).len() == 2,
{
    lemma_digit_round_trip(n / 10);
    lemma_digit_round_trip(n % 10);
    let t = two_digits(n);
    assert(t.drop_last() =~= seq![digit_of(n / 10)]);
    assert(t.drop_last().drop_last() =~= Seq::<char>::empty());
    reveal_with_fuel(digits_value, 3);
}

/// The encoder reads back the clock value that `print_ffmpeg_duration`
/// writes, for every value on a whole hundredth of a second.
pub proof fn lemma_clock_text_round_trip(t: MediaTime)
    requires
        t.wf(),
        t.millis % 10 == 0,
    ensures
        parsed_duration(clock_text(t.millis as nat)) == Some(t),
{
    let ms = t.millis as nat;
    let h = ms / 3_600_000;
    let m = (ms / 60_000) % 60;
    let sec = (ms / 1000) % 60;
    let c = (ms % 1000) / 10;
    lemma_two_digits_round_trip(h);
    lemma_two_digits_round_trip(m);
    lemma_two_digits_round_trip(sec);
    lemma_two_digits_round_trip(c);
    let s = clock_text(ms);
    assert(s.len() == 11);
    assert(s[0] == digit_of(h / 10) && s[1] == digit_of(h % 10) && s[2] == ':');
    assert(s[3] == digit_of(m / 10) && s[4] == digit_of(m % 10) && s[5] == ':');
    assert(s[6] == digit_of(sec / 10) && s[7] == digit_of(sec % 10) && s[8] == '.');
    assert(s[9] == digit_of(c / 10) && s[10] == digit_of(c % 10));
    assert(is_digit(digit_of(h / 10)) && is_digit(digit_of(h % 10)));
    assert(is_digit(digit_of(m / 10)) && is_digit(digit_of(m % 10)));
    assert(is_digit(digit_of(sec / 10)) && is_digit(digit_of(sec % 10)));
    reveal_with_fuel(find_char, 4);
    assert(find_char(s, 0, ':') == Some(2int));
    assert(find_char(s, 3, ':') == Some(5int));
    assert(find_char(s, 6, '.') == Some(8int));
    assert(s.subrange(0, 2) =~= two_digits(h));
    assert(s.subrange(3, 5) =~= two_digits(m));
    assert(s.subrange(6, 8) =~= two_digits(sec));
    assert(s.subrange(9, 11) =~= two_digits(c));
    assert(hms_millis(h, m, sec, c * 10) == ms) by (nonlinear_arith)
        requires
            h == ms / 3_600_000,
            m == (ms / 60_000) % 60,
            sec == (ms / 1000) % 60,
            c == (ms % 1000) / 10,
            ms % 10 == 0,
            ms < 86_400_000,
    ;
}

/// Values of digit runs are tracked up to this bound.
pub const DIGITS_LIMIT: u64 = 1_000_000_000;

/// Value of the digits `s[lo..hi]`: `None` when the range is empty, holds a
/// non-digit, or its value reaches `DIGITS_LIMIT`.
pub(crate) fn parse_digits(s: &Vec<char>, lo: usize, hi: usize) -> (r: Option<u64>)
    requires
        lo <= hi <= s@.len(),
    ensures
        r == (if all_digits(s@.subrange(lo as int, hi as int)) && digits_value(
            s@.subrange(lo as int, hi as int),
        ) < DIGITS_LIMIT {
            Some(digits_value(s@.subrange(lo as int, hi as int)) as u64)
        } else {
            None::<u64>
        }),
{
    if lo == hi {
        return None;
    }
    let mut v: u64 = 0;
    let mut over = false;
    let mut i = lo;
    while i < hi
        invariant
            lo <= i <= hi <= s@.len(),
            forall|j: int| lo <= j < i ==> is_digit(#[trigger] s@[j]),
            !over ==> v == digits_value(s@.subrange(lo as int, i as int)) && v < DIGITS_LIMIT,
            over ==> digits_value(s@.subrange(lo as int, i as int)) >= DIGITS_LIMIT,
        decreases hi - i,
    {
        let c = s[i];
        if !('0' <= c && c <= '9') {
            assert(!is_digit(s@.subrange(lo as int, hi as int)[i - lo]));
            return None;
        }
        let ghost next = s@.subrange(lo as int, i + 1);
        assert(next.drop_last() =~= s@.subrange(lo as int, i as int));
        if !over {
            v = v * 10 + (c as u64 - 48);
            if v >= DIGITS_LIMIT {
                over = true;
            }
        }
        i += 1;
    }
    assert(all_digits(s@.subrange(lo as int, hi as int)));
    if over {
        None
    } else {
        Some(v)
    }
}

/// Whether every character of `s[lo..hi]` is a digit, the range not empty.
fn digits_only(s: &Vec<char>, lo: usize, hi: usize) -> (r: bool)
    requires
        lo <= hi <= s@.len(),
    ensures
        r == all_digits(s@.subrange(lo as int, hi as int)),
{
    if lo == hi {
        return false;
    }
    let mut i = lo;
    while i < hi
        invariant
            lo <= i <= hi <= s@.len(),
            forall|j: int| lo <= j < i ==> is_digit(#[trigger] s@[j]),
        decreases hi - i,
    {
        let c = s[i];
        if !('0' <= c && c <= '9') {
            assert(!is_digit(s@.subrange(lo as int, hi as int)[i - lo]));
            return false;
        }
        i += 1;
    }
    true
}

/// Parses an encoder duration `HH:MM:SS.ff`, as in `00:01:02.50`.
pub fn parse_ffmpeg_duration(duration: &str) -> (r: Option<MediaTime>)
    ensures
        r == parsed_duration(duration@),
        r matches Some(t) ==> t.wf(),
{
    let s = chars_of(duration);
    parse_duration_chars(&s)
}

/// The characters `s[lo..hi]`.
fn copy_range(s: &Vec<char>, lo: usize, hi: usize) -> (r: Vec<char>)
    requires
        lo <= hi <= s@.len(),
    ensures
        r@ == s@.subrange(lo as int, hi as int),
{
    let mut out: Vec<char> = Vec::new();
    let mut i = lo;
    while i < hi
        invariant
            lo <= i <= hi <= s@.len(),
            out@ == s@.subrange(lo as int, i as int),
        decreases hi - i,
    {
        out.push(s[i]);
        i += 1;
        assert(out@ =~= s@.subrange(lo as int, i as int));
    }
    out
}

/// The label before the duration in a media prober's report.
pub open spec fn duration_label() -> Seq<char> {
    "Duration: "@
}

/// The text after the first `Duration: ` of a prober report, up to the next
/// comma or the end.
pub open spec fn duration_field(report: Seq<char>) -> Option<Seq<char>> {
    match find_infix(report, 0, duration_label()) {
        None => None,
        Some(p) => {
            let start = p + duration_label().len();
            let end = match find_char(report, start, ',') {
                Some(e) => e,
                None => report.len() as int,
            };
            Some(report.subrange(start, end))
        },
    }
}

/// The duration that a media prober's diagnostic report gives, as in
/// `Duration: 00:00:03.50, start: 0.000000`; `None` when the report has no
/// duration field or the field does not parse.
pub fn probe_report_duration(report: &str) -> (r: Option<MediaTime>)
    ensures
        r == (match duration_field(report@) {
            Some(f) => parsed_duration(f),
            None => None,
        }),
        r matches Some(t) ==> t.wf(),
{
    let s = chars_of(report);
    let n = s.len();
    let label = chars_of("Duration: ");
    let p = match find_infix_from(&s, 0, &label) {
        Some(p) => p,
        None => return None,
    };
    let start = p + label.len();
    let end = match find_char_from(&s, start, ',') {
        Some(e) => e,
        None => s.len(),
    };
    let field = copy_range(&s, start, end);
    parse_duration_chars(&field)
}

/// Parses the characters of an encoder duration, as `parsed_duration` says.
fn parse_duration_chars(s: &Vec<char>) -> (r: Option<MediaTime>)
    ensures
        r == parsed_duration(s@),
        r matches Some(t) ==> t.wf(),
{
    let n = s.len();
    let a = match find_char_from(&s, 0, ':') {
        Some(a) => a,
        None => return None,
    };
    let b = match find_char_from(&s, a + 1, ':') {
        Some(b) => b,
        None => return None,
    };
    let c = match find_char_from(&s, b + 1, '.') {
        Some(c) => c,
        None => return None,
    };
    let h = parse_digits(&s, 0, a);
    let m = parse_digits(&s, a + 1, b);
    let sec = parse_digits(&s, b + 1, c);
    let frac_ok = digits_only(&s, c + 1, n);
    if h.is_none() || m.is_none() || sec.is_none() || !frac_ok {
        return None;
    }
    let h = h.unwrap();
    let m = m.unwrap();
    let sec = sec.unwrap();
    let ghost f = s@.subrange(c + 1, n as int);
    let flen = n - (c + 1);
    let milli = if flen >= 3 {
        let ghost f3 = s@.subrange(c + 1, c + 4);
        assert(f3 =~= f.take(3));
        assert forall|i: int| 0 <= i < f3.len() implies is_digit(#[trigger] f3[i]) by {
            assert(f3[i] == f[i]);
        }
        proof {
            lemma_digits_bound(f3);
            reveal_with_fuel(pow10, 4);
        }
        parse_digits(&s, c + 1, c + 4).unwrap()
    } else if flen == 2 {
        proof {
            lemma_digits_bound(f);
            reveal_with_fuel(pow10, 3);
        }
        parse_digits(&s, c + 1, n).unwrap() * 10
    } else {
        proof {
            lemma_digits_bound(f);
            reveal_with_fuel(pow10, 2);
        }
        parse_digits(&s, c + 1, n).unwrap() * 100
    };
    if h < 24 && m < 60 && sec < 60 {
        MediaTime::from_hms_milli_opt(h as u32, m as u32, sec as u32, milli as u32)
    } else {
        None
    }
}

} // verus!
