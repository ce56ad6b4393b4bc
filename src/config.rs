//! The configuration block of a deck source: the commented lines between
//! `// --- trv config:` and `// ---`, with their comment markers removed.

use vstd::prelude::*;
use crate::slide::{join_newline, lines_of, trim_range, trim_ws};
use crate::text::{chars_of, occurs_at, text_of};

verus! {

/// Why a configuration block cannot be read.
#[derive(Clone, Copy, Debug, PartialEq, Eq, Structural)]
pub enum ConfigError {
    /// A line inside the block, at this 0-based line number, does not start
    /// with `// `.
    UnprefixedLine { line: usize },
}

/// The line that opens the block.
pub open spec fn block_open() -> Seq<char> {
    "// --- trv config:"@
}

/// The line that closes the block.
pub open spec fn block_close() -> Seq<char> {
    "// ---"@
}

/// The comment marker in front of each line of the block.
pub open spec fn line_marker() -> Seq<char> {
    "// "@
}

/// The lines of a text: split at each newline, no last empty line after a
/// final newline.
pub open spec fn text_lines(s: Seq<char>) -> Seq<Seq<char>> {
    if s.len() > 0 && s.last() == '\n' {
        lines_of(s.drop_last())
    } else {
        lines_of(s)
    }
}

/// `r` with `front` put before its lines.
pub open spec fn prepend(front: Seq<Seq<char>>, r: Result<Seq<Seq<char>>, ConfigError>) -> Result<Seq<Seq<char>>, ConfigError> {
    match r {
        Ok(rest) => Ok(front + rest),
        Err(e) => Err(e),
    }
}

/// The block's lines from line `i` on, each trimmed and stripped of its
/// marker; `inside` tells whether the opening line has been passed. The
/// block ends at its closing line or at the end of the text.
pub open spec fn section_from(lines: Seq<Seq<char>>, i: nat, inside: bool) -> Result<Seq<Seq<char>>, ConfigError>
    decreases lines.len() - i,
{
    if i >= lines.len() {
        Ok(Seq::empty())
    } else {
        let l = trim_ws(lines[i as int]);
        if l == block_open() {
            section_from(lines, i + 1, true)
        } else if inside && l == block_close() {
            Ok(Seq::empty())
        } else if inside {
            if l.len() >= 3 && l.subrange(0, 3) == line_marker() {
                prepend(seq![l.subrange(3, l.len() as int)], section_from(lines, i + 1, true))
            } else {
                Err(ConfigError::UnprefixedLine { line: i as usize })
            }
        } else {
            section_from(lines, i + 1, false)
        }
    }
}

/// The configuration text of a deck source: the block's lines joined with
/// newlines, empty when the source has no block.
pub open spec fn config_text(content: Seq<char>) -> Result<Seq<char>, ConfigError> {
    match section_from(text_lines(content), 0, false) {
        Ok(ls) => Ok(join_newline(ls)),
        Err(e) => Err(e),
    }
}

/// Views of a sequence of character vectors.
pub open spec fn line_views(v: Seq<Vec<char>>) -> Seq<Seq<char>> {
    v.map_values(|l: Vec<char>| l@)
}

/// The lines of `s[0..end]`.
fn split_lines(s: &Vec<char>, end: usize) -> (r: Vec<Vec<char>>)
    requires
        end <= s@.len(),
    ensures
        line_views(r@) == lines_of(s@.subrange(0, end as int)),
{
    let mut out: Vec<Vec<char>> = Vec::new();
    let mut cur: Vec<char> = Vec::new();
    let mut i: usize = 0;
    assert(lines_of(s@.subrange(0, 0)) =~= seq![Seq::<char>::empty()]);
    while i < end
        invariant
            i <= end <= s@.len(),
            line_views(out@).push(cur@) == lines_of(s@.subrange(0, i as int)),
        decreases end - i,
    {
        let ghost pre = s@.subrange(0, i as int);
        let ghost now = s@.subrange(0, i + 1);
        assert(now.drop_last() =~= pre);
        let c = s[i];
        if c == '\n' {
            let ghost before = out@;
            let line = cur;
            out.push(line);
            cur = Vec::new();
            assert(line_views(out@) =~= line_views(before).push(line@));
            assert(line_views(out@).push(cur@) =~= lines_of(now));
        } else {
            let ghost cur0 = cur@;
            cur.push(c);
            assert(line_views(out@).push(cur@) =~= lines_of(now));
        }
        i += 1;
    }
    let ghost before = out@;
    out.push(cur);
    assert(line_views(out@) =~= line_views(before).push(cur@));
    out
}

/// Whether two character sequences are equal.
fn same_chars(a: &Vec<char>, b: &Vec<char>) -> (r: bool)
    ensures
        r == (a@ == b@),
{
    if a.len() != b.len() {
        return false;
    }
    assert(a@.subrange(0, b@.len() as int) =~= a@);
    occurs_at(a, 0, b)
}

/// Reads the configuration block of a deck source: the lines between
/// `// --- trv config:` and `// ---`, trimmed, each stripped of its leading
/// `// `, joined with newlines. A line inside the block without that marker
/// is an error.
pub fn config_section(content: &str) -> (r: Result<String, ConfigError>)
    ensures
        match r {
            Ok(t) => config_text(content@) == Ok::<Seq<char>, ConfigError>(t@),
            Err(e) => config_text(content@) == Err::<Seq<char>, ConfigError>(e),
        },
{
    let s = chars_of(content);
    let n = s.len();
    let end = if n > 0 && s[n - 1] == '\n' { n - 1 } else { n };
    let lines = split_lines(&s, end);
    proof {
        if n > 0 && s@[n - 1] == '\n' {
            assert(s@.subrange(0, end as int) =~= s@.drop_last());
        } else {
            assert(s@.subrange(0, end as int) =~= s@);
        }
    }
    let ghost all = line_views(lines@);
    assert(all == text_lines(content@));
    let open_line = chars_of("// --- trv config:");
    let close_line = chars_of("// ---");
    let marker = chars_of("// ");
    proof {
        reveal_strlit("// ");
    }
    let mut out: Vec<Vec<char>> = Vec::new();
    let mut inside = false;
    let mut i: usize = 0;
    assert(line_views(out@) =~= Seq::<Seq<char>>::empty());
    while i < lines.len()
        invariant
            i <= lines@.len(),
            all == line_views(lines@),
            all == text_lines(content@),
            all.len() == lines@.len(),
            open_line@ == block_open(),
            close_line@ == block_close(),
            marker@ == line_marker(),
            marker@.len() == 3,
            section_from(all, 0, false) == prepend(line_views(out@), section_from(all, i as nat, inside)),
        decreases lines@.len() - i,
    {
        let l = trim_range(&lines[i], 0, lines[i].len());
        assert(lines@[i as int]@.subrange(0, lines@[i as int]@.len() as int) =~= all[i as int]);
        if same_chars(&l, &open_line) {
            assert(section_from(all, i as nat, inside) == section_from(all, (i + 1) as nat, true));
            inside = true;
        } else if inside && same_chars(&l, &close_line) {
            assert(section_from(all, i as nat, inside) == Ok::<Seq<Seq<char>>, ConfigError>(Seq::empty()));
            assert(prepend(line_views(out@), Ok(Seq::<Seq<char>>::empty())) == Ok::<Seq<Seq<char>>, ConfigError>(line_views(out@) + Seq::<Seq<char>>::empty()));
            assert(line_views(out@) + Seq::<Seq<char>>::empty() =~= line_views(out@));
            return finish(&out);
        } else if inside {
            if l.len() >= 3 && occurs_at(&l, 0, &marker) {
                assert(section_from(all, i as nat, inside) == prepend(
                    seq![l@.subrange(3, l@.len() as int)],
                    section_from(all, (i + 1) as nat, true),
                ));
                let stripped = suffix_from(&l, 3);
                let ghost before = line_views(out@);
                out.push(stripped);
                assert(line_views(out@) =~= before.push(l@.subrange(3, l@.len() as int)));
                assert(before.push(l@.subrange(3, l@.len() as int)) =~= before + seq![l@.subrange(3, l@.len() as int)]);
                proof {
                    let rest = section_from(all, (i + 1) as nat, true);
                    match rest {
                        Ok(x) => {
                            assert(before + (seq![l@.subrange(3, l@.len() as int)] + x) =~= line_views(out@) + x);
                        },
                        Err(_) => {},
                    }
                }
            } else {
                proof {
                    if l@.len() >= 3 {
                        assert(l@.subrange(0, 3) != line_marker());
                    }
                }
                assert(section_from(all, i as nat, inside) == Err::<Seq<Seq<char>>, ConfigError>(ConfigError::UnprefixedLine { line: i }));
                return Err(ConfigError::UnprefixedLine { line: i });
            }
        } else {
            assert(section_from(all, i as nat, inside) == section_from(all, (i + 1) as nat, false));
        }
        i += 1;
    }
    assert(line_views(out@) + Seq::<Seq<char>>::empty() =~= line_views(out@));
    finish(&out)
}

/// `s[from..]`.
fn suffix_from(s: &Vec<char>, from: usize) -> (r: Vec<char>)
    requires
        from <= s@.len(),
    ensures
        r@ == s@.subrange(from as int, s@.len() as int),
{
    let mut out: Vec<char> = Vec::new();
    let mut i = from;
    while i < s.len()
        invariant
            from <= i <= s@.len(),
            out@ == s@.subrange(from as int, i as int),
        decreases s@.len() - i,
    {
        out.push(s[i]);
        i += 1;
        assert(out@ =~= s@.subrange(from as int, i as int));
    }
    out
}

/// The lines joined with newlines, as the configuration text.
fn finish(lines: &Vec<Vec<char>>) -> (r: Result<String, ConfigError>)
    ensures
        r matches Ok(t) && t@ == join_newline(line_views(lines@)),
{
    let mut out: Vec<char> = Vec::new();
    let mut i: usize = 0;
    while i < lines.len()
        invariant
            i <= lines@.len(),
            out@ == join_newline(line_views(lines@).take(i as int)),
        decreases lines@.len() - i,
    {
        let ghost now = line_views(lines@).take(i as int + 1);
        assert(now.drop_last() =~= line_views(lines@).take(i as int));
        if i > 0 {
            out.push('\n');
        }
        let ghost o = out@;
        let mut k: usize = 0;
        while k < lines[i].len()
            invariant
                i < lines@.len(),
                k <= lines@[i as int]@.len(),
                out@ == o + lines@[i as int]@.subrange(0, k as int),
            decreases lines@[i as int]@.len() - k,
        {
            out.push(lines[i][k]);
            k += 1;
            assert(out@ =~= o + lines@[i as int]@.subrange(0, k as int));
        }
        assert(lines@[i as int]@.subrange(0, k as int) =~= lines@[i as int]@);
        assert(out@ =~= join_newline(now));
        i += 1;
    }
    assert(line_views(lines@).take(i as int) =~= line_views(lines@));
    Ok(text_of(&out))
}

} // verus!
