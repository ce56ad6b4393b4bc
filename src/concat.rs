//! The manifest of the encoder's stream-copy concatenation: one line per
//! clip, in the numeric order of the clips' file names.

use vstd::prelude::*;
use crate::text::{chars_of, find_char, find_char_from};
use crate::timing::{all_digits, digits_value, parse_digits, DIGITS_LIMIT};

verus! {

/// Why a list of clips cannot be ordered.
#[derive(Clone, Copy, Debug, PartialEq, Eq, Structural)]
pub enum ManifestError {
    /// The clip at this position has no number before its first `.`.
    NotNumbered { position: usize },
}

/// The file name up to its first `.`.
pub open spec fn stem(name: Seq<char>) -> Seq<char> {
    match find_char(name, 0, '.') {
        Some(p) => name.subrange(0, p),
        None => name,
    }
}

/// The name's stem is a number that the ordering can hold.
pub open spec fn numbered(name: Seq<char>) -> bool {
    all_digits(stem(name)) && digits_value(stem(name)) < DIGITS_LIMIT
}

/// The number of a clip name, such as 10 for `10.mp4`.
pub open spec fn clip_number(name: Seq<char>) -> nat {
    digits_value(stem(name))
}

/// `order` lists every position of `names` once, by increasing clip number,
/// equal numbers in their original order.
pub open spec fn is_clip_order(names: Seq<Seq<char>>, order: Seq<usize>) -> bool {
    &&& order.len() == names.len()
    &&& forall|a: int| 0 <= a < order.len() ==> #[trigger] order[a] < names.len()
    &&& forall|a: int, b: int| 0 <= a < b < order.len() ==> order[a] != order[b]
    &&& forall|a: int, b: int|
        #![trigger order[a], order[b]]
        0 <= a < b < order.len() ==> comes_before(names, order[a], order[b])
}

/// Clip `x` of `names` goes before clip `y`: a smaller number, or the same
/// number and an earlier position.
pub open spec fn comes_before(names: Seq<Seq<char>>, x: usize, y: usize) -> bool {
    clip_number(names[x as int]) < clip_number(names[y as int]) || (clip_number(names[x as int])
        == clip_number(names[y as int]) && x < y)
}

/// The same order over precomputed keys.
spec fn key_before(keys: Seq<u64>, x: usize, y: usize) -> bool {
    keys[x as int] < keys[y as int] || (keys[x as int] == keys[y as int] && x < y)
}

/// Views of a sequence of strings.
pub open spec fn name_views(v: Seq<String>) -> Seq<Seq<char>> {
    v.map_values(|s: String| s@)
}

/// The number of the clip name `name`, or `None` when it has none.
fn number_of(name: &String) -> (r: Option<u64>)
    ensures
        r == (if numbered(name@) {
            Some(clip_number(name@) as u64)
        } else {
            None::<u64>
        }),
{
    let s = chars_of(name.as_str());
    let end = match find_char_from(&s, 0, '.') {
        Some(p) => p,
        None => s.len(),
    };
    proof {
        if find_char(s@, 0, '.') is None {
            assert(s@.subrange(0, s@.len() as int) =~= s@);
        }
    }
    parse_digits(&s, 0, end)
}

/// Positions of `names` in numeric order of their clip numbers; the first
/// name without a number is an error.
pub fn clip_order(names: &[String]) -> (r: Result<Vec<usize>, ManifestError>)
    ensures
        match r {
            Ok(order) => is_clip_order(name_views(names@), order@) && forall|i: int|
                0 <= i < names@.len() ==> numbered(#[trigger] names@[i]@),
            Err(ManifestError::NotNumbered { position }) => position < names@.len() && !numbered(
                names@[position as int]@,
            ) && forall|i: int| 0 <= i < position ==> numbered(#[trigger] names@[i]@),
        },
{
    let ghost nv = name_views(names@);
    let mut keys: Vec<u64> = Vec::new();
    let mut i: usize = 0;
    while i < names.len()
        invariant
            i <= names@.len(),
            nv == name_views(names@),
            keys@.len() == i,
            forall|j: int| 0 <= j < i ==> numbered(#[trigger] names@[j]@) && keys@[j] == clip_number(names@[j]@),
        decreases names@.len() - i,
    {
        match number_of(&names[i]) {
            Some(k) => keys.push(k),
            None => return Err(ManifestError::NotNumbered { position: i }),
        }
        i += 1;
    }
    let mut order: Vec<usize> = Vec::new();
    let mut j: usize = 0;
    while j < names.len()
        invariant
            j <= names@.len(),
            nv == name_views(names@),
            keys@.len() == names@.len(),
            forall|x: int| 0 <= x < names@.len() ==> #[trigger] keys@[x] == clip_number(nv[x]),
            order@.len() == j,
            forall|a: int| 0 <= a < order@.len() ==> #[trigger] order@[a] < j,
            forall|a: int, b: int| 0 <= a < b < order@.len() ==> order@[a] != order@[b],
            forall|a: int, b: int|
                #![trigger order@[a], order@[b]]
                0 <= a < b < order@.len() ==> key_before(keys@, order@[a], order@[b]),
        decreases names@.len() - j,
    {
        let kj = keys[j];
        let mut p: usize = 0;
        while p < order.len() && keys[order[p]] <= kj
            invariant
                p <= order@.len(),
                keys@.len() == names@.len(),
                forall|a: int| 0 <= a < order@.len() ==> #[trigger] order@[a] < j,
                j < names@.len(),
                forall|a: int| 0 <= a < p ==> keys@[#[trigger] order@[a] as int] <= kj,
            decreases order@.len() - p,
        {
            p += 1;
        }
        let ghost before = order@;
        order.insert(p, j);
        assert(order@ =~= before.subrange(0, p as int).push(j).add(before.subrange(p as int, before.len() as int)));
        assert forall|a: int, b: int|
            #![trigger order@[a], order@[b]]
            0 <= a < b < order@.len() implies key_before(keys@, order@[a], order@[b]) by {
            if b < p {
                assert(order@[a] == before[a] && order@[b] == before[b]);
            } else if b == p {
                assert(order@[a] == before[a]);
                assert(keys@[before[a] as int] <= kj);
            } else if a == p {
                assert(order@[b] == before[b - 1]);
                assert(p < before.len());
                assert(!(keys@[before[p as int] as int] <= kj));
                if b - 1 > p {
                    assert(key_before(keys@, before[p as int], before[b - 1]));
                }
            } else if a < p {
                assert(order@[a] == before[a] && order@[b] == before[b - 1]);
                assert(keys@[before[a] as int] <= kj);
                assert(!(keys@[before[p as int] as int] <= kj));
                assert(key_before(keys@, before[p as int], before[b - 1]) || b - 1 == p);
            } else {
                assert(order@[a] == before[a - 1] && order@[b] == before[b - 1]);
            }
        }
        j += 1;
    }
    assert(forall|x: int| 0 <= x < names@.len() ==> #[trigger] nv[x] == names@[x]@);
    assert forall|a: int, b: int|
        #![trigger order@[a], order@[b]]
        0 <= a < b < order@.len() implies comes_before(nv, order@[a], order@[b]) by {
        assert(key_before(keys@, order@[a], order@[b]));
    }
    Ok(order)
}

/// The manifest line of one clip: `file '{name}'` and a newline.
pub open spec fn manifest_line(name: Seq<char>) -> Seq<char> {
    "file '"@ + name + seq!['\'', '\n']
}

/// The manifest lines of the first `k` clips of `order`.
pub open spec fn manifest_text(names: Seq<Seq<char>>, order: Seq<usize>, k: nat) -> Seq<char>
    decreases k,
{
    if k == 0 || k > order.len() {
        Seq::empty()
    } else {
        manifest_text(names, order, (k - 1) as nat) + manifest_line(names[order[k - 1] as int])
    }
}

/// The concatenation manifest of `names`: one `file '<name>'` line per clip,
/// by increasing clip number (`1.mp4` before `2.mp4` before `10.mp4`), not in
/// the order of the text.
pub fn concat_manifest(names: &[String]) -> (r: Result<String, ManifestError>)
    ensures
        match r {
            Ok(text) => exists|order: Seq<usize>|
                is_clip_order(name_views(names@), order) && text@ == manifest_text(
                    name_views(names@),
                    order,
                    order.len(),
                ),
            Err(ManifestError::NotNumbered { position }) => position < names@.len() && !numbered(
                names@[position as int]@,
            ) && forall|i: int| 0 <= i < names@.len() && i < position ==> numbered(
                #[trigger] names@[i]@,
            ),
        },
{
    let order = match clip_order(names) {
        Ok(o) => o,
        Err(e) => return Err(e),
    };
    let ghost nv = name_views(names@);
    let mut out = String::new();
    let mut k: usize = 0;
    while k < order.len()
        invariant
            k <= order@.len(),
            nv == name_views(names@),
            is_clip_order(nv, order@),
            out@ == manifest_text(nv, order@, k as nat),
        decreases order@.len() - k,
    {
        let i = order[k];
        assert(i < names@.len());
        assert(nv[i as int] == names@[i as int]@);
        out.append("file '");
        out.append(names[i].as_str());
        crate::text::push_char(&mut out, '\'');
        crate::text::push_char(&mut out, '\n');
        k += 1;
        assert(out@ =~= manifest_text(nv, order@, k as nat));
    }
    Ok(out)
}

} // verus!
