//! Plain data of the interactive viewer: the scene path with its scene index, and the
//! marker kinds that tag the viewer's voxel entities.

use vstd::prelude::*;

use crate::text::{rfind_char, rfind_char_exec, string_from_chars, sub_chars};

verus! {

/// The glTF scene that was voxelized, as given on the command line.
pub struct OriginalSceneInfo {
    pub scene_path: String,
}

/// Marks the parent entity of all edge voxels.
pub struct VoxelEdgeParentMarker;

/// Marks the parent entity of all inside voxels.
pub struct VoxelInsideMeshParentMarker;

/// Marks every voxel entity.
pub struct VoxelMarker;

/// Marks an edge voxel entity.
pub struct VoxelEdgeMarker;

/// Marks an inside voxel entity.
pub struct VoxelInsideMeshMarker;

pub open spec fn is_digit(c: char) -> bool {
    '0' <= c <= '9'
}

pub open spec fn all_digits(d: Seq<char>) -> bool {
    forall|i: int| 0 <= i < d.len() ==> is_digit(#[trigger] d[i])
}

/// The value of a string of decimal digits.
pub open spec fn decimal_value(s: Seq<char>) -> int
    decreases s.len(),
{
    if s.len() == 0 {
        0
    } else {
        decimal_value(s.drop_last()) * 10 + ((s.last() as u32) - ('0' as u32))
    }
}

/// What `usize::from_str` accepts: an optional '+' followed by at least one decimal
/// digit and nothing else, with a value that fits in `usize`.
pub open spec fn parsed_usize(s: Seq<char>) -> Option<int> {
    let d = if s.len() > 0 && s[0] == '+' {
        s.drop_first()
    } else {
        s
    };
    if d.len() > 0 && all_digits(d) && decimal_value(d) <= usize::MAX {
        Some(decimal_value(d))
    } else {
        None
    }
}

/// A string of decimal digits has a value no smaller than any of its prefixes'.
proof fn lemma_decimal_value_prefix(d: Seq<char>, k: int)
    requires
        0 <= k <= d.len(),
        forall|i: int| 0 <= i < d.len() ==> is_digit(#[trigger] d[i]),
    ensures
        0 <= decimal_value(d.subrange(0, k)) <= decimal_value(d),
    decreases d.len(),
{
    if d.len() > 0 {
        let e = d.drop_last();
        if k == d.len() {
            assert(d.subrange(0, k) =~= d);
            lemma_decimal_value_prefix(e, e.len() as int);
            assert(e.subrange(0, e.len() as int) =~= e);
        } else {
            lemma_decimal_value_prefix(e, k);
            assert(e.subrange(0, k) =~= d.subrange(0, k));
            lemma_decimal_value_prefix(e, e.len() as int);
            assert(e.subrange(0, e.len() as int) =~= e);
        }
    } else {
        assert(d.subrange(0, k) =~= d);
    }
}

/// The value that `usize::from_str` gives for `s`: an optional '+' followed by at least
/// one decimal digit, with overflow an error.
fn parse_usize(s: &[char]) -> (r: Option<usize>)
    ensures
        match parsed_usize(s@) {
            Some(v) => r matches Some(x) && x == v,
            None => r is None,
        },
{
    let n = s.len();
    let start: usize = if n > 0 && s[0] == '+' {
        1
    } else {
        0
    };
    let ghost d = if n > 0 && s@[0] == '+' {
        s@.drop_first()
    } else {
        s@
    };
    assert(d =~= s@.subrange(start as int, n as int));
    if start == n {
        return None;
    }
    let mut value: usize = 0;
    let mut i: usize = start;
    while i < n
        invariant
            start <= i <= n == s@.len(),
            d == s@.subrange(start as int, n as int),
            d == if n > 0 && s@[0] == '+' {
                s@.drop_first()
            } else {
                s@
            },
            d.len() > 0,
            forall|j: int| 0 <= j < i - start ==> is_digit(#[trigger] d[j]),
            value == decimal_value(d.subrange(0, i - start)),
        decreases n - i,
    {
        let c = s[i];
        if !('0' <= c && c <= '9') {
            proof {
                assert(d[i - start] == c);
                assert(!is_digit(d[i - start]));
                assert(!all_digits(d));
                assert(parsed_usize(s@) is None);
            }
            return None;
        }
        let digit = (c as u32 - '0' as u32) as usize;
        let ghost prefix = d.subrange(0, i - start + 1);
        assert(prefix.drop_last() =~= d.subrange(0, i - start));
        if value > (usize::MAX - digit) / 10 {
            proof {
                assert(decimal_value(prefix) > usize::MAX) by (nonlinear_arith)
                    requires
                        decimal_value(prefix) == value * 10 + digit,
                        value > (usize::MAX - digit) / 10,
                        0 <= digit <= 9,
                ;
                if all_digits(d) {
                    lemma_decimal_value_prefix(d, i - start + 1);
                    assert(decimal_value(d) > usize::MAX);
                }
                assert(parsed_usize(s@) is None);
            }
            return None;
        }
        proof {
            assert(value * 10 + digit <= usize::MAX) by (nonlinear_arith)
                requires
                    value <= (usize::MAX - digit) / 10,
                    0 <= digit <= 9,
            ;
        }
        value = value * 10 + digit;
        i = i + 1;
    }
    assert(d.subrange(0, n - start) =~= d);
    Some(value)
}

/// The path and scene index of "path#SceneN": the text after the last '#' names the
/// scene when it is "Scene" followed by an index; otherwise the whole text is the path
/// and the index is 0.
pub open spec fn scene_path_parts(s: Seq<char>) -> (Seq<char>, int) {
    let j = rfind_char(s, '#');
    if 0 <= j < s.len() {
        let tail = s.subrange(j + 1, s.len() as int);
        if tail.len() >= 5 && tail.subrange(0, 5) == seq!['S', 'c', 'e', 'n', 'e'] && parsed_usize(
            tail.subrange(5, tail.len() as int),
        ) is Some {
            (s.subrange(0, j), parsed_usize(tail.subrange(5, tail.len() as int))->0)
        } else {
            (s, 0)
        }
    } else {
        (s, 0)
    }
}

proof fn lemma_rfind_char_bounds(s: Seq<char>, c: char)
    ensures
        -1 <= rfind_char(s, c) < s.len(),
    decreases s.len(),
{
    if s.len() > 0 && s.last() != c {
        lemma_rfind_char_bounds(s.drop_last(), c);
    }
}

/// Splits "path#SceneN" into the path and the scene index N.
pub fn parse_scene_path(scene_path: &str) -> (r: (String, usize))
    ensures
        r.0@ == scene_path_parts(scene_path@).0,
        r.1 == scene_path_parts(scene_path@).1,
{
    let v = crate::text::chars_of(scene_path);
    let n = v.len();
    proof {
        lemma_rfind_char_bounds(v@, '#');
    }
    if let Some(j) = rfind_char_exec(v.as_slice(), '#') {
        let tail = sub_chars(v.as_slice(), j + 1, n);
        if tail.len() >= 5 && tail[0] == 'S' && tail[1] == 'c' && tail[2] == 'e' && tail[3] == 'n'
            && tail[4] == 'e' {
            proof {
                assert(tail@.subrange(0, 5) =~= seq!['S', 'c', 'e', 'n', 'e']);
            }
            let digits = sub_chars(tail.as_slice(), 5, tail.len());
            if let Some(index) = parse_usize(digits.as_slice()) {
                let path = string_from_chars(sub_chars(v.as_slice(), 0, j).as_slice());
                return (path, index);
            }
        } else {
            proof {
                if tail@.len() >= 5 {
                    assert(tail@.subrange(0, 5)[0] == tail@[0]);
                    assert(tail@.subrange(0, 5)[1] == tail@[1]);
                    assert(tail@.subrange(0, 5)[2] == tail@[2]);
                    assert(tail@.subrange(0, 5)[3] == tail@[3]);
                    assert(tail@.subrange(0, 5)[4] == tail@[4]);
                }
            }
        }
    }
    (string_from_chars(v.as_slice()), 0)
}

} // verus!
