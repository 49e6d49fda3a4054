//! String-level path helpers: the file-name component of a path, the base
//! name without its extension (which becomes a trait value), and the test
//! for a `.png` file name.
//!
//! Paths are plain strings in which `/` separates components.

use vstd::prelude::*;

verus! {

/// The largest index at which `c` occurs in `s`, or -1 when it does not.
pub open spec fn spec_last_index_of(s: Seq<char>, c: char) -> int
    decreases s.len(),
{
    if s.len() == 0 {
        -1
    } else if s.last() == c {
        s.len() - 1
    } else {
        spec_last_index_of(s.drop_last(), c)
    }
}

/// The part of a path after its last `/`: the whole path when there is
/// no separator, empty when the path ends with one.
pub open spec fn spec_file_name(s: Seq<char>) -> Seq<char> {
    s.skip(spec_last_index_of(s, '/') + 1)
}

/// A file name without its extension: everything before the last `.`,
/// unless that dot is the leading character or there is none.
pub open spec fn spec_stem(f: Seq<char>) -> Seq<char> {
    let d = spec_last_index_of(f, '.');
    if d <= 0 {
        f
    } else {
        f.take(d)
    }
}

/// The trait value a chosen path stands for: the stem of its file name,
/// or `Unknown` when the path has no file-name component.
pub open spec fn spec_trait_value(s: Seq<char>) -> Seq<char> {
    if spec_file_name(s).len() == 0 {
        "Unknown"@
    } else {
        spec_stem(spec_file_name(s))
    }
}

/// A file name that names a PNG image: it ends in `.png` in any letter
/// case, and the dot is not its leading character.
pub open spec fn spec_is_png(s: Seq<char>) -> bool {
    &&& s.len() >= 5
    &&& s[s.len() - 4] == '.'
    &&& (s[s.len() - 3] == 'p' || s[s.len() - 3] == 'P')
    &&& (s[s.len() - 2] == 'n' || s[s.len() - 2] == 'N')
    &&& (s[s.len() - 1] == 'g' || s[s.len() - 1] == 'G')
}

/// Finds the last occurrence of `c` in `s`, if any.
fn last_index_of(s: &str, c: char) -> (r: Option<usize>)
    ensures
        match r {
            Some(i) => i == spec_last_index_of(s@, c) && i < s@.len(),
            None => spec_last_index_of(s@, c) == -1,
        },
{
    let n: usize = s.unicode_len();
    let mut i: usize = n;
    proof {
        assert(s@.take(n as int) =~= s@);
    }
    while i > 0
        invariant
            i <= n,
            n == s@.len(),
            spec_last_index_of(s@, c) == spec_last_index_of(s@.take(i as int), c),
        decreases i,
    {
        let ch = s.get_char(i - 1);
        proof {
            assert(s@.take(i as int).last() == s@[i - 1]);
            assert(s@.take(i as int).drop_last() =~= s@.take(i - 1));
        }
        if ch == c {
            return Some(i - 1);
        }
        i = i - 1;
    }
    proof {
        assert(s@.take(0).len() == 0);
    }
    None
}

/// The file-name component of a path string.
pub fn file_name_of(path: &str) -> (r: String)
    ensures
        r@ == spec_file_name(path@),
{
    let n: usize = path.unicode_len();
    let start: usize = match last_index_of(path, '/') {
        Some(i) => i + 1,
        None => 0,
    };
    let part = path.substring_char(start, n);
    proof {
        assert(part@ =~= path@.skip(start as int));
    }
    part.to_owned()
}

/// The trait value derived from a chosen path: the file name's stem, or
/// `Unknown` when the path ends in a separator.
pub fn trait_value_of(path: &str) -> (r: String)
    ensures
        r@ == spec_trait_value(path@),
{
    let name = file_name_of(path);
    let len: usize = name.as_str().unicode_len();
    if len == 0 {
        return String::from_str("Unknown");
    }
    match last_index_of(name.as_str(), '.') {
        Some(d) if d > 0 => {
            let stem = name.as_str().substring_char(0, d);
            proof {
                assert(stem@ =~= name@.take(d as int));
            }
            stem.to_owned()
        },
        _ => name,
    }
}

/// Whether a file name names a PNG image (extension `.png`, any case).
pub fn is_png_file_name(name: &str) -> (r: bool)
    ensures
        r == spec_is_png(name@),
{
    let n: usize = name.unicode_len();
    if n < 5 {
        return false;
    }
    let dot = name.get_char(n - 4);
    let p = name.get_char(n - 3);
    let g1 = name.get_char(n - 2);
    let g2 = name.get_char(n - 1);
    dot == '.' && (p == 'p' || p == 'P') && (g1 == 'n' || g1 == 'N') && (g2 == 'g' || g2 == 'G')
}

} // verus!
