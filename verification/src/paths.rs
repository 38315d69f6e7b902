//! Character-level path utilities.
//!
//! Input locations are carried as plain strings. A path's final segment
//! begins after its last `/`; the segment's extension begins after the last
//! `.` that follows that `/`. These conventions drive manifest discovery,
//! the script-bundle file filter, and output-path derivation.

use vstd::prelude::*;

verus! {

/// Index of the first character of the final path segment: one past the
/// last `/`, or `0` when the path holds no `/`.
pub open spec fn name_start(path: Seq<char>) -> int
    decreases path.len(),
{
    if path.len() == 0 {
        0
    } else if path.last() == '/' {
        path.len() as int
    } else {
        name_start(path.drop_last())
    }
}

/// Index one past the last `.` of the final path segment, or `None` when
/// that segment holds no `.`.
pub open spec fn ext_start(path: Seq<char>) -> Option<int>
    decreases path.len(),
{
    if path.len() == 0 {
        None
    } else if path.last() == '/' {
        None
    } else if path.last() == '.' {
        Some(path.len() as int)
    } else {
        ext_start(path.drop_last())
    }
}

/// The final path segment.
pub open spec fn file_name_of(path: Seq<char>) -> Seq<char> {
    path.skip(name_start(path))
}

/// The final segment's extension, without its `.`.
pub open spec fn extension_of(path: Seq<char>) -> Option<Seq<char>> {
    match ext_start(path) {
        Option::Some(i) => Option::Some(path.skip(i)),
        Option::None => Option::None,
    }
}

/// `path` with the final segment's extension replaced by `ext` (appended
/// when the segment has none).
pub open spec fn with_extension_of(path: Seq<char>, ext: Seq<char>) -> Seq<char> {
    match ext_start(path) {
        Option::Some(i) => path.take(i) + ext,
        Option::None => path + seq!['.'] + ext,
    }
}

/// The directory part of `path`: everything up to and including the last `/`.
pub open spec fn dir_of(path: Seq<char>) -> Seq<char> {
    path.take(name_start(path))
}

/// `path` made relative to the directory holding `root`; `path` unchanged
/// when it does not lie under that directory.
pub open spec fn relative_to(root: Seq<char>, path: Seq<char>) -> Seq<char> {
    if dir_of(root).is_prefix_of(path) {
        path.skip(name_start(root))
    } else {
        path
    }
}

/// Whether `s` ends with `suffix`.
pub open spec fn ends_with(s: Seq<char>, suffix: Seq<char>) -> bool {
    suffix.len() <= s.len() && s.skip(s.len() - suffix.len()) == suffix
}

proof fn lemma_name_start_at(path: Seq<char>, j: int)
    requires
        0 <= j < path.len(),
        path[j] == '/',
        forall|k: int| j < k < path.len() ==> path[k] != '/',
    ensures
        name_start(path) == j + 1,
    decreases path.len(),
{
    if j < path.len() - 1 {
        lemma_name_start_at(path.drop_last(), j);
    }
}

proof fn lemma_name_start_none(path: Seq<char>)
    requires
        forall|k: int| 0 <= k < path.len() ==> path[k] != '/',
    ensures
        name_start(path) == 0,
    decreases path.len(),
{
    if path.len() > 0 {
        lemma_name_start_none(path.drop_last());
    }
}

proof fn lemma_name_start_le_len(path: Seq<char>)
    ensures
        0 <= name_start(path) <= path.len(),
    decreases path.len(),
{
    if path.len() > 0 && path.last() != '/' {
        lemma_name_start_le_len(path.drop_last());
    }
}

proof fn lemma_ext_start_at(path: Seq<char>, j: int)
    requires
        0 <= j < path.len(),
        path[j] == '.',
        forall|k: int| j < k < path.len() ==> path[k] != '/' && path[k] != '.',
    ensures
        ext_start(path) == Some(j + 1),
    decreases path.len(),
{
    if j < path.len() - 1 {
        lemma_ext_start_at(path.drop_last(), j);
    }
}

proof fn lemma_ext_start_sep(path: Seq<char>, j: int)
    requires
        0 <= j < path.len(),
        path[j] == '/',
        forall|k: int| j < k < path.len() ==> path[k] != '/' && path[k] != '.',
    ensures
        ext_start(path) is None,
    decreases path.len(),
{
    if j < path.len() - 1 {
        lemma_ext_start_sep(path.drop_last(), j);
    }
}

proof fn lemma_ext_start_none(path: Seq<char>)
    requires
        forall|k: int| 0 <= k < path.len() ==> path[k] != '/' && path[k] != '.',
    ensures
        ext_start(path) is None,
    decreases path.len(),
{
    if path.len() > 0 {
        lemma_ext_start_none(path.drop_last());
    }
}

proof fn lemma_ext_start_bounds(path: Seq<char>)
    ensures
        match ext_start(path) {
            Option::Some(i) => 1 <= i <= path.len() && name_start(path) <= i,
            Option::None => true,
        },
    decreases path.len(),
{
    lemma_name_start_le_len(path);
    if path.len() > 0 && path.last() != '/' && path.last() != '.' {
        lemma_ext_start_bounds(path.drop_last());
        if ext_start(path.drop_last()) is Some {
            assert(name_start(path) == name_start(path.drop_last()));
        }
    }
}

/// Index of the first character of the final segment, found by a backward
/// scan for `/`.
pub fn find_name_start(path: &str) -> (r: usize)
    ensures
        r == name_start(path@),
        r <= path@.len(),
{
    let n = path.unicode_len();
    let mut i: usize = n;
    while i > 0
        invariant
            i <= n,
            n == path@.len(),
            forall|k: int| i <= k < n ==> path@[k] != '/',
        decreases i,
    {
        if path.get_char(i - 1) == '/' {
            proof {
                lemma_name_start_at(path@, i - 1);
            }
            return i;
        }
        i = i - 1;
    }
    proof {
        lemma_name_start_none(path@);
    }
    0
}

/// Index one past the final segment's last `.`, found by a backward scan
/// that stops at `/`.
pub fn find_ext_start(path: &str) -> (r: Option<usize>)
    ensures
        match r {
            Option::Some(i) => ext_start(path@) == Some(i as int) && 1 <= i <= path@.len(),
            Option::None => ext_start(path@) is None,
        },
{
    let n = path.unicode_len();
    let mut i: usize = n;
    while i > 0
        invariant
            i <= n,
            n == path@.len(),
            forall|k: int| i <= k < n ==> path@[k] != '/' && path@[k] != '.',
        decreases i,
    {
        let c = path.get_char(i - 1);
        if c == '/' {
            proof {
                lemma_ext_start_sep(path@, i - 1);
            }
            return None;
        }
        if c == '.' {
            proof {
                lemma_ext_start_at(path@, i - 1);
            }
            return Some(i);
        }
        i = i - 1;
    }
    proof {
        lemma_ext_start_none(path@);
    }
    None
}

/// The final path segment, as a fresh string.
pub fn file_name(path: &str) -> (r: String)
    ensures
        r@ == file_name_of(path@),
{
    let n = path.unicode_len();
    let start = find_name_start(path);
    let sub = path.substring_char(start, n);
    sub.to_owned()
}

/// The final segment's extension, without its `.`.
pub fn extension(path: &str) -> (r: Option<String>)
    ensures
        match r {
            Option::Some(e) => extension_of(path@) == Some(e@),
            Option::None => extension_of(path@) is None,
        },
{
    let n = path.unicode_len();
    match find_ext_start(path) {
        Option::Some(i) => {
            let sub = path.substring_char(i, n);
            Some(sub.to_owned())
        },
        Option::None => None,
    }
}

/// `path` with the final segment's extension replaced by `ext`.
pub fn with_extension(path: &str, ext: &str) -> (r: String)
    ensures
        r@ == with_extension_of(path@, ext@),
{
    let n = path.unicode_len();
    match find_ext_start(path) {
        Option::Some(i) => {
            let stem = path.substring_char(0, i);
            let mut out = stem.to_owned();
            out.append(ext);
            assert(out@ =~= with_extension_of(path@, ext@));
            out
        },
        Option::None => {
            let mut out = path.to_owned();
            out.append(".");
            out.append(ext);
            proof {
                reveal_strlit(".");
            }
            assert(out@ =~= with_extension_of(path@, ext@));
            out
        },
    }
}

/// Whether `s` ends with `suffix`, compared character by character.
pub fn str_ends_with(s: &str, suffix: &str) -> (r: bool)
    ensures
        r == ends_with(s@, suffix@),
{
    let n = s.unicode_len();
    let m = suffix.unicode_len();
    if m > n {
        return false;
    }
    let mut i: usize = 0;
    while i < m
        invariant
            i <= m <= n,
            n == s@.len(),
            m == suffix@.len(),
            forall|k: int| 0 <= k < i ==> s@[n - m + k] == suffix@[k],
        decreases m - i,
    {
        if s.get_char(n - m + i) != suffix.get_char(i) {
            assert(s@.skip(n - m)[i as int] != suffix@[i as int]);
            return false;
        }
        i = i + 1;
    }
    assert(s@.skip(n - m) =~= suffix@);
    true
}

/// Whether two strings hold the same characters.
pub fn str_eq(a: &str, b: &str) -> (r: bool)
    ensures
        r == (a@ == b@),
{
    let n = a.unicode_len();
    let m = b.unicode_len();
    if n != m {
        return false;
    }
    let mut i: usize = 0;
    while i < n
        invariant
            i <= n,
            n == a@.len() == b@.len(),
            forall|k: int| 0 <= k < i ==> a@[k] == b@[k],
        decreases n - i,
    {
        if a.get_char(i) != b.get_char(i) {
            return false;
        }
        i = i + 1;
    }
    assert(a@ =~= b@);
    true
}

/// `path` made relative to the directory holding `root`.
pub fn relative_path(root: &str, path: &str) -> (r: String)
    ensures
        r@ == relative_to(root@, path@),
{
    let d = find_name_start(root);
    let n = path.unicode_len();
    proof {
        lemma_name_start_le_len(root@);
    }
    if d > n {
        assert(!dir_of(root@).is_prefix_of(path@));
        return path.to_owned();
    }
    let mut i: usize = 0;
    while i < d
        invariant
            i <= d <= n,
            d == name_start(root@),
            d <= root@.len(),
            n == path@.len(),
            forall|k: int| 0 <= k < i ==> root@[k] == path@[k],
        decreases d - i,
    {
        if root.get_char(i) != path.get_char(i) {
            assert(dir_of(root@)[i as int] != path@.take(d as int)[i as int]);
            assert(!dir_of(root@).is_prefix_of(path@));
            return path.to_owned();
        }
        i = i + 1;
    }
    assert(dir_of(root@) =~= path@.take(d as int));
    assert(dir_of(root@).is_prefix_of(path@));
    let sub = path.substring_char(d, n);
    sub.to_owned()
}

} // verus!
