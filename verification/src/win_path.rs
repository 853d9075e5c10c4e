//! File-name extraction with the semantics of Windows paths.
//!
//! A path is read as an optional prefix (a drive such as `C:`, a UNC share
//! `\\server\share`, a device `\\.\name` or a verbatim `\\?\...` prefix)
//! followed by components separated by `\` or `/` (only `\` in verbatim paths).
//! The file name is the last component, provided it is a normal one.
use vstd::prelude::*;
use vstd::string::*;

verus! {

/// Whether `c` separates path components; verbatim (`\\?\`) paths only use `\`.
pub open spec fn is_separator(c: char, verbatim: bool) -> bool {
    c == '\\' || (!verbatim && c == '/')
}

/// Whether `c` counts as a separator while the prefix is recognised.
pub open spec fn is_prefix_separator(c: char) -> bool {
    c == '\\' || c == '/'
}

/// Whether `c` is an ASCII letter, as a drive letter must be.
pub open spec fn is_ascii_letter(c: char) -> bool {
    ('a' <= c && c <= 'z') || ('A' <= c && c <= 'Z')
}

/// Index of the first separator at or after `from`, or the length when there is none.
pub open spec fn next_separator(s: Seq<char>, from: int, verbatim: bool) -> int
    decreases s.len() - from,
{
    if from >= s.len() {
        s.len() as int
    } else if is_separator(s[from], verbatim) {
        from
    } else {
        next_separator(s, from + 1, verbatim)
    }
}

/// The end of the prefix of `s` and whether `s` is a verbatim path.
/// A prefix that is absent ends at 0.
pub open spec fn windows_prefix(s: Seq<char>) -> (int, bool) {
    if s.len() >= 2 && is_prefix_separator(s[0]) && is_prefix_separator(s[1]) {
        if s.len() >= 4 && s[0] == '\\' && s[1] == '\\' && s[2] == '?' && s[3] == '\\' {
            if s.len() >= 8 && s[4] == 'U' && s[5] == 'N' && s[6] == 'C' && is_prefix_separator(
                s[7],
            ) {
                let server_end = next_separator(s, 8, true);
                if server_end < s.len() {
                    (next_separator(s, server_end + 1, true), true)
                } else {
                    (server_end, true)
                }
            } else {
                (next_separator(s, 4, true), true)
            }
        } else if s.len() >= 4 && s[2] == '.' && is_prefix_separator(s[3]) {
            (next_separator(s, 4, false), false)
        } else {
            let server_end = next_separator(s, 2, false);
            if server_end < s.len() {
                let share_end = next_separator(s, server_end + 1, false);
                if server_end > 2 && share_end > server_end + 1 {
                    (share_end, false)
                } else {
                    (0, false)
                }
            } else {
                (0, false)
            }
        }
    } else if s.len() >= 2 && s[1] == ':' && is_ascii_letter(s[0]) {
        (2, false)
    } else {
        (0, false)
    }
}

/// Index of the last separator in `s[lo..end]`, or `lo - 1` when there is none.
pub open spec fn last_separator(s: Seq<char>, lo: int, end: int, verbatim: bool) -> int
    decreases end - lo,
{
    if end <= lo {
        lo - 1
    } else if is_separator(s[end - 1], verbatim) {
        end - 1
    } else {
        last_separator(s, lo, end - 1, verbatim)
    }
}

/// Whether a component is `.`.
pub open spec fn is_current_dir(seg: Seq<char>) -> bool {
    seg.len() == 1 && seg[0] == '.'
}

/// Whether a component is `..`.
pub open spec fn is_parent_dir(seg: Seq<char>) -> bool {
    seg.len() == 2 && seg[0] == '.' && seg[1] == '.'
}

/// The last component of `s[lo..end]` when it is a normal one. Empty components
/// are skipped, and so are `.` components outside verbatim paths.
pub open spec fn last_component(s: Seq<char>, lo: int, end: int, verbatim: bool) -> Option<
    Seq<char>,
>
    decreases end - lo,
{
    if end <= lo {
        None
    } else {
        let j = last_separator(s, lo, end, verbatim);
        proof {
            lemma_last_separator_range(s, lo, end, verbatim);
        }
        let seg = s.subrange(j + 1, end);
        if seg.len() == 0 || (!verbatim && is_current_dir(seg)) {
            if j < lo {
                None
            } else {
                last_component(s, lo, j, verbatim)
            }
        } else if is_current_dir(seg) || is_parent_dir(seg) {
            None
        } else {
            Some(seg)
        }
    }
}

/// The file name of a Windows path: its last component, when that is a normal one.
pub open spec fn windows_file_name(s: Seq<char>) -> Option<Seq<char>> {
    last_component(s, windows_prefix(s).0, s.len() as int, windows_prefix(s).1)
}

/// `last_separator` stays within `[lo - 1, end - 1]` and, past it, no separator occurs.
pub proof fn lemma_last_separator_range(s: Seq<char>, lo: int, end: int, verbatim: bool)
    requires
        lo <= end,
    ensures
        lo - 1 <= last_separator(s, lo, end, verbatim) < end,
        end > lo ==> lo - 1 <= last_separator(s, lo, end, verbatim) <= end - 1,
    decreases end - lo,
{
    if end > lo && !is_separator(s[end - 1], verbatim) {
        lemma_last_separator_range(s, lo, end - 1, verbatim);
    }
}

/// `next_separator` stays within `[from, len]`.
pub proof fn lemma_next_separator_range(s: Seq<char>, from: int, verbatim: bool)
    requires
        0 <= from <= s.len(),
    ensures
        from <= next_separator(s, from, verbatim) <= s.len(),
        next_separator(s, from, verbatim) < s.len() ==> is_separator(
            s[next_separator(s, from, verbatim)],
            verbatim,
        ),
    decreases s.len() - from,
{
    if from < s.len() && !is_separator(s[from], verbatim) {
        lemma_next_separator_range(s, from + 1, verbatim);
    }
}

/// The prefix ends within the path.
pub proof fn lemma_windows_prefix_range(s: Seq<char>)
    ensures
        0 <= windows_prefix(s).0 <= s.len(),
{
    if s.len() >= 4 {
        lemma_next_separator_range(s, 4, true);
        lemma_next_separator_range(s, 4, false);
    }
    if s.len() >= 8 {
        lemma_next_separator_range(s, 8, true);
        let server_end = next_separator(s, 8, true);
        if server_end < s.len() {
            lemma_next_separator_range(s, server_end + 1, true);
        }
    }
    if s.len() >= 2 {
        lemma_next_separator_range(s, 2, false);
        let server_end = next_separator(s, 2, false);
        if server_end < s.len() {
            lemma_next_separator_range(s, server_end + 1, false);
        }
    }
}

/// No separator occurs after `last_separator` in `s[lo..end]`.
pub proof fn lemma_after_last_separator(s: Seq<char>, lo: int, end: int, verbatim: bool)
    requires
        0 <= lo <= end <= s.len(),
    ensures
        forall|k: int|
            last_separator(s, lo, end, verbatim) < k < end ==> !is_separator(
                #[trigger] s[k],
                verbatim,
            ),
    decreases end - lo,
{
    if end > lo && !is_separator(s[end - 1], verbatim) {
        lemma_after_last_separator(s, lo, end - 1, verbatim);
    }
}

/// A component found by `last_component` is a normal one: it is not empty, it
/// holds no separator, and it is neither `.` nor `..`.
pub proof fn lemma_last_component_is_normal(s: Seq<char>, lo: int, end: int, verbatim: bool)
    requires
        0 <= lo <= end <= s.len(),
    ensures
        last_component(s, lo, end, verbatim) matches Some(n) ==> {
            &&& n.len() > 0
            &&& forall|k: int| 0 <= k < n.len() ==> !is_separator(#[trigger] n[k], verbatim)
            &&& !is_current_dir(n)
            &&& !is_parent_dir(n)
        },
    decreases end - lo,
{
    if end > lo {
        let j = last_separator(s, lo, end, verbatim);
        lemma_last_separator_range(s, lo, end, verbatim);
        lemma_after_last_separator(s, lo, end, verbatim);
        let seg = s.subrange(j + 1, end);
        if seg.len() == 0 || (!verbatim && is_current_dir(seg)) {
            if j >= lo {
                lemma_last_component_is_normal(s, lo, j, verbatim);
            }
        } else if let Some(n) = last_component(s, lo, end, verbatim) {
            assert(n == seg);
            assert forall|k: int| 0 <= k < n.len() implies !is_separator(
                #[trigger] n[k],
                verbatim,
            ) by {
                assert(n[k] == s[j + 1 + k]);
            }
        }
    }
}

/// The file name of a path is never empty, never `.` or `..`, and holds no `\`.
pub proof fn lemma_file_name_is_normal(s: Seq<char>)
    ensures
        windows_file_name(s) matches Some(n) ==> {
            &&& n.len() > 0
            &&& forall|k: int| 0 <= k < n.len() ==> #[trigger] n[k] != '\\'
            &&& !is_current_dir(n)
            &&& !is_parent_dir(n)
        },
{
    lemma_windows_prefix_range(s);
    let (p, verbatim) = windows_prefix(s);
    lemma_last_component_is_normal(s, p, s.len() as int, verbatim);
    if let Some(n) = windows_file_name(s) {
        assert forall|k: int| 0 <= k < n.len() implies #[trigger] n[k] != '\\' by {
            assert(!is_separator(n[k], verbatim));
        }
    }
}

/// The last separator of `s[lo..end]` is the one at `j` when none follows it.
pub proof fn lemma_last_separator_at(s: Seq<char>, lo: int, end: int, verbatim: bool, j: int)
    requires
        lo <= j < end <= s.len(),
        is_separator(s[j], verbatim),
        forall|k: int| j < k < end ==> !is_separator(#[trigger] s[k], verbatim),
    ensures
        last_separator(s, lo, end, verbatim) == j,
    decreases end - lo,
{
    if end - 1 != j {
        lemma_last_separator_at(s, lo, end - 1, verbatim, j);
    }
}

/// The file name of a path whose last separator, past its prefix, is followed by
/// a normal name (not empty, without separators, neither `.` nor `..`) is that name.
pub proof fn lemma_file_name_after_last_separator(s: Seq<char>, j: int)
    requires
        windows_prefix(s).0 <= j < s.len(),
        is_separator(s[j], windows_prefix(s).1),
        s.len() > j + 1,
        forall|k: int| j < k < s.len() ==> !is_separator(#[trigger] s[k], windows_prefix(s).1),
        !is_current_dir(s.subrange(j + 1, s.len() as int)),
        !is_parent_dir(s.subrange(j + 1, s.len() as int)),
    ensures
        windows_file_name(s) == Some(s.subrange(j + 1, s.len() as int)),
{
    let (p, verbatim) = windows_prefix(s);
    lemma_last_separator_at(s, p, s.len() as int, verbatim, j);
}

/// `last_separator` of a range that holds no separator is `lo - 1`.
pub proof fn lemma_no_separator_in_range(s: Seq<char>, lo: int, end: int, verbatim: bool)
    requires
        0 <= lo <= end <= s.len(),
        forall|k: int| lo <= k < end ==> !is_separator(#[trigger] s[k], verbatim),
    ensures
        last_separator(s, lo, end, verbatim) == lo - 1,
    decreases end - lo,
{
    if end > lo {
        lemma_no_separator_in_range(s, lo, end - 1, verbatim);
    }
}

/// A path that does not begin with `\` or `/` has no prefix but, when it begins
/// with a drive letter and `:`, that drive; such a path is never verbatim.
pub proof fn lemma_prefix_of_rootless_path(s: Seq<char>)
    requires
        s.len() >= 1,
        s[0] != '\\',
        s[0] != '/',
    ensures
        windows_prefix(s).1 == false,
        s.len() >= 2 && s[1] == ':' && (('a' <= s[0] && s[0] <= 'z') || ('A' <= s[0] && s[0]
            <= 'Z')) ==> windows_prefix(s).0 == 2,
        !(s.len() >= 2 && s[1] == ':' && (('a' <= s[0] && s[0] <= 'z') || ('A' <= s[0] && s[0]
            <= 'Z'))) ==> windows_prefix(s).0 == 0,
{
}

/// Only `\` and `/` separate the components of a path that does not begin with
/// a separator (a relative path, or one on a drive such as `C:\`): whatever its
/// last `\` or `/` is followed by (spaces and any other characters included) is
/// the file name, unless it is empty, `.` or `..`.
pub proof fn lemma_name_after_last_slash(s: Seq<char>, j: int)
    requires
        0 <= j < s.len() - 1,
        s[0] != '\\',
        s[0] != '/',
        s[j] == '\\' || s[j] == '/',
        forall|k: int| j < k < s.len() ==> #[trigger] s[k] != '\\' && s[k] != '/',
        !(s.len() == j + 2 && s[j + 1] == '.'),
        !(s.len() == j + 3 && s[j + 1] == '.' && s[j + 2] == '.'),
    ensures
        windows_file_name(s) == Some(s.subrange(j + 1, s.len() as int)),
{
    lemma_prefix_of_rootless_path(s);
    let tail = s.subrange(j + 1, s.len() as int);
    assert(!is_current_dir(tail)) by {
        if tail.len() == 1 {
            assert(tail[0] == s[j + 1]);
        }
    }
    assert(!is_parent_dir(tail)) by {
        if tail.len() == 2 {
            assert(tail[0] == s[j + 1]);
            assert(tail[1] == s[j + 2]);
        }
    }
    assert forall|k: int| j < k < s.len() implies !is_separator(#[trigger] s[k], false) by {}
    lemma_file_name_after_last_separator(s, j);
}

/// The file name of a path on a drive, `X:\NAME` or `X:/NAME` with `X` an ASCII
/// letter, is `NAME` when that is a normal name without separators: the prefix of
/// such a path is the drive alone.
pub proof fn lemma_name_at_drive_root(s: Seq<char>)
    requires
        s.len() >= 4,
        ('a' <= s[0] && s[0] <= 'z') || ('A' <= s[0] && s[0] <= 'Z'),
        s[1] == ':',
        s[2] == '\\' || s[2] == '/',
        forall|k: int| 2 < k < s.len() ==> #[trigger] s[k] != '\\' && s[k] != '/',
        !(s.len() == 4 && s[3] == '.'),
        !(s.len() == 5 && s[3] == '.' && s[4] == '.'),
    ensures
        windows_file_name(s) == Some(s.subrange(3, s.len() as int)),
{
    lemma_name_after_last_slash(s, 2);
}

/// A path without any `\` or `/` is its own file name, after the drive `X:`
/// when it begins with one, unless that name is empty, `.` or `..`.
pub proof fn lemma_name_without_slash(s: Seq<char>)
    requires
        forall|k: int| 0 <= k < s.len() ==> #[trigger] s[k] != '\\' && s[k] != '/',
    ensures
        ({
            let start: int = if s.len() >= 2 && s[1] == ':' && (('a' <= s[0] && s[0] <= 'z') || (
            'A' <= s[0] && s[0] <= 'Z')) {
                2
            } else {
                0
            };
            let name = s.subrange(start, s.len() as int);
            name.len() > 0 && !(name.len() == 1 && name[0] == '.') && !(name.len() == 2 && name[0]
                == '.' && name[1] == '.') ==> windows_file_name(s) == Some(name)
        }),
{
    if s.len() >= 1 {
        assert(s[0] != '\\' && s[0] != '/');
        lemma_prefix_of_rootless_path(s);
        let (p, verbatim) = windows_prefix(s);
        assert forall|k: int| p <= k < s.len() implies !is_separator(#[trigger] s[k], verbatim) by {
            assert(s[k] != '\\' && s[k] != '/');
        }
        lemma_no_separator_in_range(s, p, s.len() as int, verbatim);
    }
}

/// The next separator at or after `from` is the one at `q` when none comes between.
pub proof fn lemma_next_separator_at(s: Seq<char>, from: int, verbatim: bool, q: int)
    requires
        0 <= from <= q < s.len(),
        is_separator(s[q], verbatim),
        forall|k: int| from <= k < q ==> !is_separator(#[trigger] s[k], verbatim),
    ensures
        next_separator(s, from, verbatim) == q,
    decreases q - from,
{
    if from < q {
        lemma_next_separator_at(s, from + 1, verbatim, q);
    }
}

/// In a verbatim path `\\?\VOLUME\...` only `\` separates components (a `/`
/// belongs to the name): past the first `\` after the marker, whatever follows the
/// last `\` is the file name, unless it is empty, `.` or `..`.
pub proof fn lemma_name_in_verbatim_path(s: Seq<char>, q: int, j: int)
    requires
        4 <= q <= j < s.len() - 1,
        s[0] == '\\' && s[1] == '\\' && s[2] == '?' && s[3] == '\\',
        !(s.len() >= 8 && s[4] == 'U' && s[5] == 'N' && s[6] == 'C' && (s[7] == '\\' || s[7]
            == '/')),
        s[q] == '\\',
        forall|k: int| 4 <= k < q ==> #[trigger] s[k] != '\\',
        s[j] == '\\',
        forall|k: int| j < k < s.len() ==> #[trigger] s[k] != '\\',
        !(s.len() == j + 2 && s[j + 1] == '.'),
        !(s.len() == j + 3 && s[j + 1] == '.' && s[j + 2] == '.'),
    ensures
        windows_file_name(s) == Some(s.subrange(j + 1, s.len() as int)),
{
    assert forall|k: int| 4 <= k < q implies !is_separator(#[trigger] s[k], true) by {
        assert(s[k] != '\\');
    }
    lemma_next_separator_at(s, 4, true, q);
    assert(windows_prefix(s) == (q, true));
    let tail = s.subrange(j + 1, s.len() as int);
    assert(!is_current_dir(tail)) by {
        if tail.len() == 1 {
            assert(tail[0] == s[j + 1]);
        }
    }
    assert(!is_parent_dir(tail)) by {
        if tail.len() == 2 {
            assert(tail[0] == s[j + 1]);
            assert(tail[1] == s[j + 2]);
        }
    }
    assert forall|k: int| j < k < s.len() implies !is_separator(#[trigger] s[k], true) by {
        assert(s[k] != '\\');
    }
    lemma_file_name_after_last_separator(s, j);
}

/// In a share path `\\server\share\...`, with a server and a share that are not
/// empty, the prefix is the server and the share: past it, whatever follows the
/// last `\` or `/` is the file name, unless it is empty, `.` or `..`.
pub proof fn lemma_name_in_share_path(s: Seq<char>, a: int, b: int, j: int)
    requires
        2 < a,
        a + 1 < b <= j < s.len() - 1,
        s[0] == '\\' && s[1] == '\\',
        a > 3 || (s[2] != '?' && s[2] != '.'),
        s[a] == '\\' || s[a] == '/',
        s[b] == '\\' || s[b] == '/',
        forall|k: int| 2 <= k < b && k != a ==> #[trigger] s[k] != '\\' && s[k] != '/',
        s[j] == '\\' || s[j] == '/',
        forall|k: int| j < k < s.len() ==> #[trigger] s[k] != '\\' && s[k] != '/',
        !(s.len() == j + 2 && s[j + 1] == '.'),
        !(s.len() == j + 3 && s[j + 1] == '.' && s[j + 2] == '.'),
    ensures
        windows_file_name(s) == Some(s.subrange(j + 1, s.len() as int)),
{
    assert forall|k: int| 2 <= k < a implies !is_separator(#[trigger] s[k], false) by {
        assert(s[k] != '\\' && s[k] != '/');
    }
    lemma_next_separator_at(s, 2, false, a);
    assert forall|k: int| a + 1 <= k < b implies !is_separator(#[trigger] s[k], false) by {
        assert(s[k] != '\\' && s[k] != '/');
    }
    lemma_next_separator_at(s, a + 1, false, b);
    assert(windows_prefix(s) == (b, false));
    let tail = s.subrange(j + 1, s.len() as int);
    assert(!is_current_dir(tail)) by {
        if tail.len() == 1 {
            assert(tail[0] == s[j + 1]);
        }
    }
    assert(!is_parent_dir(tail)) by {
        if tail.len() == 2 {
            assert(tail[0] == s[j + 1]);
            assert(tail[1] == s[j + 2]);
        }
    }
    assert forall|k: int| j < k < s.len() implies !is_separator(#[trigger] s[k], false) by {
        assert(s[k] != '\\' && s[k] != '/');
    }
    lemma_file_name_after_last_separator(s, j);
}

fn is_separator_char(c: char, verbatim: bool) -> (r: bool)
    ensures
        r == is_separator(c, verbatim),
{
    c == '\\' || (!verbatim && c == '/')
}

fn is_prefix_separator_char(c: char) -> (r: bool)
    ensures
        r == is_prefix_separator(c),
{
    c == '\\' || c == '/'
}

fn is_ascii_letter_char(c: char) -> (r: bool)
    ensures
        r == is_ascii_letter(c),
{
    ('a' <= c && c <= 'z') || ('A' <= c && c <= 'Z')
}

/// The characters of `s`, in order.
pub fn chars_of(s: &str) -> (v: Vec<char>)
    ensures
        v@ == s@,
{
    let n = s.unicode_len();
    let mut v: Vec<char> = Vec::new();
    let mut i: usize = 0;
    while i < n
        invariant
            n == s@.len(),
            i <= n,
            v@ == s@.subrange(0, i as int),
        decreases n - i,
    {
        v.push(s.get_char(i));
        i = i + 1;
    }
    v
}

fn next_separator_index(v: &Vec<char>, from: usize, verbatim: bool) -> (r: usize)
    requires
        from <= v.len(),
    ensures
        r == next_separator(v@, from as int, verbatim),
        from <= r <= v.len(),
{
    let mut i = from;
    while i < v.len() && !is_separator_char(v[i], verbatim)
        invariant
            from <= i <= v.len(),
            next_separator(v@, i as int, verbatim) == next_separator(v@, from as int, verbatim),
        decreases v.len() - i,
    {
        i = i + 1;
    }
    i
}

fn prefix_of(v: &Vec<char>) -> (r: (usize, bool))
    ensures
        r.0 == windows_prefix(v@).0,
        r.1 == windows_prefix(v@).1,
        r.0 <= v.len(),
{
    proof {
        lemma_windows_prefix_range(v@);
    }
    let n = v.len();
    if n >= 2 && is_prefix_separator_char(v[0]) && is_prefix_separator_char(v[1]) {
        if n >= 4 && v[0] == '\\' && v[1] == '\\' && v[2] == '?' && v[3] == '\\' {
            if n >= 8 && v[4] == 'U' && v[5] == 'N' && v[6] == 'C' && is_prefix_separator_char(
                v[7],
            ) {
                let server_end = next_separator_index(v, 8, true);
                if server_end < n {
                    (next_separator_index(v, server_end + 1, true), true)
                } else {
                    (server_end, true)
                }
            } else {
                (next_separator_index(v, 4, true), true)
            }
        } else if n >= 4 && v[2] == '.' && is_prefix_separator_char(v[3]) {
            (next_separator_index(v, 4, false), false)
        } else {
            let server_end = next_separator_index(v, 2, false);
            if server_end < n {
                let share_end = next_separator_index(v, server_end + 1, false);
                if server_end > 2 && share_end > server_end + 1 {
                    (share_end, false)
                } else {
                    (0, false)
                }
            } else {
                (0, false)
            }
        }
    } else if n >= 2 && v[1] == ':' && is_ascii_letter_char(v[0]) {
        (2, false)
    } else {
        (0, false)
    }
}

/// Returns `last_separator + 1`, the start of the last segment of `v[lo..end]`.
fn segment_start(v: &Vec<char>, lo: usize, end: usize, verbatim: bool) -> (r: usize)
    requires
        lo <= end <= v.len(),
    ensures
        r == last_separator(v@, lo as int, end as int, verbatim) + 1,
        lo <= r <= end,
{
    let mut e = end;
    while e > lo && !is_separator_char(v[e - 1], verbatim)
        invariant
            lo <= e <= end,
            end <= v.len(),
            last_separator(v@, lo as int, e as int, verbatim) == last_separator(
                v@,
                lo as int,
                end as int,
                verbatim,
            ),
        decreases e - lo,
    {
        e = e - 1;
    }
    proof {
        lemma_last_separator_range(v@, lo as int, e as int, verbatim);
    }
    e
}

/// The bounds of the last component of `v[lo..end]`, when it is a normal one.
fn last_component_bounds(v: &Vec<char>, lo: usize, end: usize, verbatim: bool) -> (r: Option<
    (usize, usize),
>)
    requires
        lo <= end <= v.len(),
    ensures
        match r {
            Some((a, b)) => a <= b <= v.len() && last_component(
                v@,
                lo as int,
                end as int,
                verbatim,
            ) == Some(v@.subrange(a as int, b as int)),
            None => last_component(v@, lo as int, end as int, verbatim) is None,
        },
{
    let mut e = end;
    while e > lo
        invariant
            lo <= e <= end,
            end <= v.len(),
            last_component(v@, lo as int, e as int, verbatim) == last_component(
                v@,
                lo as int,
                end as int,
                verbatim,
            ),
        decreases e - lo,
    {
        let start = segment_start(v, lo, e, verbatim);
        let len = e - start;
        let ghost seg = v@.subrange(start as int, e as int);
        let is_dot = len == 1 && v[start] == '.';
        let is_dot_dot = len == 2 && v[start] == '.' && v[start + 1] == '.';
        assert(is_dot == is_current_dir(seg));
        assert(is_dot_dot == is_parent_dir(seg));
        if len == 0 || (!verbatim && is_dot) {
            if start == lo {
                return None;
            }
            e = start - 1;
        } else if is_dot || is_dot_dot {
            return None;
        } else {
            return Some((start, e));
        }
    }
    None
}

/// The file name of a Windows path, or `None` when its last component is not a
/// normal one (the path ends in `..`, or is a bare prefix or root).
pub fn file_name(path: &str) -> (r: Option<String>)
    ensures
        match r {
            Some(name) => windows_file_name(path@) == Some(name@),
            None => windows_file_name(path@) is None,
        },
{
    let v = chars_of(path);
    let (p, verbatim) = prefix_of(&v);
    match last_component_bounds(&v, p, v.len(), verbatim) {
        Some((a, b)) => Some(String::from_str(path.substring_char(a, b))),
        None => None,
    }
}

} // verus!
