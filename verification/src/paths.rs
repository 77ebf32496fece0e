//! Windows paths as text: file names, extensions, joining and parent
//! folders, as `std::path` reads them on Windows. Separators are `\` and
//! `/`, but only `\` inside a verbatim path (`\\?\…`), where `.`
//! components are kept. The prefixes are a drive (`C:`), a UNC share
//! (`\\server\share`), a device (`\\.\name`) and the verbatim forms
//! (`\\?\C:`, `\\?\UNC\server\share`, `\\?\name`).
use vstd::prelude::*;

use crate::text::{append_text, chars_of, owned, push_char, same, string_of};

verus! {

/// A path separator on Windows.
pub open spec fn is_sep(c: char) -> bool {
    c == '\\' || c == '/'
}

/// A separator between the components of a path: only `\` in a verbatim
/// path (`v`).
pub open spec fn sep_in(v: bool, c: char) -> bool {
    if v {
        c == '\\'
    } else {
        is_sep(c)
    }
}

/// Where the last component of `p` starts: just after its last separator.
pub open spec fn name_start(v: bool, p: Seq<char>) -> int
    decreases p.len(),
{
    if p.len() == 0 {
        0
    } else if sep_in(v, p.last()) {
        p.len() as int
    } else {
        name_start(v, p.drop_last())
    }
}

/// The position of the last '.' in `s`.
pub open spec fn last_dot(s: Seq<char>) -> Option<int>
    decreases s.len(),
{
    if s.len() == 0 {
        None
    } else if s.last() == '.' {
        Some(s.len() - 1)
    } else {
        last_dot(s.drop_last())
    }
}

/// An ASCII letter.
pub open spec fn is_letter(c: char) -> bool {
    ('a' <= c && c <= 'z') || ('A' <= c && c <= 'Z')
}

/// A drive letter and ':' at the start of a path, such as `C:`.
pub open spec fn has_drive(p: Seq<char>) -> bool {
    p.len() >= 2 && p[1] == ':' && is_letter(p[0])
}

/// The first separator of `s` at or after `i`, or the end of `s`.
pub open spec fn sep_from(v: bool, s: Seq<char>, i: int) -> int
    decreases s.len() - i,
{
    if i < 0 || i >= s.len() {
        s.len() as int
    } else if sep_in(v, s[i]) {
        i
    } else {
        sep_from(v, s, i + 1)
    }
}

/// A verbatim path: it starts with `\\?\`, written with backslashes.
pub open spec fn is_verbatim(p: Seq<char>) -> bool {
    p.len() >= 4 && p[0] == '\\' && p[1] == '\\' && p[2] == '?' && p[3] == '\\'
}

/// A verbatim UNC path: `\\?\UNC\server\share`.
pub open spec fn verbatim_unc(p: Seq<char>) -> bool {
    is_verbatim(p) && p.len() >= 8 && p[4] == 'U' && p[5] == 'N' && p[6] == 'C' && is_sep(p[7])
}

/// A verbatim drive: `\\?\C:`, alone or followed by `\`.
pub open spec fn verbatim_disk(p: Seq<char>) -> bool {
    is_verbatim(p) && !verbatim_unc(p) && p.len() >= 6 && is_letter(p[4]) && p[5] == ':' && (p.len() == 6
        || p[6] == '\\')
}

/// The length of a verbatim prefix: `\\?\UNC\server`, with `\share` when
/// the share is not empty; `\\?\C:`; else `\\?\` and the first component.
pub open spec fn verbatim_len(p: Seq<char>) -> int {
    if verbatim_unc(p) {
        let a = sep_from(true, p, 8);
        if a < p.len() && sep_from(true, p, a + 1) > a + 1 {
            sep_from(true, p, a + 1)
        } else {
            a
        }
    } else if verbatim_disk(p) {
        6
    } else {
        sep_from(true, p, 4)
    }
}

/// A device path: `\\.\name`.
pub open spec fn is_device(p: Seq<char>) -> bool {
    !is_verbatim(p) && p.len() >= 4 && is_sep(p[0]) && is_sep(p[1]) && p[2] == '.' && is_sep(p[3])
}

/// The length of a UNC prefix `\\server\share` at the start of a path (both
/// names not empty), or 0.
pub open spec fn unc_len(p: Seq<char>) -> int {
    if p.len() >= 2 && is_sep(p[0]) && is_sep(p[1]) {
        let a = sep_from(false, p, 2);
        if 2 < a < p.len() {
            let b = sep_from(false, p, a + 1);
            if b > a + 1 {
                b
            } else {
                0
            }
        } else {
            0
        }
    } else {
        0
    }
}

/// The length of a path's prefix (`std::path::Prefix::len`): 2 for a drive
/// such as `C:`, that of a verbatim, device or UNC prefix, else 0.
#[verifier::opaque]
pub open spec fn prefix_len(p: Seq<char>) -> int {
    if has_drive(p) {
        2
    } else if is_verbatim(p) {
        verbatim_len(p)
    } else if is_device(p) {
        sep_from(false, p, 4)
    } else {
        unc_len(p)
    }
}

/// The length of a path's root: its prefix, and the separator that follows
/// it, if one does.
pub open spec fn root_len(p: Seq<char>) -> int {
    if p.len() > prefix_len(p) && is_sep(p[prefix_len(p)]) {
        prefix_len(p) + 1
    } else {
        prefix_len(p)
    }
}

/// `p` up to the end of its last component: without the separators it
/// ends with, nor, outside a verbatim path, the `.` components that follow
/// a separator there (`C:/a/b/.//` ends its last component after `b`).
pub open spec fn trim_in(v: bool, p: Seq<char>) -> Seq<char>
    decreases p.len(),
{
    if p.len() > 0 && (sep_in(v, p.last()) || (!v && p.len() >= 2 && p.last() == '.' && is_sep(
        p[p.len() - 2],
    ))) {
        trim_in(v, p.drop_last())
    } else {
        p
    }
}

/// A path up to the end of its last component.
pub open spec fn trim_tail(p: Seq<char>) -> Seq<char> {
    trim_in(is_verbatim(p), p)
}

/// Where the last component of a path starts: after the last separator
/// that `trim_tail` leaves, and never inside the path's root.
pub open spec fn folder_end(p: Seq<char>) -> int {
    let ns = name_start(is_verbatim(p), trim_tail(p));
    if ns < root_len(p) {
        root_len(p)
    } else {
        ns
    }
}

/// The last component of a path, as `Path::components` yields it last;
/// empty when nothing follows the root.
pub open spec fn last_component(p: Seq<char>) -> Seq<char> {
    if folder_end(p) <= trim_tail(p).len() {
        trim_tail(p).skip(folder_end(p))
    } else {
        seq![]
    }
}

/// The file name of a path (`Path::file_name` on Windows): its last
/// component, unless that is empty (a root or a drive), `.` or `..`.
pub open spec fn file_name(p: Seq<char>) -> Option<Seq<char>> {
    let name = last_component(p);
    if name.len() == 0 || name == "."@ || name == ".."@ {
        None
    } else {
        Some(name)
    }
}

/// A file name up to its last '.', unless that '.' starts the name.
pub open spec fn file_stem(name: Seq<char>) -> Seq<char> {
    match last_dot(name) {
        Some(d) => if d > 0 {
            name.take(d)
        } else {
            name
        },
        None => name,
    }
}

/// What follows the last '.' of a file name, unless that '.' starts it.
pub open spec fn name_extension(name: Seq<char>) -> Option<Seq<char>> {
    match last_dot(name) {
        Some(d) => if d > 0 {
            Some(name.skip(d + 1))
        } else {
            None
        },
        None => None,
    }
}

/// The extension of the file a path names.
pub open spec fn path_extension(p: Seq<char>) -> Option<Seq<char>> {
    match file_name(p) {
        Some(name) => name_extension(name),
        None => None,
    }
}

/// A path with the extension of the file it names replaced by `ext`
/// (`PathBuf::set_extension`): the path is cut right after the file's stem
/// and `.ext` is put there, unless `ext` is empty; a path that names no
/// file is kept.
pub open spec fn with_extension(p: Seq<char>, ext: Seq<char>) -> Seq<char> {
    match file_name(p) {
        None => p,
        Some(name) => if ext.len() == 0 {
            p.take(folder_end(p)) + file_stem(name)
        } else {
            p.take(folder_end(p)) + file_stem(name) + seq!['.'] + ext
        },
    }
}

pub(crate) proof fn lemma_name_start_bounds(v: bool, p: Seq<char>)
    ensures
        0 <= name_start(v, p) <= p.len(),
        forall|j: int| name_start(v, p) <= j < p.len() ==> !sep_in(v, #[trigger] p[j]),
        name_start(v, p) > 0 ==> sep_in(v, p[name_start(v, p) - 1]),
    decreases p.len(),
{
    if p.len() > 0 && !sep_in(v, p.last()) {
        lemma_name_start_bounds(v, p.drop_last());
        assert forall|j: int| name_start(v, p) <= j < p.len() implies !sep_in(v, #[trigger] p[j]) by {
            if j < p.len() - 1 {
                assert(p[j] == p.drop_last()[j]);
            }
        }
        if name_start(v, p) > 0 {
            assert(p[name_start(v, p) - 1] == p.drop_last()[name_start(v, p) - 1]);
        }
    }
}

pub(crate) proof fn lemma_last_dot_bounds(s: Seq<char>)
    ensures
        last_dot(s) matches Some(d) ==> 0 <= d < s.len() && s[d] == '.',
    decreases s.len(),
{
    if s.len() > 0 && s.last() != '.' {
        lemma_last_dot_bounds(s.drop_last());
    }
}

pub(crate) proof fn lemma_trim_in(v: bool, p: Seq<char>)
    ensures
        trim_in(v, p).len() <= p.len(),
        trim_in(v, p) == p.take(trim_in(v, p).len() as int),
    decreases p.len(),
{
    if p.len() > 0 && (sep_in(v, p.last()) || (!v && p.len() >= 2 && p.last() == '.' && is_sep(
        p[p.len() - 2],
    ))) {
        lemma_trim_in(v, p.drop_last());
        assert(p.drop_last().take(trim_in(v, p).len() as int) =~= p.take(trim_in(v, p).len() as int));
    } else {
        assert(p.take(p.len() as int) =~= p);
    }
}

pub proof fn lemma_sep_from(v: bool, s: Seq<char>, i: int)
    requires
        0 <= i <= s.len(),
    ensures
        i <= sep_from(v, s, i) <= s.len(),
        sep_from(v, s, i) < s.len() ==> sep_in(v, s[sep_from(v, s, i)]),
        forall|j: int| i <= j < sep_from(v, s, i) ==> !sep_in(v, #[trigger] s[j]),
    decreases s.len() - i,
{
    if i < s.len() && !sep_in(v, s[i]) {
        lemma_sep_from(v, s, i + 1);
    }
}

proof fn lemma_sep_from_at(v: bool, s: Seq<char>, i: int, k: int)
    requires
        0 <= i <= k <= s.len(),
        k < s.len() ==> sep_in(v, s[k]),
        forall|j: int| i <= j < k ==> !sep_in(v, #[trigger] s[j]),
    ensures
        sep_from(v, s, i) == k,
    decreases k - i,
{
    if i < k {
        lemma_sep_from_at(v, s, i + 1, k);
    }
}

pub(crate) proof fn lemma_prefix_len(p: Seq<char>)
    ensures
        0 <= prefix_len(p) <= root_len(p) <= p.len(),
{
    reveal(prefix_len);
    if p.len() >= 2 {
        lemma_sep_from(false, p, 2);
    }
    if p.len() >= 4 {
        lemma_sep_from(false, p, 4);
        lemma_sep_from(true, p, 4);
    }
    if p.len() >= 8 {
        lemma_sep_from(true, p, 8);
        let a = sep_from(true, p, 8);
        if a < p.len() {
            lemma_sep_from(true, p, a + 1);
        }
    }
    let a = sep_from(false, p, 2);
    if p.len() >= 2 && 2 < a < p.len() {
        lemma_sep_from(false, p, a + 1);
    }
}

/// Where the last component of a path starts, and where it ends.
pub(crate) proof fn lemma_folder_bounds(p: Seq<char>)
    ensures
        0 <= root_len(p) <= folder_end(p) <= p.len(),
        trim_tail(p).len() <= p.len(),
        trim_tail(p) == p.take(trim_tail(p).len() as int),
        folder_end(p) <= trim_tail(p).len() ==> last_component(p) == p.subrange(
            folder_end(p),
            trim_tail(p).len() as int,
        ),
        file_name(p) is Some ==> folder_end(p) < trim_tail(p).len(),
{
    lemma_trim_in(is_verbatim(p), p);
    lemma_name_start_bounds(is_verbatim(p), trim_tail(p));
    lemma_prefix_len(p);
    if folder_end(p) <= trim_tail(p).len() {
        assert(last_component(p) =~= p.subrange(folder_end(p), trim_tail(p).len() as int));
    }
}

/// Whether `c` separates components (see `sep_in`).
fn is_sep_in(v: bool, c: char) -> (r: bool)
    ensures
        r == sep_in(v, c),
{
    c == '\\' || (!v && c == '/')
}

/// `name_start` of the first `n` characters.
pub(crate) fn name_start_upto(v: bool, p: &[char], n: usize) -> (r: usize)
    requires
        n <= p@.len(),
    ensures
        r == name_start(v, p@.take(n as int)),
{
    let mut i = n;
    while i > 0 && !is_sep_in(v, p[i - 1])
        invariant
            i <= n <= p@.len(),
            name_start(v, p@.take(n as int)) == name_start(v, p@.take(i as int)),
        decreases i,
    {
        assert(p@.take(i as int).drop_last() =~= p@.take(i - 1));
        i -= 1;
    }
    if i == 0 {
        assert(p@.take(0) =~= Seq::<char>::empty());
    }
    i
}

/// The length of `trim_in` of the first `n` characters.
pub(crate) fn trimmed_len(v: bool, p: &[char], n: usize) -> (r: usize)
    requires
        n <= p@.len(),
    ensures
        r <= n,
        r == trim_in(v, p@.take(n as int)).len(),
        trim_in(v, p@.take(n as int)) == p@.take(r as int),
{
    let mut i = n;
    while i > 0 && (is_sep_in(v, p[i - 1]) || (!v && i >= 2 && p[i - 1] == '.' && (p[i - 2] == '\\'
        || p[i - 2] == '/')))
        invariant
            i <= n <= p@.len(),
            trim_in(v, p@.take(n as int)) == trim_in(v, p@.take(i as int)),
        decreases i,
    {
        assert(p@.take(i as int).drop_last() =~= p@.take(i - 1));
        i -= 1;
    }
    i
}

/// The first separator of `p` at or after `i`, or its end.
fn find_sep_from(v: bool, p: &[char], i: usize) -> (r: usize)
    requires
        i <= p@.len(),
    ensures
        r == sep_from(v, p@, i as int),
{
    let mut k = i;
    while k < p.len() && !is_sep_in(v, p[k])
        invariant
            i <= k <= p@.len(),
            sep_from(v, p@, i as int) == sep_from(v, p@, k as int),
        decreases p.len() - k,
    {
        k += 1;
    }
    k
}

/// Whether `p` is a verbatim path.
pub(crate) fn verbatim_path(p: &[char]) -> (r: bool)
    ensures
        r == is_verbatim(p@),
{
    p.len() >= 4 && p[0] == '\\' && p[1] == '\\' && p[2] == '?' && p[3] == '\\'
}

fn letter(c: char) -> (r: bool)
    ensures
        r == is_letter(c),
{
    ('a' <= c && c <= 'z') || ('A' <= c && c <= 'Z')
}

/// The length of the path's prefix (see `prefix_len`).
pub(crate) fn prefix_length(p: &[char]) -> (r: usize)
    ensures
        r == prefix_len(p@),
{
    proof {
        lemma_prefix_len(p@);
        reveal(prefix_len);
    }
    let n = p.len();
    if n >= 2 && p[1] == ':' && letter(p[0]) {
        return 2;
    }
    if verbatim_path(p) {
        if n >= 8 && p[4] == 'U' && p[5] == 'N' && p[6] == 'C' && (p[7] == '\\' || p[7] == '/') {
            proof {
                lemma_sep_from(true, p@, 8);
            }
            let a = find_sep_from(true, p, 8);
            if a < n {
                let b = find_sep_from(true, p, a + 1);
                if b > a + 1 {
                    return b;
                }
            }
            return a;
        }
        if n >= 6 && letter(p[4]) && p[5] == ':' && (n == 6 || p[6] == '\\') {
            return 6;
        }
        return find_sep_from(true, p, 4);
    }
    if n >= 4 && (p[0] == '\\' || p[0] == '/') && (p[1] == '\\' || p[1] == '/') && p[2] == '.' && (p[3]
        == '\\' || p[3] == '/') {
        return find_sep_from(false, p, 4);
    }
    if n >= 2 && (p[0] == '\\' || p[0] == '/') && (p[1] == '\\' || p[1] == '/') {
        proof {
            lemma_sep_from(false, p@, 2);
        }
        let a = find_sep_from(false, p, 2);
        if 2 < a && a < n {
            let b = find_sep_from(false, p, a + 1);
            if b > a + 1 {
                return b;
            }
        }
    }
    0
}

/// The length of the path's root (see `root_len`).
pub(crate) fn root_length(p: &[char]) -> (r: usize)
    ensures
        r == root_len(p@),
{
    proof {
        lemma_prefix_len(p@);
    }
    let pl = prefix_length(p);
    if p.len() > pl && (p[pl] == '\\' || p[pl] == '/') {
        pl + 1
    } else {
        pl
    }
}

/// The first `n` characters.
pub(crate) fn take_chars(p: &[char], n: usize) -> (r: Vec<char>)
    requires
        n <= p@.len(),
    ensures
        r@ == p@.take(n as int),
{
    let mut out: Vec<char> = Vec::new();
    let mut i: usize = 0;
    while i < n
        invariant
            i <= n <= p@.len(),
            out@ == p@.take(i as int),
        decreases n - i,
    {
        out.push(p[i]);
        i += 1;
        assert(out@ =~= p@.take(i as int));
    }
    out
}

pub(crate) fn find_last_dot(s: &[char]) -> (r: Option<usize>)
    ensures
        match r {
            Some(d) => last_dot(s@) == Some(d as int),
            None => last_dot(s@) is None,
        },
{
    let mut i = s.len();
    assert(s@.take(i as int) =~= s@);
    while i > 0 && s[i - 1] != '.'
        invariant
            i <= s@.len(),
            last_dot(s@) == last_dot(s@.take(i as int)),
        decreases i,
    {
        assert(s@.take(i as int).drop_last() =~= s@.take(i - 1));
        i -= 1;
    }
    if i == 0 {
        assert(s@.take(0) =~= Seq::<char>::empty());
        None
    } else {
        Some(i - 1)
    }
}

/// The file name of a path, as `file_name` says, and where it starts.
pub(crate) fn split_file_name(p: &[char]) -> (r: (usize, Option<Vec<char>>))
    ensures
        r.0 == folder_end(p@),
        r.0 <= p@.len(),
        match r.1 {
            Some(n) => file_name(p@) == Some(n@),
            None => file_name(p@) is None,
        },
{
    assert(p@.take(p.len() as int) =~= p@);
    let v = verbatim_path(p);
    let te = trimmed_len(v, p, p.len());
    let ns = name_start_upto(v, p, te);
    let rl = root_length(p);
    let start = if ns < rl {
        rl
    } else {
        ns
    };
    proof {
        lemma_folder_bounds(p@);
    }
    if start >= te {
        return (start, None);
    }
    let mut name: Vec<char> = Vec::new();
    let mut i = start;
    while i < te
        invariant
            start <= i <= te <= p@.len(),
            name@ == p@.subrange(start as int, i as int),
        decreases te - i,
    {
        name.push(p[i]);
        i += 1;
        assert(name@ =~= p@.subrange(start as int, i as int));
    }
    let n = name.as_slice();
    if n.len() == 0 || same(n, ".") || same(n, "..") {
        (start, None)
    } else {
        (start, Some(name))
    }
}

/// The path with the extension of the file it names replaced by `ext`
/// (`PathBuf::set_extension`, with Windows separators).
pub fn set_extension(path: &str, ext: &str) -> (r: String)
    ensures
        r@ == with_extension(path@, ext@),
{
    let p = chars_of(path);
    let (start, name) = split_file_name(p.as_slice());
    match name {
        None => {
            owned(path)
        },
        Some(name) => {
            proof {
                lemma_last_dot_bounds(name@);
            }
            let mut out = take_chars(p.as_slice(), start);
            let stem_end = match find_last_dot(name.as_slice()) {
                Some(d) => if d > 0 {
                    d
                } else {
                    name.len()
                },
                None => name.len(),
            };
            let mut k: usize = 0;
            while k < stem_end
                invariant
                    k <= stem_end <= name@.len(),
                    out@ == p@.take(start as int) + name@.take(k as int),
                decreases stem_end - k,
            {
                out.push(name[k]);
                k += 1;
                assert(out@ =~= p@.take(start as int) + name@.take(k as int));
            }
            assert(name@.take(name@.len() as int) =~= name@);
            assert(file_stem(name@) =~= name@.take(stem_end as int));
            let mut r = string_of(out.as_slice());
            let ev = chars_of(ext);
            if ev.len() > 0 {
                push_char(&mut r, '.');
                append_text(&mut r, ext);
            }
            r
        },
    }
}


/// A drive with no path, such as `C:`.
pub open spec fn is_drive(p: Seq<char>) -> bool {
    p.len() == 2 && p[1] == ':' && (('a' <= p[0] && p[0] <= 'z') || ('A' <= p[0] && p[0] <= 'Z'))
}

/// The components of `s` from position `i` on: the pieces between its
/// separators, without the empty ones.
pub open spec fn parts_from(v: bool, s: Seq<char>, i: int) -> Seq<Seq<char>>
    decreases s.len() - i,
{
    if i < 0 || i >= s.len() {
        seq![]
    } else {
        proof {
            lemma_sep_from(v, s, i);
        }
        let k = sep_from(v, s, i);
        let first: Seq<Seq<char>> = if k > i {
            seq![s.subrange(i, k)]
        } else {
            seq![]
        };
        if k < s.len() {
            first + parts_from(v, s, k + 1)
        } else {
            first
        }
    }
}

/// One component of a pushed path applied to the components so far, as
/// `PathBuf::push` onto a verbatim path does: `..` removes a last normal
/// component (neither `.` nor `..`), `.` does nothing, any other is added.
pub open spec fn push_part(cs: Seq<Seq<char>>, x: Seq<char>) -> Seq<Seq<char>> {
    if x == ".."@ {
        if cs.len() > 0 && cs.last() != "."@ && cs.last() != ".."@ {
            cs.drop_last()
        } else {
            cs
        }
    } else if x == "."@ {
        cs
    } else {
        cs.push(x)
    }
}

/// The components `xs` applied one after another.
pub open spec fn push_parts(cs: Seq<Seq<char>>, xs: Seq<Seq<char>>) -> Seq<Seq<char>>
    decreases xs.len(),
{
    if xs.len() == 0 {
        cs
    } else {
        push_parts(push_part(cs, xs[0]), xs.drop_first())
    }
}

/// Components written with `\` between them.
pub open spec fn parts_text(cs: Seq<Seq<char>>) -> Seq<char>
    decreases cs.len(),
{
    if cs.len() == 0 {
        seq![]
    } else if cs.len() == 1 {
        cs[0]
    } else {
        parts_text(cs.drop_last()) + seq!['\\'] + cs.last()
    }
}

/// `PathBuf::push` of a name without a prefix onto a verbatim path: the
/// path is written anew from its components, the name's components applied
/// to them (a name with a root replaces them), each after a `\`.
pub open spec fn verbatim_joined(dir: Seq<char>, name: Seq<char>) -> Seq<char> {
    let rooted = name.len() > 0 && is_sep(name[0]);
    let root = rooted || root_len(dir) > prefix_len(dir);
    let base = if rooted {
        seq![]
    } else {
        parts_from(true, dir, root_len(dir))
    };
    let cs = push_parts(base, parts_from(false, name, 0));
    let pre = dir.take(prefix_len(dir));
    if cs.len() == 0 {
        if root {
            pre + seq!['\\']
        } else {
            pre
        }
    } else {
        pre + seq!['\\'] + parts_text(cs)
    }
}

/// `PathBuf::push` (`Path::join`) on Windows: a name with a prefix replaces
/// the folder; onto a verbatim folder the path is written anew; a name with
/// a root keeps only the folder's prefix; else a separator is put between
/// them unless the folder is empty, ends in one, or is a bare drive.
pub open spec fn joined(dir: Seq<char>, name: Seq<char>) -> Seq<char> {
    if prefix_len(name) > 0 {
        name
    } else if is_verbatim(dir) && name.len() > 0 {
        verbatim_joined(dir, name)
    } else if name.len() > 0 && is_sep(name[0]) {
        dir.take(prefix_len(dir)) + name
    } else if dir.len() == 0 || is_sep(dir.last()) || is_drive(dir) {
        dir + name
    } else {
        dir + seq!['\\'] + name
    }
}

/// The folder a path's last component is in (`Path::parent` on Windows):
/// the path before that component, without the separators and `.`
/// components it ends with, but never shorter than the root.
pub open spec fn parent_of(p: Seq<char>) -> Seq<char> {
    let s = trim_in(is_verbatim(p), p.take(folder_end(p)));
    if s.len() < root_len(p) {
        p.take(root_len(p))
    } else {
        s
    }
}

/// The name of the folder a path's file is in, if that folder has one.
pub open spec fn parent_name(p: Seq<char>) -> Option<Seq<char>> {
    file_name(parent_of(p))
}

/// The text of `parent_of`, for a path whose last component starts at `fe`.
pub(crate) fn parent_text(p: &[char], fe: usize) -> (r: Vec<char>)
    requires
        fe == folder_end(p@),
    ensures
        r@ == parent_of(p@),
{
    proof {
        lemma_folder_bounds(p@);
    }
    let v = verbatim_path(p);
    let sl = trimmed_len(v, p, fe);
    let rl = root_length(p);
    let n = if sl < rl {
        rl
    } else {
        sl
    };
    proof {
        assert(p@.take(fe as int).take(sl as int) =~= p@.take(sl as int));
    }
    take_chars(p, n)
}

/// The texts of character vectors.
pub open spec fn char_views(q: Seq<Vec<char>>) -> Seq<Seq<char>> {
    q.map_values(|x: Vec<char>| x@)
}

/// The characters of `s` from `i` to `k`.
fn sub_chars(s: &[char], i: usize, k: usize) -> (r: Vec<char>)
    requires
        i <= k <= s@.len(),
    ensures
        r@ == s@.subrange(i as int, k as int),
{
    let mut out: Vec<char> = Vec::new();
    let mut j = i;
    while j < k
        invariant
            i <= j <= k <= s@.len(),
            out@ == s@.subrange(i as int, j as int),
        decreases k - j,
    {
        out.push(s[j]);
        j += 1;
        assert(out@ =~= s@.subrange(i as int, j as int));
    }
    out
}

/// The components of `s` from `from` on (see `parts_from`).
fn split_parts(v: bool, s: &[char], from: usize) -> (r: Vec<Vec<char>>)
    requires
        from <= s@.len(),
    ensures
        char_views(r@) == parts_from(v, s@, from as int),
{
    let mut out: Vec<Vec<char>> = Vec::new();
    let mut i = from;
    assert(char_views(out@) =~= Seq::<Seq<char>>::empty());
    assert(parts_from(v, s@, from as int) =~= char_views(out@) + parts_from(v, s@, from as int));
    while i < s.len()
        invariant
            from <= i <= s@.len(),
            parts_from(v, s@, from as int) == char_views(out@) + parts_from(v, s@, i as int),
        decreases s.len() - i,
    {
        proof {
            lemma_sep_from(v, s@, i as int);
        }
        let k = find_sep_from(v, s, i);
        let ghost before = char_views(out@);
        let ghost rest = parts_from(v, s@, i as int);
        let ghost first: Seq<Seq<char>> = if k > i {
            seq![s@.subrange(i as int, k as int)]
        } else {
            seq![]
        };
        if k > i {
            let piece = sub_chars(s, i, k);
            out.push(piece);
        }
        assert(char_views(out@) =~= before + first);
        if k < s.len() {
            i = k + 1;
        } else {
            i = s.len();
        }
        proof {
            if k < s@.len() {
                assert(rest == first + parts_from(v, s@, i as int));
            } else {
                assert(rest == first);
                assert(parts_from(v, s@, i as int) =~= Seq::<Seq<char>>::empty());
            }
            assert(before + rest =~= (before + first) + parts_from(v, s@, i as int));
        }
    }
    assert(parts_from(v, s@, i as int) =~= Seq::<Seq<char>>::empty());
    assert(char_views(out@) + parts_from(v, s@, i as int) =~= char_views(out@));
    out
}

/// The components `xs` applied to `base` (see `push_parts`).
fn push_all(base: Vec<Vec<char>>, xs: &Vec<Vec<char>>) -> (r: Vec<Vec<char>>)
    ensures
        char_views(r@) == push_parts(char_views(base@), char_views(xs@)),
{
    let mut cur = base;
    let mut j: usize = 0;
    assert(char_views(xs@).skip(0) =~= char_views(xs@));
    while j < xs.len()
        invariant
            j <= xs@.len(),
            push_parts(char_views(base@), char_views(xs@)) == push_parts(
                char_views(cur@),
                char_views(xs@).skip(j as int),
            ),
        decreases xs.len() - j,
    {
        let ghost before = char_views(cur@);
        let x = xs[j].as_slice();
        assert(char_views(xs@)[j as int] == x@);
        if same(x, "..") {
            let n = cur.len();
            if n > 0 && !same(cur[n - 1].as_slice(), ".") && !same(cur[n - 1].as_slice(), "..") {
                cur.pop();
                assert(char_views(cur@) =~= before.drop_last());
            }
        } else if same(x, ".") {
        } else {
            let c = sub_chars(x, 0, x.len());
            assert(c@ =~= x@);
            cur.push(c);
            assert(char_views(cur@) =~= before.push(x@));
        }
        assert(char_views(cur@) == push_part(before, x@));
        assert(char_views(xs@).skip(j as int).drop_first() =~= char_views(xs@).skip(j + 1));
        j += 1;
    }
    assert(char_views(xs@).skip(j as int) =~= Seq::<Seq<char>>::empty());
    cur
}

/// `verbatim_joined`, for a verbatim folder.
fn join_verbatim(dir: &[char], name: &[char]) -> (r: Vec<char>)
    ensures
        r@ == verbatim_joined(dir@, name@),
{
    proof {
        lemma_prefix_len(dir@);
    }
    let pl = prefix_length(dir);
    let rl = root_length(dir);
    let rooted = name.len() > 0 && (name[0] == '\\' || name[0] == '/');
    let root = rooted || rl > pl;
    let base: Vec<Vec<char>> = if rooted {
        Vec::new()
    } else {
        split_parts(true, dir, rl)
    };
    assert(rooted ==> char_views(base@) =~= Seq::<Seq<char>>::empty());
    let steps = split_parts(false, name, 0);
    let cs = push_all(base, &steps);
    let ghost parts = char_views(cs@);
    let mut out = take_chars(dir, pl);
    if cs.len() == 0 {
        if root {
            out.push('\\');
        }
        return out;
    }
    out.push('\\');
    let ghost pre = dir@.take(pl as int) + seq!['\\'];
    let mut i: usize = 0;
    assert(parts.take(0) =~= Seq::<Seq<char>>::empty());
    assert(out@ =~= pre + parts_text(parts.take(0)));
    while i < cs.len()
        invariant
            i <= cs@.len(),
            parts == char_views(cs@),
            out@ == pre + parts_text(parts.take(i as int)),
        decreases cs.len() - i,
    {
        assert(parts[i as int] == cs[i as int]@);
        if i > 0 {
            out.push('\\');
        }
        let piece = cs[i].as_slice();
        let mut k: usize = 0;
        let ghost start = out@;
        while k < piece.len()
            invariant
                k <= piece@.len(),
                out@ == start + piece@.take(k as int),
            decreases piece.len() - k,
        {
            out.push(piece[k]);
            k += 1;
            assert(out@ =~= start + piece@.take(k as int));
        }
        assert(piece@.take(k as int) =~= piece@);
        proof {
            let t = parts.take(i + 1);
            assert(t.drop_last() =~= parts.take(i as int));
            assert(t.last() == parts[i as int]);
            if i == 0 {
                assert(parts_text(t) == t[0]);
                assert(parts_text(parts.take(0)) =~= Seq::<char>::empty());
            }
        }
        i += 1;
        assert(out@ =~= pre + parts_text(parts.take(i as int)));
    }
    assert(parts.take(i as int) =~= parts);
    out
}

/// Joins a folder and a name (`Path::join` on Windows, see `joined`).
pub fn join(dir: &str, name: &str) -> (r: String)
    ensures
        r@ == joined(dir@, name@),
{
    let d = chars_of(dir);
    let nm = chars_of(name);
    if prefix_length(nm.as_slice()) > 0 {
        return owned(name);
    }
    if verbatim_path(d.as_slice()) && nm.len() > 0 {
        let r = join_verbatim(d.as_slice(), nm.as_slice());
        return string_of(r.as_slice());
    }
    if nm.len() > 0 && (nm[0] == '\\' || nm[0] == '/') {
        proof {
            lemma_prefix_len(d@);
        }
        let pre = take_chars(d.as_slice(), prefix_length(d.as_slice()));
        let mut r = string_of(pre.as_slice());
        append_text(&mut r, name);
        return r;
    }
    let n = d.len();
    let bare = n == 0 || d[n - 1] == '\\' || d[n - 1] == '/' || (n == 2 && d[1] == ':' && letter(d[0]));
    let mut r = owned(dir);
    if !bare {
        push_char(&mut r, '\\');
    }
    append_text(&mut r, name);
    r
}

/// A path whose file name is replaced by `name` (`PathBuf::set_file_name`
/// on Windows: the file name is popped, leaving `parent_of`, and `name` is
/// joined to what is left); a path that names no file gets `name` joined
/// to it.
pub open spec fn with_file_name(p: Seq<char>, name: Seq<char>) -> Seq<char> {
    match file_name(p) {
        None => joined(p, name),
        Some(_) => joined(parent_of(p), name),
    }
}

/// The path with its file name replaced by `name` (see `with_file_name`).
pub fn set_file_name(path: &str, name: &str) -> (r: String)
    ensures
        r@ == with_file_name(path@, name@),
{
    let p = chars_of(path);
    let (start, f) = split_file_name(p.as_slice());
    match f {
        None => join(path, name),
        Some(_) => {
            let d = parent_text(p.as_slice(), start);
            let ds = string_of(d.as_slice());
            join(ds.as_str(), name)
        },
    }
}

/// No separator in `s`.
pub open spec fn no_sep(s: Seq<char>) -> bool {
    forall|j: int| 0 <= j < s.len() ==> !is_sep(#[trigger] s[j])
}

/// No '.' in `s`.
pub open spec fn no_dot(s: Seq<char>) -> bool {
    forall|j: int| 0 <= j < s.len() ==> #[trigger] s[j] != '.'
}

proof fn lemma_name_start_append(v: bool, a: Seq<char>, b: Seq<char>)
    requires
        forall|j: int| 0 <= j < b.len() ==> !sep_in(v, #[trigger] b[j]),
    ensures
        name_start(v, a + b) == name_start(v, a),
    decreases b.len(),
{
    if b.len() == 0 {
        assert(a + b =~= a);
    } else {
        assert((a + b).drop_last() =~= a + b.drop_last());
        assert((a + b).last() == b.last());
        assert(b.last() == b[b.len() - 1]);
        lemma_name_start_append(v, a, b.drop_last());
    }
}

proof fn lemma_name_start_of_folder(v: bool, p: Seq<char>)
    ensures
        name_start(v, p.take(name_start(v, p))) == name_start(v, p),
    decreases p.len(),
{
    lemma_name_start_bounds(v, p);
    if p.len() > 0 && !sep_in(v, p.last()) {
        lemma_name_start_of_folder(v, p.drop_last());
        lemma_name_start_bounds(v, p.drop_last());
        assert(p.drop_last().take(name_start(v, p)) =~= p.take(name_start(v, p)));
    } else if p.len() > 0 {
        assert(p.take(name_start(v, p)) =~= p);
    }
}

proof fn lemma_last_dot_append(a: Seq<char>, b: Seq<char>)
    requires
        no_dot(b),
    ensures
        last_dot(a + b) == last_dot(a),
    decreases b.len(),
{
    if b.len() == 0 {
        assert(a + b =~= a);
    } else {
        assert((a + b).drop_last() =~= a + b.drop_last());
        assert((a + b).last() == b.last());
        lemma_last_dot_append(a, b.drop_last());
    }
}

/// A path `q` that agrees with `p` below `m`, past `p`'s root, and has a
/// '.' at `m`, has the prefix and the root of `p`.
proof fn lemma_prefix_agree(p: Seq<char>, q: Seq<char>, fe: int, m: int)
    requires
        0 <= fe < m < q.len(),
        m <= p.len(),
        forall|i: int| 0 <= i < m ==> #[trigger] q[i] == p[i],
        q[m] == '.',
        root_len(p) <= fe,
        !sep_in(is_verbatim(p), p[fe]),
        !is_verbatim(p) ==> forall|i: int| fe <= i < q.len() ==> !is_sep(#[trigger] q[i]),
    ensures
        is_verbatim(q) == is_verbatim(p),
        prefix_len(q) == prefix_len(p),
        root_len(q) == root_len(p),
{
    reveal(prefix_len);
    lemma_prefix_len(p);
    lemma_prefix_len(q);
    let pl = prefix_len(p);
    if p.len() >= 4 {
        lemma_sep_from(true, p, 4);
        lemma_sep_from(false, p, 4);
    }
    if is_verbatim(p) {
        if verbatim_unc(p) {
            lemma_sep_from(true, p, 8);
        }
        assert(fe >= 4);
        assert(q[0] == p[0] && q[1] == p[1] && q[2] == p[2] && q[3] == p[3]);
    }
    if is_verbatim(q) {
        assert(m >= 4) by {
            if m < 4 {
                assert(q[m] == '.');
            }
        }
        assert(q[0] == p[0] && q[1] == p[1] && q[2] == p[2] && q[3] == p[3]);
    }
    assert(is_verbatim(q) == is_verbatim(p));
    if has_drive(p) {
        assert(q[0] == p[0] && q[1] == p[1]);
    } else if has_drive(q) {
        assert(m >= 2) by {
            if m < 2 {
                assert(q[m] == '.');
            }
        }
        assert(q[0] == p[0] && q[1] == p[1]);
    } else if is_verbatim(p) {
        if verbatim_unc(p) {
            let a = sep_from(true, p, 8);
            lemma_sep_from(true, p, 8);
            assert(a < p.len());
            assert(a < fe);
            assert(q[4] == p[4] && q[5] == p[5] && q[6] == p[6] && q[7] == p[7]);
            assert(verbatim_unc(q));
            assert(q[a] == p[a]);
            assert forall|j: int| 8 <= j < a implies !sep_in(true, #[trigger] q[j]) by {
                assert(q[j] == p[j]);
            }
            lemma_sep_from_at(true, q, 8, a);
            let b = sep_from(true, p, a + 1);
            lemma_sep_from(true, p, a + 1);
            if b > a + 1 {
                assert(b < p.len());
                assert(b < fe);
                assert(q[b] == p[b]);
                assert forall|j: int| a + 1 <= j < b implies !sep_in(true, #[trigger] q[j]) by {
                    assert(q[j] == p[j]);
                }
                lemma_sep_from_at(true, q, a + 1, b);
            } else {
                assert(a + 1 < p.len());
                assert(fe != a + 1);
                assert(q[a + 1] == p[a + 1]);
                lemma_sep_from_at(true, q, a + 1, a + 1);
            }
        } else if verbatim_disk(p) {
            assert(p.len() > 6);
            assert(fe >= 7);
            assert(q[4] == p[4] && q[5] == p[5] && q[6] == p[6]);
        } else {
            let c = sep_from(true, p, 4);
            assert(c < p.len());
            assert(c < fe);
            assert(q[c] == p[c]);
            if c >= 7 {
                assert(q[4] == p[4] && q[5] == p[5] && q[6] == p[6] && q[7] == p[7]);
            }
            if c >= 6 {
                assert(q[4] == p[4] && q[5] == p[5] && q[6] == p[6]);
            }
            assert forall|j: int| 4 <= j < c implies !sep_in(true, #[trigger] q[j]) by {
                assert(q[j] == p[j]);
            }
            lemma_sep_from_at(true, q, 4, c);
        }
    } else if is_device(p) {
        let c = sep_from(false, p, 4);
        assert(c < p.len());
        assert(c < fe);
        assert(q[0] == p[0] && q[1] == p[1] && q[2] == p[2] && q[3] == p[3]);
        assert(q[c] == p[c]);
        assert forall|j: int| 4 <= j < c implies !sep_in(false, #[trigger] q[j]) by {
            assert(q[j] == p[j]);
        }
        lemma_sep_from_at(false, q, 4, c);
    } else if is_device(q) {
        assert(fe >= 4) by {
            if fe < 4 {
                assert(!is_sep(q[3]));
            }
        }
        assert(q[0] == p[0] && q[1] == p[1] && q[2] == p[2] && q[3] == p[3]);
    } else if unc_len(p) > 0 {
        let a = sep_from(false, p, 2);
        let b = unc_len(p);
        lemma_sep_from(false, p, 2);
        lemma_sep_from(false, p, a + 1);
        assert(b < p.len());
        assert(b < fe);
        assert(q[0] == p[0] && q[1] == p[1]);
        assert(q[b] == p[b]);
        assert(q[a] == p[a]);
        assert forall|j: int| 2 <= j < a implies !sep_in(false, #[trigger] q[j]) by {
            assert(q[j] == p[j]);
        }
        assert forall|j: int| a + 1 <= j < b implies !sep_in(false, #[trigger] q[j]) by {
            assert(q[j] == p[j]);
        }
        lemma_sep_from_at(false, q, 2, a);
        lemma_sep_from_at(false, q, a + 1, b);
    } else if unc_len(q) > 0 {
        let a = sep_from(false, q, 2);
        lemma_sep_from(false, q, 2);
        lemma_sep_from(false, q, a + 1);
        assert(fe >= 2) by {
            if fe < 2 {
                assert(!is_sep(q[1]));
            }
        }
        assert(a < fe) by {
            if a >= fe {
                assert(!is_sep(q[a]));
            }
        }
        assert(q[0] == p[0] && q[1] == p[1]);
        assert(q[a] == p[a]);
        assert forall|j: int| 2 <= j < a implies !sep_in(false, #[trigger] p[j]) by {
            assert(q[j] == p[j]);
            assert(!sep_in(false, q[j]));
        }
        lemma_sep_from_at(false, p, 2, a);
        lemma_sep_from(false, p, a + 1);
        if a + 1 < fe {
            assert(q[a + 1] == p[a + 1]);
        }
        assert(!is_sep(p[a + 1]));
        assert(sep_from(false, p, a + 1) != a + 1);
    }
    assert(prefix_len(q) == pl);
    assert(pl < m);
    if pl < p.len() {
        assert(q[pl] == p[pl]);
    }
}

/// Replacing a file's extension keeps its folder and its stem: for a path
/// that names a file and an extension without '.' or separators, the new
/// path has the same folder part, names a file with the same stem, and that
/// file's extension is the one given.
pub proof fn law_extension_replaced_in_place(p: Seq<char>, ext: Seq<char>)
    requires
        file_name(p) is Some,
        ext.len() > 0,
        no_dot(ext),
        no_sep(ext),
    ensures
        folder_end(with_extension(p, ext)) == folder_end(p),
        with_extension(p, ext).take(folder_end(p)) == p.take(folder_end(p)),
        file_name(with_extension(p, ext)) matches Some(n) && file_stem(n) == file_stem(file_name(p)->0)
            && name_extension(n) == Some(ext),
{
    let v = is_verbatim(p);
    let fe = folder_end(p);
    let t = trim_tail(p);
    let name = file_name(p)->0;
    let stem = file_stem(name);
    lemma_folder_bounds(p);
    lemma_name_start_bounds(v, t);
    lemma_last_dot_bounds(name);
    let folder = p.take(fe);
    let tail = stem + seq!['.'] + ext;
    let q = with_extension(p, ext);
    assert(q =~= folder + tail);
    assert(folder =~= t.take(fe));
    assert(name =~= t.skip(fe));
    // The name has no separator, so neither has its stem.
    assert forall|j: int| 0 <= j < tail.len() implies !sep_in(v, #[trigger] tail[j]) by {
        if j < stem.len() {
            assert(tail[j] == stem[j]);
            assert(stem[j] == name[j]);
            assert(name[j] == t[fe + j]);
        } else if j == stem.len() {
            assert(tail[j] == '.');
        } else {
            assert(tail[j] == ext[j - stem.len() - 1]);
        }
    }
    // The stem is not empty: the name is not, and a '.' at its start keeps
    // the whole name.
    assert(stem.len() > 0);
    // The new path agrees with the old one up to the end of the stem, has
    // a '.' there, and no separator after its folder part.
    let m = fe + stem.len();
    assert forall|i: int| 0 <= i < m implies #[trigger] q[i] == p[i] by {
        if i < fe {
            assert(q[i] == folder[i]);
        } else {
            assert(q[i] == stem[i - fe]);
            assert(stem[i - fe] == name[i - fe]);
            assert(name[i - fe] == t[i]);
        }
    }
    assert(q[m] == '.');
    if !v {
        assert forall|i: int| fe <= i < q.len() implies !is_sep(#[trigger] q[i]) by {
            assert(q[i] == tail[i - fe]);
            assert(!sep_in(v, tail[i - fe]));
        }
    }
    assert(p[fe] == t[fe]);
    assert(!sep_in(v, p[fe]));
    lemma_prefix_agree(p, q, fe, m);
    // The new path ends with the extension, so nothing is trimmed from it.
    assert(q.last() == ext.last());
    assert(trim_tail(q) == q);
    lemma_name_start_append(v, folder, tail);
    if name_start(v, t) < root_len(p) {
        lemma_name_start_bounds(v, folder);
    } else {
        lemma_name_start_of_folder(v, t);
    }
    assert(folder_end(q) == fe);
    assert(q.take(fe) =~= folder);
    assert(last_component(q) =~= tail);
    lemma_last_dot_append(stem + seq!['.'], ext);
    assert(last_dot(stem + seq!['.']) == Some(stem.len() as int)) by {
        assert((stem + seq!['.']).last() == '.');
    }
    assert(tail =~= (stem + seq!['.']) + ext);
    assert(last_dot(tail) == Some(stem.len() as int));
    assert(tail.take(stem.len() as int) =~= stem);
    assert(tail.skip(stem.len() as int + 1) =~= ext);
    assert(tail.len() >= 2);
    assert(tail != "."@ && tail != ".."@) by {
        reveal_strlit(".");
        reveal_strlit("..");
        if tail.len() == 2 {
            assert(stem.len() == 1 && ext.len() == 0 || tail[1] != '.');
        }
    }
}

} // verus!
