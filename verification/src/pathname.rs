//! Path text handling: separator normalisation and the file-extension test
//! that decides which files the scanner indexes.
//!
//! Paths are handled as text. The file-name and extension rules follow those of
//! `std::path::Path` on the platform named by a `PathStyle`: on Unix `/` is the only
//! separator; on Windows `/` and `\` both separate and a path may start with a prefix
//! (`C:`, `\\server\share`, `\\?\...`, `\\.\...`). Trailing separators and `.`
//! components are ignored, a name that is `..` (or a path that is only a leading
//! `.`) has no file name, and the extension is what follows the last `.` of the
//! file name unless that `.` is its first character.
use vstd::prelude::*;
use crate::text::push_char;

verus! {

broadcast use vstd::string::group_string_axioms;

/// The path with every Windows separator (`\`) replaced by `/`.
pub open spec fn spec_normalize(s: Seq<char>) -> Seq<char> {
    Seq::new(s.len(), |i: int| if s[i] == '\\' { '/' } else { s[i] })
}

/// Replaces every `\` in `s` by `/`, so that one file has one spelling in the index.
pub fn normalize_str(s: &str) -> (r: String)
    ensures
        r@ == spec_normalize(s@),
{
    let mut out = String::new();
    for c in it: s.chars()
        invariant
            it.seq() == s@,
            out@ == spec_normalize(s@).take(it.index() as int),
    {
        if c == '\\' {
            push_char(&mut out, '/');
        } else {
            push_char(&mut out, c);
        }
    }
    out
}

/// The characters of `s`, one element per `char`.
pub fn chars_of(s: &str) -> (v: Vec<char>)
    ensures
        v@ == s@,
{
    let mut v: Vec<char> = Vec::new();
    for c in it: s.chars()
        invariant
            it.seq() == s@,
            v@ == s@.take(it.index() as int),
    {
        v.push(c);
    }
    proof {
        assert(v@ =~= s@);
    }
    v
}

/// Builds a `String` from a character sequence.
pub fn string_of(v: &Vec<char>, start: usize, end: usize) -> (r: String)
    requires
        start <= end <= v.len(),
    ensures
        r@ == v@.subrange(start as int, end as int),
{
    let mut out = String::new();
    let mut i = start;
    while i < end
        invariant
            start <= i <= end <= v.len(),
            out@ == v@.subrange(start as int, i as int),
        decreases end - i,
    {
        push_char(&mut out, v[i]);
        i = i + 1;
        proof {
            assert(out@ =~= v@.subrange(start as int, i as int));
        }
    }
    out
}

/// ASCII lower-casing of one character (other characters are unchanged).
pub open spec fn ascii_lower(c: char) -> char {
    if 'A' <= c && c <= 'Z' {
        ((c as u32) + 32) as char
    } else {
        c
    }
}

/// `a` and `b` are equal up to ASCII case (`str::eq_ignore_ascii_case`).
pub open spec fn eq_ignore_ascii_case(a: Seq<char>, b: Seq<char>) -> bool {
    &&& a.len() == b.len()
    &&& forall|i: int| 0 <= i < a.len() ==> ascii_lower(#[trigger] a[i]) == ascii_lower(b[i])
}

pub fn lower_char(c: char) -> (r: char)
    ensures
        r == ascii_lower(c),
{
    if 'A' <= c && c <= 'Z' {
        ((c as u8) + 32) as char
    } else {
        c
    }
}

/// The path rules of the platform: Unix (`/` separates) or Windows (`/` and `\`
/// separate, and a path may start with a prefix).
#[derive(Debug, Clone, Copy, PartialEq, Eq, Structural)]
pub enum PathStyle {
    Unix,
    Windows,
}

/// The characters that separate components.
#[derive(Debug, Clone, Copy, PartialEq, Eq, Structural)]
pub enum Seps {
    /// `/` alone (Unix).
    Slash,
    /// `/` and `\` (Windows).
    Both,
    /// `\` alone (a Windows verbatim path, `\\?\...`).
    Backslash,
}

pub open spec fn is_sep(c: char, seps: Seps) -> bool {
    match seps {
        Seps::Slash => c == '/',
        Seps::Both => c == '/' || c == '\\',
        Seps::Backslash => c == '\\',
    }
}

fn is_sep_exec(c: char, seps: Seps) -> (r: bool)
    ensures
        r == is_sep(c, seps),
{
    match seps {
        Seps::Slash => c == '/',
        Seps::Both => c == '/' || c == '\\',
        Seps::Backslash => c == '\\',
    }
}

/// End of `s[..end]` once trailing separators are dropped.
pub open spec fn strip_end(s: Seq<char>, end: int, seps: Seps) -> int
    decreases end,
{
    if end > 0 && is_sep(s[end - 1], seps) {
        strip_end(s, end - 1, seps)
    } else {
        end
    }
}

/// Start of the last component of `s[..end]`: just after its last separator.
pub open spec fn seg_start(s: Seq<char>, end: int, seps: Seps) -> int
    decreases end,
{
    if end <= 0 {
        0
    } else if is_sep(s[end - 1], seps) {
        end
    } else {
        seg_start(s, end - 1, seps)
    }
}

pub proof fn lemma_strip_end(s: Seq<char>, end: int, seps: Seps)
    requires
        0 <= end <= s.len(),
    ensures
        0 <= strip_end(s, end, seps) <= end,
        strip_end(s, end, seps) > 0 ==> !is_sep(s[strip_end(s, end, seps) - 1], seps),
    decreases end,
{
    if end > 0 && is_sep(s[end - 1], seps) {
        lemma_strip_end(s, end - 1, seps);
    }
}

pub proof fn lemma_seg_start(s: Seq<char>, end: int, seps: Seps)
    requires
        0 <= end <= s.len(),
    ensures
        0 <= seg_start(s, end, seps) <= end,
        end > 0 && !is_sep(s[end - 1], seps) ==> seg_start(s, end, seps) < end,
        forall|i: int| seg_start(s, end, seps) <= i < end ==> !is_sep(s[i], seps),
        seg_start(s, end, seps) > 0 ==> is_sep(s[seg_start(s, end, seps) - 1], seps),
    decreases end,
{
    if end > 0 && !is_sep(s[end - 1], seps) {
        lemma_seg_start(s, end - 1, seps);
    }
}

/// Bounds `(start, end)` of the file name of `s[..end]`, if it has one: its last
/// component, trailing separators dropped. A `.` component is passed over (it names
/// no file when it leads the path), except with `Seps::Backslash` (a verbatim path,
/// where `.` is kept as a component and so names no file); `..` names no file.
pub open spec fn file_name_at(s: Seq<char>, end: int, seps: Seps) -> Option<(int, int)>
    decreases end,
{
    if 0 <= end <= s.len() {
        let e = strip_end(s, end, seps);
        if e <= 0 {
            None
        } else {
            let st = seg_start(s, e, seps);
            if e - st == 1 && s[st] == '.' {
                if st == 0 || seps == Seps::Backslash {
                    None
                } else {
                    proof {
                        lemma_strip_end(s, end, seps);
                        lemma_seg_start(s, e, seps);
                    }
                    file_name_at(s, st, seps)
                }
            } else if e - st == 2 && s[st] == '.' && s[st + 1] == '.' {
                None
            } else {
                Some((st, e))
            }
        }
    } else {
        None
    }
}

/// The end of the component of `s` that starts at `i`: the first separator from `i`
/// on, or the end of `s`.
pub open spec fn comp_end(s: Seq<char>, i: int, seps: Seps) -> int
    decreases s.len() - i,
{
    if i >= s.len() {
        s.len() as int
    } else if is_sep(s[i], seps) {
        i
    } else {
        comp_end(s, i + 1, seps)
    }
}

/// Where the component after the one starting at `i` starts.
pub open spec fn after_comp(s: Seq<char>, i: int, seps: Seps) -> int {
    let e = comp_end(s, i, seps);
    if e < s.len() {
        e + 1
    } else {
        e
    }
}

pub open spec fn is_ascii_alpha(c: char) -> bool {
    ('a' <= c && c <= 'z') || ('A' <= c && c <= 'Z')
}

/// A Windows verbatim path: it starts with `\\?\`.
pub open spec fn is_verbatim(s: Seq<char>) -> bool {
    s.len() >= 4 && s[0] == '\\' && s[1] == '\\' && s[2] == '?' && s[3] == '\\'
}

/// The length of the prefix of a Windows path (`std::path::Prefix`): `\\?\UNC\server\share`,
/// `\\?\C:`, `\\?\name`, `\\.\device`, `\\server\share` (with either separator), or
/// `C:`; 0 when there is none.
pub open spec fn prefix_end(s: Seq<char>) -> int {
    if is_verbatim(s) {
        if s.len() >= 8 && s[4] == 'U' && s[5] == 'N' && s[6] == 'C' && s[7] == '\\' {
            comp_end(s, after_comp(s, 8, Seps::Backslash), Seps::Backslash)
        } else if s.len() >= 6 && is_ascii_alpha(s[4]) && s[5] == ':' && (s.len() == 6 || s[6]
            == '\\') {
            6
        } else {
            comp_end(s, 4, Seps::Backslash)
        }
    } else if s.len() >= 2 && is_sep(s[0], Seps::Both) && is_sep(s[1], Seps::Both) {
        if s.len() >= 4 && s[2] == '.' && is_sep(s[3], Seps::Both) {
            comp_end(s, 4, Seps::Both)
        } else {
            let server_end = comp_end(s, 2, Seps::Both);
            let share = after_comp(s, 2, Seps::Both);
            let share_end = comp_end(s, share, Seps::Both);
            if server_end > 2 && share_end > share {
                share_end
            } else {
                0
            }
        }
    } else if s.len() >= 2 && is_ascii_alpha(s[0]) && s[1] == ':' {
        2
    } else {
        0
    }
}

pub proof fn lemma_comp_end(s: Seq<char>, i: int, seps: Seps)
    requires
        0 <= i <= s.len(),
    ensures
        i <= comp_end(s, i, seps) <= s.len(),
        i <= after_comp(s, i, seps) <= s.len(),
    decreases s.len() - i,
{
    if i < s.len() && !is_sep(s[i], seps) {
        lemma_comp_end(s, i + 1, seps);
    }
}

pub proof fn lemma_prefix_end(s: Seq<char>)
    ensures
        0 <= prefix_end(s) <= s.len(),
{
    if s.len() >= 4 {
        lemma_comp_end(s, 4, Seps::Backslash);
        lemma_comp_end(s, 4, Seps::Both);
    }
    if s.len() >= 8 {
        lemma_comp_end(s, 8, Seps::Backslash);
        lemma_comp_end(s, after_comp(s, 8, Seps::Backslash), Seps::Backslash);
    }
    if s.len() >= 2 {
        lemma_comp_end(s, 2, Seps::Both);
        lemma_comp_end(s, after_comp(s, 2, Seps::Both), Seps::Both);
    }
}

/// The part of a path in which its components lie, and their separators: the whole
/// path on Unix; on Windows, what follows the prefix, separated by `\` alone in a
/// verbatim path.
pub open spec fn path_body(s: Seq<char>, style: PathStyle) -> (Seq<char>, Seps) {
    match style {
        PathStyle::Unix => (s, Seps::Slash),
        PathStyle::Windows => (
            s.subrange(prefix_end(s), s.len() as int),
            if is_verbatim(s) {
                Seps::Backslash
            } else {
                Seps::Both
            },
        ),
    }
}

/// The file name of the components `b` separated by `seps`.
pub open spec fn name_in(b: Seq<char>, seps: Seps) -> Option<Seq<char>> {
    match file_name_at(b, b.len() as int, seps) {
        Some((x, y)) => Some(b.subrange(x, y)),
        None => None,
    }
}

/// The file name of a path under the platform's rules (`Path::file_name`).
pub open spec fn file_name(s: Seq<char>, style: PathStyle) -> Option<Seq<char>> {
    name_in(path_body(s, style).0, path_body(s, style).1)
}

/// Index of the last `.` in `s`, or -1.
pub open spec fn last_dot(s: Seq<char>) -> int
    decreases s.len(),
{
    if s.len() == 0 {
        -1
    } else if s.last() == '.' {
        s.len() - 1
    } else {
        last_dot(s.drop_last())
    }
}

/// The extension of a file name: what follows its last `.`, unless that `.` is its
/// first character.
pub open spec fn name_extension(n: Seq<char>) -> Option<Seq<char>> {
    if last_dot(n) > 0 {
        Some(n.subrange(last_dot(n) + 1, n.len() as int))
    } else {
        None
    }
}

/// The extension of a path under the platform's rules (`Path::extension`).
pub open spec fn extension(s: Seq<char>, style: PathStyle) -> Option<Seq<char>> {
    match file_name(s, style) {
        Some(n) => name_extension(n),
        None => None,
    }
}

fn file_name_bounds(v: &Vec<char>, seps: Seps) -> (r: Option<(usize, usize)>)
    ensures
        match r {
            Some((a, b)) => a <= b <= v.len() && file_name_at(v@, v.len() as int, seps) == Some(
                (a as int, b as int),
            ),
            None => file_name_at(v@, v.len() as int, seps) is None,
        },
{
    let mut end = v.len();
    loop
        invariant
            end <= v.len(),
            file_name_at(v@, end as int, seps) == file_name_at(v@, v.len() as int, seps),
        decreases end,
    {
        let mut e = end;
        while e > 0 && is_sep_exec(v[e - 1], seps)
            invariant
                e <= end <= v.len(),
                strip_end(v@, e as int, seps) == strip_end(v@, end as int, seps),
            decreases e,
        {
            e = e - 1;
        }
        if e == 0 {
            return None;
        }
        let mut st = e;
        while st > 0 && !is_sep_exec(v[st - 1], seps)
            invariant
                st <= e <= v.len(),
                seg_start(v@, st as int, seps) == seg_start(v@, e as int, seps),
            decreases st,
        {
            st = st - 1;
        }
        proof {
            lemma_strip_end(v@, end as int, seps);
            lemma_seg_start(v@, e as int, seps);
        }
        if e - st == 1 && v[st] == '.' {
            if st == 0 || matches!(seps, Seps::Backslash) {
                return None;
            }
            end = st;
        } else if e - st == 2 && v[st] == '.' && v[st + 1] == '.' {
            return None;
        } else {
            return Some((st, e));
        }
    }
}

/// Bounds `(start, end)` in `v` of the extension of the file name of the components
/// `v` separated by `seps`.
fn extension_bounds(v: &Vec<char>, seps: Seps) -> (r: Option<(usize, usize)>)
    ensures
        match r {
            Some((a, b)) => a <= b <= v.len() && match name_in(v@, seps) {
                Some(n) => name_extension(n) == Some(v@.subrange(a as int, b as int)),
                None => false,
            },
            None => match name_in(v@, seps) {
                Some(n) => name_extension(n) is None,
                None => true,
            },
        },
{
    match file_name_bounds(v, seps) {
        None => None,
        Some((a, b)) => {
            let ghost n = v@.subrange(a as int, b as int);
            let mut i = b;
            proof {
                assert(n.take(b - a) =~= n);
            }
            while i > a && v[i - 1] != '.'
                invariant
                    a <= i <= b <= v.len(),
                    n == v@.subrange(a as int, b as int),
                    last_dot(n) == last_dot(n.take(i - a)),
                decreases i,
            {
                proof {
                    assert(n.take(i - a).drop_last() =~= n.take(i - 1 - a));
                }
                i = i - 1;
            }
            proof {
                if i > a {
                    assert(n.take(i - a).last() == '.');
                } else {
                    assert(n.take(0) =~= Seq::<char>::empty());
                }
            }
            if i - a > 1 {
                proof {
                    assert(n.subrange(i - a, n.len() as int) =~= v@.subrange(i as int, b as int));
                }
                Some((i, b))
            } else {
                None
            }
        }
    }
}

/// The end of the component of `v` that starts at `i`.
fn comp_end_exec(v: &Vec<char>, i: usize, seps: Seps) -> (r: usize)
    requires
        i <= v.len(),
    ensures
        r == comp_end(v@, i as int, seps),
{
    let mut j = i;
    proof {
        lemma_comp_end(v@, i as int, seps);
    }
    while j < v.len() && !is_sep_exec(v[j], seps)
        invariant
            i <= j <= v.len(),
            comp_end(v@, j as int, seps) == comp_end(v@, i as int, seps),
        decreases v.len() - j,
    {
        j = j + 1;
    }
    j
}

fn after_comp_exec(v: &Vec<char>, i: usize, seps: Seps) -> (r: usize)
    requires
        i <= v.len(),
    ensures
        r == after_comp(v@, i as int, seps),
{
    let e = comp_end_exec(v, i, seps);
    proof {
        lemma_comp_end(v@, i as int, seps);
    }
    if e < v.len() {
        e + 1
    } else {
        e
    }
}

fn is_ascii_alpha_exec(c: char) -> (r: bool)
    ensures
        r == is_ascii_alpha(c),
{
    ('a' <= c && c <= 'z') || ('A' <= c && c <= 'Z')
}

fn prefix_end_exec(v: &Vec<char>) -> (r: usize)
    ensures
        r == prefix_end(v@),
{
    let n = v.len();
    proof {
        lemma_prefix_end(v@);
    }
    let verbatim = n >= 4 && v[0] == '\\' && v[1] == '\\' && v[2] == '?' && v[3] == '\\';
    if verbatim {
        if n >= 8 && v[4] == 'U' && v[5] == 'N' && v[6] == 'C' && v[7] == '\\' {
            let share = after_comp_exec(v, 8, Seps::Backslash);
            proof {
                lemma_comp_end(v@, 8, Seps::Backslash);
            }
            comp_end_exec(v, share, Seps::Backslash)
        } else if n >= 6 && is_ascii_alpha_exec(v[4]) && v[5] == ':' && (n == 6 || v[6] == '\\') {
            6
        } else {
            comp_end_exec(v, 4, Seps::Backslash)
        }
    } else if n >= 2 && is_sep_exec(v[0], Seps::Both) && is_sep_exec(v[1], Seps::Both) {
        if n >= 4 && v[2] == '.' && is_sep_exec(v[3], Seps::Both) {
            comp_end_exec(v, 4, Seps::Both)
        } else {
            let server_end = comp_end_exec(v, 2, Seps::Both);
            let share = after_comp_exec(v, 2, Seps::Both);
            proof {
                lemma_comp_end(v@, 2, Seps::Both);
            }
            let share_end = comp_end_exec(v, share, Seps::Both);
            if server_end > 2 && share_end > share {
                share_end
            } else {
                0
            }
        }
    } else if n >= 2 && is_ascii_alpha_exec(v[0]) && v[1] == ':' {
        2
    } else {
        0
    }
}

/// The components part of `path` and their separators (`path_body`), as characters.
fn body_of(path: &str, style: PathStyle) -> (r: (Vec<char>, Seps))
    ensures
        (r.0@, r.1) == path_body(path@, style),
{
    let v = chars_of(path);
    match style {
        PathStyle::Unix => (v, Seps::Slash),
        PathStyle::Windows => {
            let p = prefix_end_exec(&v);
            let n = v.len();
            let mut body: Vec<char> = Vec::new();
            let mut i = p;
            proof {
                lemma_prefix_end(v@);
                assert(body@ =~= v@.subrange(p as int, p as int));
            }
            while i < n
                invariant
                    p <= i <= n,
                    n == v.len(),
                    body@ == v@.subrange(p as int, i as int),
                decreases n - i,
            {
                body.push(v[i]);
                i = i + 1;
                proof {
                    assert(body@ =~= v@.subrange(p as int, i as int));
                }
            }
            let verbatim = n >= 4 && v[0] == '\\' && v[1] == '\\' && v[2] == '?' && v[3] == '\\';
            (body, if verbatim { Seps::Backslash } else { Seps::Both })
        },
    }
}

/// Bounds in the components part of `path` of its extension.
fn extension_region(path: &str, style: PathStyle) -> (r: (Vec<char>, Option<(usize, usize)>))
    ensures
        match r.1 {
            Some((a, b)) => a <= b <= r.0.len() && extension(path@, style) == Some(
                r.0@.subrange(a as int, b as int),
            ),
            None => extension(path@, style) is None,
        },
{
    let (body, seps) = body_of(path, style);
    let e = extension_bounds(&body, seps);
    (body, e)
}

/// The extension of `path` under the platform's rules, as text.
pub fn extension_of(path: &str, style: PathStyle) -> (r: Option<String>)
    ensures
        match r {
            Some(e) => extension(path@, style) == Some(e@),
            None => extension(path@, style) is None,
        },
{
    let (v, e) = extension_region(path, style);
    match e {
        Some((a, b)) => Some(string_of(&v, a, b)),
        None => None,
    }
}

/// The extensions, in lower case, of the files that the library indexes.
pub const IMAGE_EXTENSIONS: [&'static str; 9] = [
    "jpg",
    "jpeg",
    "png",
    "gif",
    "webp",
    "bmp",
    "tiff",
    "heic",
    "heif",
];

/// The extensions accepted by `is_image_path`.
pub open spec fn image_extensions() -> Seq<Seq<char>> {
    seq![
        "jpg"@,
        "jpeg"@,
        "png"@,
        "gif"@,
        "webp"@,
        "bmp"@,
        "tiff"@,
        "heic"@,
        "heif"@,
    ]
}

/// The extensions of `IMAGE_EXTENSIONS`, as character sequences.
pub open spec fn constant_extensions() -> Seq<Seq<char>> {
    IMAGE_EXTENSIONS@.map_values(|x: &str| x@)
}

/// The whitelist that the contracts speak of is the constant `IMAGE_EXTENSIONS`,
/// element by element.
pub proof fn lemma_image_extensions_are_the_constant()
    ensures
        image_extensions() == constant_extensions(),
        constant_extensions().len() == 9,
{
    assert(image_extensions() =~= constant_extensions());
}

/// Every HEIC/HEIF file is an image file that the scanner indexes.
pub proof fn lemma_heif_paths_are_image_paths(path: Seq<char>, style: PathStyle)
    ensures
        has_extension_in(path, style, heif_extensions()) ==> has_extension_in(
            path,
            style,
            image_extensions(),
        ),
{
    if has_extension_in(path, style, heif_extensions()) {
        let e = extension(path, style).unwrap();
        let k = choose|k: int| 0 <= k < 2 && eq_ignore_ascii_case(e, #[trigger] heif_extensions()[k]);
        assert(heif_extensions()[k] == image_extensions()[k + 7]);
    }
}

/// The extension of `path` equals one of `exts` up to ASCII case.
pub open spec fn has_extension_in(path: Seq<char>, style: PathStyle, exts: Seq<Seq<char>>) -> bool {
    match extension(path, style) {
        Some(e) => exists|k: int| 0 <= k < exts.len() && eq_ignore_ascii_case(e, #[trigger] exts[k]),
        None => false,
    }
}

/// `v[a..b]` equals `w` up to ASCII case.
fn range_eq_ignore_case(v: &Vec<char>, a: usize, b: usize, w: &str) -> (r: bool)
    requires
        a <= b <= v.len(),
    ensures
        r == eq_ignore_ascii_case(v@.subrange(a as int, b as int), w@),
{
    let wc = chars_of(w);
    if b - a != wc.len() {
        return false;
    }
    let mut i: usize = 0;
    while i < wc.len()
        invariant
            a <= b <= v.len(),
            b - a == wc.len(),
            wc@ == w@,
            i <= wc.len(),
            forall|j: int|
                0 <= j < i ==> ascii_lower(#[trigger] v@[a + j]) == ascii_lower(wc@[j]),
        decreases wc.len() - i,
    {
        if lower_char(v[a + i]) != lower_char(wc[i]) {
            proof {
                let s = v@.subrange(a as int, b as int);
                assert(s[i as int] == v@[a + i]);
            }
            return false;
        }
        i = i + 1;
    }
    proof {
        let s = v@.subrange(a as int, b as int);
        assert forall|j: int| 0 <= j < s.len() implies ascii_lower(#[trigger] s[j]) == ascii_lower(
            w@[j],
        ) by {
            assert(s[j] == v@[a + j]);
        }
    }
    true
}

/// Whether `path` names a file of one of the indexed image types: its extension
/// equals one of `IMAGE_EXTENSIONS`, ignoring ASCII case.
pub fn is_image_path(path: &str, style: PathStyle) -> (r: bool)
    ensures
        r == has_extension_in(path@, style, image_extensions()),
        r == has_extension_in(path@, style, constant_extensions()),
{
    proof {
        lemma_image_extensions_are_the_constant();
    }
    let (v, e) = extension_region(path, style);
    match e {
        None => false,
        Some((a, b)) => {
            let mut k: usize = 0;
            while k < 9
                invariant
                    k <= 9,
                    a <= b <= v.len(),
                    extension(path@, style) == Some(v@.subrange(a as int, b as int)),
                    forall|j: int|
                        0 <= j < k ==> !eq_ignore_ascii_case(
                            v@.subrange(a as int, b as int),
                            #[trigger] image_extensions()[j],
                        ),
                decreases 9 - k,
            {
                let x = IMAGE_EXTENSIONS[k];
                proof {
                    assert(x@ == image_extensions()[k as int]);
                }
                if range_eq_ignore_case(&v, a, b, x) {
                    proof {
                        assert(constant_extensions()[k as int] == image_extensions()[k as int]);
                    }
                    return true;
                }
                k = k + 1;
            }
            false
        }
    }
}

/// The extensions of HEIC/HEIF files.
pub open spec fn heif_extensions() -> Seq<Seq<char>> {
    seq!["heic"@, "heif"@]
}

/// Whether `path` names a HEIC/HEIF file (extension `heic` or `heif`, any ASCII case),
/// which the image crate cannot decode.
pub fn is_heic_path(path: &str, style: PathStyle) -> (r: bool)
    ensures
        r == has_extension_in(path@, style, heif_extensions()),
{
    let (v, e) = extension_region(path, style);
    match e {
        None => false,
        Some((a, b)) => {
            let h1 = range_eq_ignore_case(&v, a, b, "heic");
            let h2 = range_eq_ignore_case(&v, a, b, "heif");
            proof {
                let e = v@.subrange(a as int, b as int);
                if h1 {
                    assert(eq_ignore_ascii_case(e, heif_extensions()[0]));
                }
                if h2 {
                    assert(eq_ignore_ascii_case(e, heif_extensions()[1]));
                }
            }
            h1 || h2
        }
    }
}

} // verus!
