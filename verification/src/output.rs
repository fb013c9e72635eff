//! Reading yt-dlp's output lines while a download runs: the file it writes
//! to, the progress lines, and the error lines.
use vstd::prelude::*;
use crate::download::{last_segment, TaskRecord};
use crate::text::{
    ascii_lower, all_digits, begins_with, char_is_space, chars_of, chars_occur_at, has_text, index_of_char,
    is_blank, is_digit, is_space, lemma_index_of_char_bound, occurs_at, slice_chars, string_of, to_ascii_lowercase,
    trim_chars, trim_start, trimmed, lemma_trim_start_is_suffix,
};

verus! {

/// The fields of a progress line; `percent` is a decimal number as text.
#[derive(Debug)]
pub struct ProgressFields {
    pub percent: String,
    pub speed: String,
    pub eta: String,
}

/// What a line of yt-dlp's output changed in the task.
pub enum LineUpdate {
    /// Nothing to publish.
    Unchanged,
    /// The task changed and is to be published.
    Updated,
    /// A progress line: the task's speed and ETA changed and its progress is
    /// the decimal number given.
    Progress(String),
}

// ---------------------------------------------------------------------------
// Specifications
// ---------------------------------------------------------------------------

/// `s` without leading copies of `c`.
pub open spec fn trim_start_char(s: Seq<char>, c: char) -> Seq<char>
    decreases s.len(),
{
    if s.len() > 0 && s[0] == c {
        trim_start_char(s.drop_first(), c)
    } else {
        s
    }
}

/// `s` without trailing copies of `c`.
pub open spec fn trim_end_char(s: Seq<char>, c: char) -> Seq<char>
    decreases s.len(),
{
    if s.len() > 0 && s.last() == c {
        trim_end_char(s.drop_last(), c)
    } else {
        s
    }
}

/// `s` without surrounding double quotes (`str::trim_matches('"')`).
pub open spec fn strip_quotes(s: Seq<char>) -> Seq<char> {
    trim_end_char(trim_start_char(s, '"'), '"')
}

/// The file yt-dlp reports writing to, for the lines that report one.
pub open spec fn output_path_of(line: Seq<char>) -> Option<Seq<char>> {
    let p1 = "[download] Destination: "@;
    let p2 = "[ExtractAudio] Destination: "@;
    let p3 = "[Merger] Merging formats into "@;
    if begins_with(line, p1) {
        Some(strip_quotes(line.skip(p1.len() as int)))
    } else if begins_with(line, p2) {
        Some(strip_quotes(line.skip(p2.len() as int)))
    } else if begins_with(line, p3) {
        Some(strip_quotes(line.skip(p3.len() as int)))
    } else {
        None
    }
}

/// The last index `i <= k` where `p` occurs in `s`, or `-1`.
pub open spec fn last_occurrence_upto(s: Seq<char>, p: Seq<char>, k: int) -> int
    decreases k + 1,
{
    if k < 0 {
        -1
    } else if occurs_at(s, p, k) {
        k
    } else {
        last_occurrence_upto(s, p, k - 1)
    }
}

/// The first index `i >= k` where `p` occurs in `s`, or `-1`.
pub open spec fn first_occurrence_from(s: Seq<char>, p: Seq<char>, k: int) -> int
    decreases s.len() + 1 - k,
{
    if k < 0 || k > s.len() {
        -1
    } else if occurs_at(s, p, k) {
        k
    } else {
        first_occurrence_from(s, p, k + 1)
    }
}

/// The title in a file stem: the text before the last ` [`, trimmed;
/// `None` when nothing is left.
pub open spec fn title_of_stem(stem: Seq<char>) -> Option<Seq<char>> {
    let name = trimmed(stem);
    let k = last_occurrence_upto(name, " ["@, name.len() as int);
    let cleaned = trimmed(if k >= 0 { name.take(k) } else { name });
    if cleaned.len() == 0 {
        None
    } else {
        Some(cleaned)
    }
}

/// `s` without repeated leading copies of `p` (`str::trim_start_matches`).
pub open spec fn strip_repeated(s: Seq<char>, p: Seq<char>) -> Seq<char>
    decreases s.len(),
{
    if p.len() > 0 && begins_with(s, p) {
        strip_repeated(s.skip(p.len() as int), p)
    } else {
        s
    }
}

/// The second piece of `s` split at `sep` (`s.split(sep).nth(1)`).
pub open spec fn second_piece(s: Seq<char>, sep: Seq<char>) -> Option<Seq<char>> {
    let i = first_occurrence_from(s, sep, 0);
    if i < 0 {
        None
    } else {
        let rest = s.skip(i + sep.len());
        let j = first_occurrence_from(rest, sep, 0);
        Some(if j < 0 { rest } else { rest.take(j) })
    }
}

/// Index of the first whitespace character, or the length.
pub open spec fn index_of_space(s: Seq<char>) -> nat
    decreases s.len(),
{
    if s.len() == 0 {
        0
    } else if is_space(s[0]) {
        0
    } else {
        1 + index_of_space(s.drop_first())
    }
}

/// The first whitespace-separated word (`split_whitespace().next()`).
pub open spec fn first_word(s: Seq<char>) -> Option<Seq<char>> {
    let t = trim_start(s);
    if t.len() == 0 {
        None
    } else {
        Some(t.take(index_of_space(t) as int))
    }
}

/// The first word of the piece after `sep`, or `--`.
pub open spec fn field_after(s: Seq<char>, sep: Seq<char>) -> Seq<char> {
    match second_piece(s, sep) {
        Some(piece) => match first_word(piece) {
            Some(w) => w,
            None => "--"@,
        },
        None => "--"@,
    }
}

/// Optional sign, then the rest.
pub open spec fn unsigned_part(s: Seq<char>) -> Seq<char> {
    if s.len() > 0 && (s[0] == '+' || s[0] == '-') {
        s.drop_first()
    } else {
        s
    }
}

/// `Digit+ | Digit+ '.' Digit* | Digit* '.' Digit+`.
pub open spec fn mantissa_syntax(m: Seq<char>) -> bool {
    let d = index_of_char(m, '.');
    if d >= m.len() {
        m.len() > 0 && all_digits(m)
    } else {
        all_digits(m.take(d as int)) && all_digits(m.skip(d + 1int)) && (d > 0 || m.len() > d + 1)
    }
}

/// A decimal number as `f32::from_str` accepts it (checked on the ASCII
/// lowercase text): an optional sign, then `inf`, `infinity`, `nan`, or a
/// mantissa with an optional exponent `e`, optional sign, digits.
pub open spec fn float_syntax(s: Seq<char>) -> bool {
    let b = unsigned_part(ascii_lower(s));
    let e = index_of_char(b, 'e');
    ||| b == "inf"@
    ||| b == "infinity"@
    ||| b == "nan"@
    ||| (mantissa_syntax(b.take(e as int)) && (e >= b.len() || {
        let x = unsigned_part(b.skip(e + 1int));
        x.len() > 0 && all_digits(x)
    }))
}

/// The text after the `[download]` tag of a progress line, trimmed.
pub open spec fn progress_body(line: Seq<char>) -> Seq<char> {
    trimmed(strip_repeated(line, "[download]"@))
}

/// The fields of a progress line; `None` for other lines and for a
/// percentage that is not a number.
pub open spec fn progress_fields(line: Seq<char>) -> Option<(Seq<char>, Seq<char>, Seq<char>)> {
    let body = progress_body(line);
    let percent = trimmed(body.take(index_of_char(body, '%') as int));
    if !begins_with(line, "[download]"@) || !has_text(line, "%"@) || has_text(line, "Destination"@) {
        None
    } else if !float_syntax(percent) {
        None
    } else {
        Some((percent, field_after(body, " at "@), field_after(body, " ETA "@)))
    }
}

/// `c` occurs in `s`.
pub open spec fn has_char(s: Seq<char>, c: char) -> bool {
    exists|i: int| 0 <= i < s.len() && s[i] == c
}

/// A path that every platform splits the same way: no `\\`, no `:`, no
/// leading `//` (so no Windows prefix), and a last `/`-separated part that is
/// a file name (not empty, `.` or `..`).
pub open spec fn plain_file_path(path: Seq<char>) -> bool {
    &&& !has_char(path, '\\')
    &&& !has_char(path, ':')
    &&& !begins_with(path, "//"@)
    &&& last_segment(path).len() > 0
    &&& last_segment(path) != "."@
    &&& last_segment(path) != ".."@
}

/// A path that has no file name on any platform: empty, the root `/`, `.`,
/// or ending in a `..` part.
pub open spec fn nameless_path(path: Seq<char>) -> bool {
    ||| path == ""@
    ||| path == "/"@
    ||| path == "."@
    ||| last_segment(path) == ".."@
}

/// The title taken from the file name of a plain path, when there is one.
pub open spec fn plain_path_title(path: Seq<char>) -> Option<Seq<char>> {
    title_of_stem(name_stem(last_segment(path)))
}

/// The index of the last `.` in `s`, or -1.
pub open spec fn last_dot(s: Seq<char>) -> int
    decreases s.len(),
{
    if s.len() == 0 {
        -1
    } else if s.last() == '.' {
        s.len() - 1
    } else {
        last_dot(s.drop_last())
    }
}

/// The stem of a file name as `Path::file_stem` documents it: the whole name
/// when it has no `.` after its first character, else the part before the
/// last `.`.
pub open spec fn name_stem(name: Seq<char>) -> Seq<char> {
    if last_dot(name) <= 0 {
        name
    } else {
        name.take(last_dot(name))
    }
}

// ---------------------------------------------------------------------------
// Wrapper of the std path function
// ---------------------------------------------------------------------------

/// `Path::file_stem` of the path, when it is valid Unicode. The result is a
/// part of the path; for a plain path (see `plain_file_path`), whose file
/// name is its last `/`-separated part on every platform, it is the stem of
/// that name as the documentation of `file_stem` describes it; for a path
/// with no file name (see `nameless_path`) there is none. Other paths follow
/// the platform's path rules, which are not stated.
#[verifier::external_body]
fn path_file_stem(path: &str) -> (r: Option<String>)
    ensures
        r matches Some(s) ==> has_text(path@, s@),
        plain_file_path(path@) ==> r.is_some() && r.unwrap()@ == name_stem(last_segment(path@)),
        nameless_path(path@) ==> r.is_none(),
{
    std::path::Path::new(path).file_stem().and_then(|s| s.to_str()).map(|s| s.to_string())
}

// ---------------------------------------------------------------------------
// Executable functions
// ---------------------------------------------------------------------------

/// `s` without surrounding copies of `c`.
fn trim_char(v: &Vec<char>, c: char) -> (r: Vec<char>)
    ensures
        r@ == trim_end_char(trim_start_char(v@, c), c),
{
    let n = v.len();
    let mut i: usize = 0;
    assert(v@.skip(0) =~= v@);
    while i < n && v[i] == c
        invariant
            n == v.len(),
            i <= n,
            trim_start_char(v@, c) == trim_start_char(v@.skip(i as int), c),
        decreases n - i,
    {
        assert(v@.skip(i as int).drop_first() =~= v@.skip(i + 1));
        i = i + 1;
    }
    assert(trim_start_char(v@, c) == v@.skip(i as int)) by {
        if i < n {
            assert(v@.skip(i as int)[0] == v@[i as int]);
        }
    }
    let mut j: usize = n;
    while j > i && v[j - 1] == c
        invariant
            n == v.len(),
            i <= j <= n,
            trim_end_char(v@.skip(i as int), c) == trim_end_char(v@.subrange(i as int, j as int), c),
        decreases j - i,
    {
        assert(v@.subrange(i as int, j as int).drop_last() =~= v@.subrange(i as int, j - 1));
        j = j - 1;
    }
    assert(v@.skip(i as int) =~= v@.subrange(i as int, n as int));
    assert(trim_end_char(v@.subrange(i as int, j as int), c) == v@.subrange(i as int, j as int)) by {
        if j > i {
            assert(v@.subrange(i as int, j as int).last() == v@[j - 1]);
        }
    }
    slice_chars(v, i, j)
}

/// The rest of `v` after `p`, with surrounding quotes removed, when `v`
/// starts with `p`.
fn strip_tag(v: &Vec<char>, p: &str) -> (r: Option<Vec<char>>)
    ensures
        begins_with(v@, p@) ==> (r matches Some(x) && x@ == strip_quotes(v@.skip(p@.len() as int))),
        !begins_with(v@, p@) ==> r is None,
{
    let pc = chars_of(p);
    if chars_occur_at(v, &pc, 0) {
        let rest = slice_chars(v, pc.len(), v.len());
        assert(rest@ =~= v@.skip(p@.len() as int));
        Some(trim_char(&rest, '"'))
    } else {
        None
    }
}

/// `extract_output_path`: the file named by a destination or merge line.
pub fn extract_output_path(line: &str) -> (r: Option<String>)
    ensures
        match output_path_of(line@) {
            Some(p) => r matches Some(s) && s@ == p,
            None => r is None,
        },
{
    let v = chars_of(line);
    match strip_tag(&v, "[download] Destination: ") {
        Some(x) => {
            return Some(string_of(&x));
        },
        None => {},
    }
    match strip_tag(&v, "[ExtractAudio] Destination: ") {
        Some(x) => {
            return Some(string_of(&x));
        },
        None => {},
    }
    match strip_tag(&v, "[Merger] Merging formats into ") {
        Some(x) => Some(string_of(&x)),
        None => None,
    }
}

/// The last index where `p` occurs in `v`, if any.
fn last_index_of(v: &Vec<char>, p: &Vec<char>) -> (r: Option<usize>)
    ensures
        match r {
            Some(k) => k as int == last_occurrence_upto(v@, p@, v@.len() as int),
            None => last_occurrence_upto(v@, p@, v@.len() as int) == -1,
        },
        r matches Some(k) ==> occurs_at(v@, p@, k as int),
{
    let mut k: usize = v.len();
    loop
        invariant
            k <= v.len(),
            last_occurrence_upto(v@, p@, v@.len() as int) == last_occurrence_upto(v@, p@, k as int),
        decreases k,
    {
        if chars_occur_at(v, p, k) {
            return Some(k);
        }
        if k == 0 {
            assert(last_occurrence_upto(v@, p@, -1) == -1);
            return None;
        }
        k = k - 1;
    }
}

/// The title in a file stem (the part of `title_from_output_path` after
/// the stem is taken from the path).
pub fn title_from_file_stem(stem: &str) -> (r: Option<String>)
    ensures
        match title_of_stem(stem@) {
            Some(t) => r matches Some(s) && s@ == t,
            None => r is None,
        },
{
    let v = chars_of(stem);
    let name = trim_chars(&v);
    let sep = chars_of(" [");
    let cut = match last_index_of(&name, &sep) {
        Some(k) => slice_chars(&name, 0, k),
        None => name,
    };
    let cleaned = trim_chars(&cut);
    if cleaned.len() == 0 {
        None
    } else {
        Some(string_of(&cleaned))
    }
}

/// `title_from_output_path`: the title in the file stem of the path.
pub fn title_from_output_path(path: &str) -> (r: Option<String>)
    ensures
        r matches Some(t) ==> exists|s: Seq<char>| has_text(path@, s) && title_of_stem(s) == Some(t@),
        plain_file_path(path@) ==> match plain_path_title(path@) {
            Some(t) => r matches Some(x) && x@ == t,
            None => r is None,
        },
        nameless_path(path@) ==> r is None,
{
    match path_file_stem(path) {
        Some(stem) => title_from_file_stem(stem.as_str()),
        None => None,
    }
}

/// The first index at or after `k` where `p` occurs in `v`, if any.
fn first_index_from(v: &Vec<char>, p: &Vec<char>, k: usize) -> (r: Option<usize>)
    requires
        k <= v.len(),
    ensures
        match r {
            Some(i) => i as int == first_occurrence_from(v@, p@, k as int),
            None => first_occurrence_from(v@, p@, k as int) == -1,
        },
        r matches Some(i) ==> occurs_at(v@, p@, i as int),
{
    let mut i: usize = k;
    loop
        invariant
            k <= i <= v.len(),
            first_occurrence_from(v@, p@, k as int) == first_occurrence_from(v@, p@, i as int),
        decreases v.len() - i,
    {
        if chars_occur_at(v, p, i) {
            return Some(i);
        }
        if i == v.len() {
            assert(first_occurrence_from(v@, p@, i + 1) == -1);
            return None;
        }
        i = i + 1;
    }
}

proof fn lemma_first_occurrence_bound(s: Seq<char>, p: Seq<char>, k: int)
    ensures
        first_occurrence_from(s, p, k) == -1 || occurs_at(s, p, first_occurrence_from(s, p, k)),
    decreases s.len() + 1 - k,
{
    if k < 0 || k > s.len() {
    } else if occurs_at(s, p, k) {
    } else {
        lemma_first_occurrence_bound(s, p, k + 1);
    }
}

/// The second piece of `v` split at `sep`.
fn second_piece_of(v: &Vec<char>, sep: &Vec<char>) -> (r: Option<Vec<char>>)
    ensures
        match second_piece(v@, sep@) {
            Some(x) => r matches Some(y) && y@ == x,
            None => r is None,
        },
{
    match first_index_from(v, sep, 0) {
        None => None,
        Some(i) => {
            assert(occurs_at(v@, sep@, i as int));
            let sl = sep.len();
            let vl = v.len();
            assert(i + sl <= vl);
            let from = i + sl;
            let rest = slice_chars(v, from, vl);
            assert(rest@ =~= v@.skip(i + sep@.len()));
            match first_index_from(&rest, sep, 0) {
                None => Some(rest),
                Some(j) => {
                    proof {
                        lemma_first_occurrence_bound(rest@, sep@, 0);
                    }
                    let piece = slice_chars(&rest, 0, j);
                    assert(piece@ =~= rest@.take(j as int));
                    Some(piece)
                },
            }
        },
    }
}

/// The first whitespace-separated word of `v`.
fn first_word_of(v: &Vec<char>) -> (r: Option<Vec<char>>)
    ensures
        match first_word(v@) {
            Some(w) => r matches Some(x) && x@ == w,
            None => r is None,
        },
{
    let n = v.len();
    let mut i: usize = 0;
    assert(v@.skip(0) =~= v@);
    while i < n && char_is_space(v[i])
        invariant
            n == v.len(),
            i <= n,
            trim_start(v@) == trim_start(v@.skip(i as int)),
        decreases n - i,
    {
        assert(v@.skip(i as int).drop_first() =~= v@.skip(i + 1));
        i = i + 1;
    }
    assert(trim_start(v@) == v@.skip(i as int)) by {
        if i < n {
            assert(v@.skip(i as int)[0] == v@[i as int]);
        }
    }
    if i == n {
        return None;
    }
    let ghost t = v@.skip(i as int);
    let mut j: usize = i;
    while j < n && !char_is_space(v[j])
        invariant
            n == v.len(),
            i <= j <= n,
            t == v@.skip(i as int),
            index_of_space(t) == (j - i) + index_of_space(v@.skip(j as int)),
        decreases n - j,
    {
        assert(v@.skip(j as int).drop_first() =~= v@.skip(j + 1));
        assert(v@.skip(j as int)[0] == v@[j as int]);
        j = j + 1;
    }
    assert(index_of_space(v@.skip(j as int)) == 0) by {
        if j < n {
            assert(v@.skip(j as int)[0] == v@[j as int]);
        }
    }
    let w = slice_chars(v, i, j);
    assert(w@ =~= t.take(index_of_space(t) as int));
    Some(w)
}

/// The first word after `sep`, or `--`.
fn field_after_of(body: &Vec<char>, sep: &str) -> (r: String)
    ensures
        r@ == field_after(body@, sep@),
{
    let sepc = chars_of(sep);
    match second_piece_of(body, &sepc) {
        Some(piece) => match first_word_of(&piece) {
            Some(w) => string_of(&w),
            None => "--".to_string(),
        },
        None => "--".to_string(),
    }
}

/// All characters of `v[from..to]` are ASCII digits.
fn digits_only(v: &Vec<char>, from: usize, to: usize) -> (r: bool)
    requires
        from <= to <= v.len(),
    ensures
        r == all_digits(v@.subrange(from as int, to as int)),
{
    let mut i = from;
    while i < to
        invariant
            from <= i <= to <= v.len(),
            forall|k: int| from <= k < i ==> is_digit(v@[k]),
        decreases to - i,
    {
        if !('0' <= v[i] && v[i] <= '9') {
            assert(v@.subrange(from as int, to as int)[i - from] == v@[i as int]);
            return false;
        }
        i = i + 1;
    }
    assert forall|k: int| 0 <= k < to - from implies is_digit(#[trigger] v@.subrange(
        from as int,
        to as int,
    )[k]) by {
        assert(v@.subrange(from as int, to as int)[k] == v@[from + k]);
    }
    true
}

/// The index of the first `c` in `v[from..]`, as an index into `v`.
fn index_from(v: &Vec<char>, from: usize, c: char) -> (r: usize)
    requires
        from <= v.len(),
    ensures
        r as int == from + index_of_char(v@.skip(from as int), c),
{
    let mut i = from;
    proof {
        lemma_index_of_char_bound(v@.skip(from as int), c);
    }
    while i < v.len() && v[i] != c
        invariant
            from <= i <= v.len(),
            index_of_char(v@.skip(from as int), c) == (i - from) + index_of_char(v@.skip(i as int), c),
        decreases v.len() - i,
    {
        assert(v@.skip(i as int).drop_first() =~= v@.skip(i + 1));
        assert(v@.skip(i as int)[0] == v@[i as int]);
        i = i + 1;
    }
    assert(index_of_char(v@.skip(i as int), c) == 0) by {
        if i < v.len() {
            assert(v@.skip(i as int)[0] == v@[i as int]);
        }
    }
    i
}

/// The text is a number `f32::from_str` accepts.
pub fn is_float_text(s: &str) -> (r: bool)
    ensures
        r == float_syntax(s@),
{
    let lower = to_ascii_lowercase(s);
    let l = chars_of(lower.as_str());
    let start: usize = if l.len() > 0 && (l[0] == '+' || l[0] == '-') {
        1
    } else {
        0
    };
    let b = slice_chars(&l, start, l.len());
    assert(b@ =~= unsigned_part(ascii_lower(s@)));
    let inf = chars_of("inf");
    let infinity = chars_of("infinity");
    let nan = chars_of("nan");
    if crate::text::chars_equal(&b, &inf) || crate::text::chars_equal(&b, &infinity)
        || crate::text::chars_equal(&b, &nan) {
        return true;
    }
    let e = index_from(&b, 0, 'e');
    assert(b@.skip(0) =~= b@);
    proof {
        lemma_index_of_char_bound(b@, 'e');
    }
    // mantissa b[0..e]
    let d = index_from(&b, 0, '.');
    let m_ok: bool = if d >= e {
        // no '.' before the exponent: the mantissa has no '.' at all
        e > 0 && digits_only(&b, 0, e)
    } else {
        digits_only(&b, 0, d) && digits_only(&b, d + 1, e) && (d > 0 || e > d + 1)
    };
    proof {
        let m = b@.take(e as int);
        lemma_index_of_char_bound(b@, '.');
        lemma_index_of_char_bound(m, '.');
        let dm = index_of_char(m, '.');
        if d >= e {
            assert forall|j: int| 0 <= j < m.len() implies m[j] != '.' by {
                assert(m[j] == b@[j]);
            }
            assert(dm == m.len()) by {
                if dm < m.len() {
                    assert(m[dm as int] == '.');
                }
            }
            assert(b@.subrange(0, e as int) =~= m);
        } else {
            assert(m[d as int] == b@[d as int]);
            assert(dm == d) by {
                if dm < d {
                    assert(m[dm as int] == b@[dm as int]);
                }
            }
            assert(b@.subrange(0, d as int) =~= m.take(d as int));
            assert(b@.subrange(d + 1, e as int) =~= m.skip(d + 1));
        }
    }
    if !m_ok {
        return false;
    }
    if e >= b.len() {
        return true;
    }
    let xs: usize = if e + 1 < b.len() && (b[e + 1] == '+' || b[e + 1] == '-') {
        e + 2
    } else {
        e + 1
    };
    assert(b@.subrange(xs as int, b.len() as int) =~= unsigned_part(b@.skip(e + 1)));
    xs < b.len() && digits_only(&b, xs, b.len())
}

/// `parse_progress`: the percentage, speed and ETA of a progress line.
pub fn parse_progress(line: &str) -> (r: Option<ProgressFields>)
    ensures
        match progress_fields(line@) {
            Some(f) => r matches Some(p) && p.percent@ == f.0 && p.speed@ == f.1 && p.eta@ == f.2,
            None => r is None,
        },
{
    if !crate::text::str_starts_with(line, "[download]") || !crate::text::str_contains(line, "%")
        || crate::text::str_contains(line, "Destination") {
        return None;
    }
    let v = chars_of(line);
    let tag = chars_of("[download]");
    let mut i: usize = 0;
    proof {
        reveal_strlit("[download]");
    }
    assert(v@.skip(0) =~= v@);
    while chars_occur_at(&v, &tag, i)
        invariant
            i <= v.len(),
            tag@ == "[download]"@,
            tag@.len() > 0,
            strip_repeated(line@, "[download]"@) == strip_repeated(v@.skip(i as int), "[download]"@),
            v@ == line@,
        decreases v.len() - i,
    {
        assert(v@.skip(i as int).subrange(0, tag@.len() as int) =~= v@.subrange(
            i as int,
            i + tag@.len(),
        ));
        assert(v@.skip(i as int).skip(tag@.len() as int) =~= v@.skip(i + tag@.len()));
        i = i + tag.len();
    }
    proof {
        if begins_with(v@.skip(i as int), "[download]"@) {
            assert(v@.skip(i as int).subrange(0, tag@.len() as int) =~= v@.subrange(
                i as int,
                i + tag@.len(),
            ));
        }
    }
    let rest = slice_chars(&v, i, v.len());
    assert(rest@ =~= v@.skip(i as int));
    let body = trim_chars(&rest);
    let pct = index_from(&body, 0, '%');
    assert(body@.skip(0) =~= body@);
    proof {
        lemma_index_of_char_bound(body@, '%');
    }
    let head = slice_chars(&body, 0, pct);
    assert(head@ =~= body@.take(pct as int));
    let percent_chars = trim_chars(&head);
    let percent = string_of(&percent_chars);
    if !is_float_text(percent.as_str()) {
        return None;
    }
    let speed = field_after_of(&body, " at ");
    let eta = field_after_of(&body, " ETA ");
    Some(ProgressFields { percent, speed, eta })
}

/// The message of an error line: the text after the first `ERROR:` up to
/// any next one, trimmed.
pub open spec fn error_message_of(line: Seq<char>) -> Seq<char> {
    match second_piece(line, "ERROR:"@) {
        Some(p) => trimmed(p),
        None => trimmed(line),
    }
}

/// `process_download_output_line`, without the percentage (whose number the
/// caller reads from the returned text): a destination line sets the output
/// file and the title in its name, a progress line the speed and ETA, an
/// error line the task's message.
pub fn process_download_output_line(task: &mut TaskRecord, line: &str) -> (r: LineUpdate)
    ensures
        final(task).id == old(task).id,
        final(task).status == old(task).status,
        final(task).profile == old(task).profile,
        final(task).source_url == old(task).source_url,
        is_blank(line@) ==> r is Unchanged && *final(task) == *old(task),
        !is_blank(line@) ==> match output_path_of(trimmed(line@)) {
            Some(p) => {
                &&& r is Updated
                &&& final(task).output@ == p
                &&& (final(task).title == old(task).title || exists|s: Seq<char>|
                    has_text(p, s) && title_of_stem(s) == Some(final(task).title@))
                &&& plain_file_path(p) ==> match plain_path_title(p) {
                    Some(t) => final(task).title@ == t,
                    None => final(task).title == old(task).title,
                }
                &&& nameless_path(p) ==> final(task).title == old(task).title
                &&& final(task).speed == old(task).speed && final(task).eta == old(task).eta
                &&& final(task).error == old(task).error
            },
            None => match progress_fields(trimmed(line@)) {
                Some(f) => {
                    &&& r matches LineUpdate::Progress(x) && x@ == f.0
                    &&& final(task).speed@ == f.1
                    &&& final(task).eta@ == f.2
                    &&& final(task).title == old(task).title && final(task).output == old(task).output
                    &&& final(task).error == old(task).error
                },
                None => if has_text(trimmed(line@), "ERROR:"@) {
                    &&& r is Updated
                    &&& final(task).error matches Some(e) && e@ == error_message_of(trimmed(line@))
                    &&& final(task).title == old(task).title && final(task).output == old(task).output
                    &&& final(task).speed == old(task).speed && final(task).eta == old(task).eta
                } else {
                    r is Unchanged && *final(task) == *old(task)
                },
            },
        },
{
    let trimmed_line = crate::text::trim(line);
    if trimmed_line.as_str().is_empty() {
        return LineUpdate::Unchanged;
    }
    match extract_output_path(trimmed_line.as_str()) {
        Some(path) => {
            let title = title_from_output_path(path.as_str());
            task.output = path;
            match title {
                Some(t) => {
                    task.title = t;
                },
                None => {},
            }
            return LineUpdate::Updated;
        },
        None => {},
    }
    match parse_progress(trimmed_line.as_str()) {
        Some(fields) => {
            task.speed = fields.speed;
            task.eta = fields.eta;
            return LineUpdate::Progress(fields.percent);
        },
        None => {},
    }
    if crate::text::str_contains(trimmed_line.as_str(), "ERROR:") {
        let v = chars_of(trimmed_line.as_str());
        let marker = chars_of("ERROR:");
        let message = match second_piece_of(&v, &marker) {
            Some(p) => trim_chars(&p),
            None => trim_chars(&v),
        };
        task.error = Some(string_of(&message));
        return LineUpdate::Updated;
    }
    LineUpdate::Unchanged
}

} // verus!
