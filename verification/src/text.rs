//! Character-level text primitives with their specifications.
//!
//! Strings are modelled by their views, `Seq<char>`. The functions here work
//! on `Vec<char>` buffers and on `&str`/`String` values, and each one states
//! its result over the spec functions of this module.
use vstd::prelude::*;

verus! {

// ---------------------------------------------------------------------------
// Whitespace and trimming
// ---------------------------------------------------------------------------
/// Unicode `White_Space`, the property that `char::is_whitespace` tests.
pub open spec fn is_ws(c: char) -> bool {
    let v = c as u32;
    ||| v == 0x20
    ||| 0x09 <= v <= 0x0d
    ||| v == 0x85
    ||| v == 0xa0
    ||| v == 0x1680
    ||| 0x2000 <= v <= 0x200a
    ||| v == 0x2028
    ||| v == 0x2029
    ||| v == 0x202f
    ||| v == 0x205f
    ||| v == 0x3000
}

/// `s` without its leading whitespace.
pub open spec fn trim_start(s: Seq<char>) -> Seq<char>
    decreases s.len(),
{
    if s.len() > 0 && is_ws(s[0]) {
        trim_start(s.drop_first())
    } else {
        s
    }
}

/// `s` without its trailing whitespace.
pub open spec fn trim_end(s: Seq<char>) -> Seq<char>
    decreases s.len(),
{
    if s.len() > 0 && is_ws(s.last()) {
        trim_end(s.drop_last())
    } else {
        s
    }
}

/// `s` without leading and trailing whitespace, as `str::trim` gives it.
pub open spec fn trim(s: Seq<char>) -> Seq<char> {
    trim_end(trim_start(s))
}

/// True when every character of `s` is whitespace.
pub open spec fn all_ws(s: Seq<char>) -> bool {
    forall|i: int| 0 <= i < s.len() ==> is_ws(#[trigger] s[i])
}

/// Whether `c` is whitespace; the same test as `char::is_whitespace`.
pub fn is_whitespace(c: char) -> (r: bool)
    ensures
        r == is_ws(c),
{
    let v = c as u32;
    v == 0x20 || (0x09 <= v && v <= 0x0d) || v == 0x85 || v == 0xa0 || v == 0x1680 || (0x2000 <= v
        && v <= 0x200a) || v == 0x2028 || v == 0x2029 || v == 0x202f || v == 0x205f || v == 0x3000
}

/// Bounds `(start, end)` of the trimmed part of `s`.
pub fn trim_bounds(s: &[char]) -> (r: (usize, usize))
    ensures
        r.0 <= r.1 <= s@.len(),
        s@.subrange(r.0 as int, r.1 as int) == trim(s@),
        all_ws(s@.take(r.0 as int)),
{
    let n = s.len();
    let mut i: usize = 0;
    assert(s@.skip(0) =~= s@);
    assert(s@.take(0) =~= Seq::<char>::empty());
    while i < n && is_whitespace(s[i])
        invariant
            i <= n,
            n == s@.len(),
            trim_start(s@) == trim_start(s@.skip(i as int)),
            all_ws(s@.take(i as int)),
        decreases n - i,
    {
        assert(s@.skip(i as int).drop_first() =~= s@.skip(i + 1));
        assert(s@.take(i + 1) =~= s@.take(i as int).push(s@[i as int]));
        i = i + 1;
    }
    assert(trim_start(s@.skip(i as int)) == s@.skip(i as int));
    assert(s@.skip(i as int) =~= s@.subrange(i as int, n as int));
    let mut e: usize = n;
    while e > i && is_whitespace(s[e - 1])
        invariant
            i <= e <= n,
            n == s@.len(),
            trim(s@) == trim_end(s@.subrange(i as int, e as int)),
        decreases e,
    {
        assert(s@.subrange(i as int, e as int).drop_last() =~= s@.subrange(i as int, e - 1));
        e = e - 1;
    }
    (i, e)
}

/// The chars of `s`, in order.
pub fn chars_of(s: &str) -> (v: Vec<char>)
    ensures
        v@ == s@,
{
    let mut v: Vec<char> = Vec::new();
    for c in it: s.chars()
        invariant
            v@ == it.seq().take(it.index() as int),
    {
        v.push(c);
    }
    v
}

/// Appends `c` to `s` by `String::push`.
#[verifier::external_body]
pub(crate) fn push_char(s: &mut String, c: char)
    ensures
        final(s)@ == old(s)@.push(c),
{
    s.push(c);
}

/// A `String` holding the chars of `v[from..to]`.
pub fn string_from_range(v: &[char], from: usize, to: usize) -> (s: String)
    requires
        from <= to <= v@.len(),
    ensures
        s@ == v@.subrange(from as int, to as int),
{
    let mut s = String::new();
    let mut i: usize = from;
    while i < to
        invariant
            from <= i <= to,
            to <= v@.len(),
            s@ == v@.subrange(from as int, i as int),
        decreases to - i,
    {
        push_char(&mut s, v[i]);
        assert(v@.subrange(from as int, i + 1) =~= v@.subrange(from as int, i as int).push(
            v@[i as int],
        ));
        i = i + 1;
    }
    s
}

/// A `String` holding the chars of `v`.
pub fn string_from_chars(v: &[char]) -> (s: String)
    ensures
        s@ == v@,
{
    let s = string_from_range(v, 0, v.len());
    assert(v@.subrange(0, v@.len() as int) =~= v@);
    s
}

/// `s` with whitespace removed at both ends, as `str::trim` gives it.
pub fn trim_str(s: &str) -> (r: String)
    ensures
        r@ == trim(s@),
{
    let v = chars_of(s);
    let (a, b) = trim_bounds(v.as_slice());
    string_from_range(v.as_slice(), a, b)
}

/// Whether `s` is empty or only whitespace (`s.trim().is_empty()`).
pub fn is_blank(s: &[char]) -> (r: bool)
    ensures
        r == (trim(s@).len() == 0),
{
    let (a, b) = trim_bounds(s);
    a == b
}

/// Appends the chars of `t` to `s`.
pub fn append_chars(s: &mut Vec<char>, t: &[char])
    ensures
        final(s)@ == old(s)@ + t@,
{
    let mut i: usize = 0;
    while i < t.len()
        invariant
            i <= t@.len(),
            s@ == old(s)@ + t@.take(i as int),
        decreases t.len() - i,
    {
        s.push(t[i]);
        assert(t@.take(i + 1) =~= t@.take(i as int).push(t@[i as int]));
        i = i + 1;
    }
    assert(t@.take(t@.len() as int) =~= t@);
}

/// Appends the chars of `t` to `s`.
pub fn append_str(s: &mut String, t: &str)
    ensures
        final(s)@ == old(s)@ + t@,
{
    let v = chars_of(t);
    let mut i: usize = 0;
    while i < v.len()
        invariant
            i <= v@.len(),
            v@ == t@,
            s@ == old(s)@ + v@.take(i as int),
        decreases v.len() - i,
    {
        push_char(s, v[i]);
        assert(v@.take(i + 1) =~= v@.take(i as int).push(v@[i as int]));
        i = i + 1;
    }
    assert(v@.take(v@.len() as int) =~= v@);
}

/// A `String` with the chars of `a` followed by those of `b`.
pub fn concat2(a: &str, b: &str) -> (r: String)
    ensures
        r@ == a@ + b@,
{
    let mut r = String::new();
    append_str(&mut r, a);
    append_str(&mut r, b);
    assert(r@ =~= a@ + b@);
    r
}

/// A `String` with the chars of `a`, `b` and `c` in turn.
pub fn concat3(a: &str, b: &str, c: &str) -> (r: String)
    ensures
        r@ == a@ + b@ + c@,
{
    let mut r = String::new();
    append_str(&mut r, a);
    append_str(&mut r, b);
    append_str(&mut r, c);
    assert(r@ =~= a@ + b@ + c@);
    r
}

/// Whether two strings hold the same chars.
pub fn str_eq(a: &str, b: &str) -> (r: bool)
    ensures
        r == (a@ == b@),
{
    let x = chars_of(a);
    let y = chars_of(b);
    chars_eq(x.as_slice(), y.as_slice())
}

/// Whether two char slices are equal.
pub fn chars_eq(x: &[char], y: &[char]) -> (r: bool)
    ensures
        r == (x@ == y@),
{
    if x.len() != y.len() {
        return false;
    }
    let mut i: usize = 0;
    while i < x.len()
        invariant
            i <= x@.len(),
            x@.len() == y@.len(),
            x@.take(i as int) == y@.take(i as int),
        decreases x.len() - i,
    {
        if x[i] != y[i] {
            assert(x@[i as int] != y@[i as int]);
            return false;
        }
        assert(x@.take(i + 1) =~= x@.take(i as int).push(x@[i as int]));
        assert(y@.take(i + 1) =~= y@.take(i as int).push(y@[i as int]));
        i = i + 1;
    }
    assert(x@ =~= x@.take(i as int));
    assert(y@ =~= y@.take(i as int));
    true
}

// ---------------------------------------------------------------------------
// Prefixes and searching
// ---------------------------------------------------------------------------
/// `s` begins with `p`.
pub open spec fn starts_with(s: Seq<char>, p: Seq<char>) -> bool {
    p.len() <= s.len() && s.take(p.len() as int) == p
}

/// `s` ends with `p`.
pub open spec fn ends_with(s: Seq<char>, p: Seq<char>) -> bool {
    p.len() <= s.len() && s.skip(s.len() - p.len()) == p
}

/// `pat` occurs in `s` at index `i`.
pub open spec fn matches_at(s: Seq<char>, pat: Seq<char>, i: int) -> bool {
    0 <= i && i + pat.len() <= s.len() && s.subrange(i, i + pat.len()) == pat
}

/// The first index at or after `i` where `pat` occurs in `s`.
pub open spec fn find_from(s: Seq<char>, pat: Seq<char>, i: int) -> Option<int>
    decreases s.len() + 1 - i,
{
    if i < 0 || i + pat.len() > s.len() {
        None
    } else if matches_at(s, pat, i) {
        Some(i)
    } else {
        find_from(s, pat, i + 1)
    }
}

/// The first index where `pat` occurs in `s` (`str::find`, counted in chars).
pub open spec fn find(s: Seq<char>, pat: Seq<char>) -> Option<int> {
    find_from(s, pat, 0)
}

/// `pat` occurs somewhere in `s` (`str::contains`).
pub open spec fn contains(s: Seq<char>, pat: Seq<char>) -> bool {
    find(s, pat) is Some
}

/// `s` with its first occurrence of `old` replaced by `new` (`str::replacen(old, new, 1)`).
pub open spec fn replace_first(s: Seq<char>, old: Seq<char>, new: Seq<char>) -> Seq<char> {
    match find(s, old) {
        Some(i) => s.take(i) + new + s.skip(i + old.len()),
        None => s,
    }
}

/// What `find_from` gives: the index, if any, is a match and no earlier one is.
pub proof fn lemma_find_from(s: Seq<char>, pat: Seq<char>, i: int)
    requires
        0 <= i,
    ensures
        find_from(s, pat, i) matches Some(k) ==> i <= k && matches_at(s, pat, k) && forall|
            j: int,
        |
            i <= j < k ==> !matches_at(s, pat, j),
        find_from(s, pat, i) is None ==> forall|j: int| i <= j ==> !matches_at(s, pat, j),
    decreases s.len() + 1 - i,
{
    if i + pat.len() > s.len() {
    } else if matches_at(s, pat, i) {
    } else {
        lemma_find_from(s, pat, i + 1);
        assert forall|j: int| i <= j < i + 1 implies !matches_at(s, pat, j) by {}
    }
}

/// Searching a suffix of `s` finds the same matches, shifted.
pub proof fn lemma_find_shift(s: Seq<char>, pat: Seq<char>, i: int, q: int)
    requires
        0 <= i <= s.len(),
        0 <= q,
    ensures
        find_from(s.skip(i), pat, q) == (match find_from(s, pat, i + q) {
            Some(k) => Some(k - i),
            None => None,
        }),
    decreases s.len() + 1 - (i + q),
{
    let t = s.skip(i);
    if q + pat.len() > t.len() {
    } else {
        assert(t.subrange(q, q + pat.len()) =~= s.subrange(i + q, i + q + pat.len()));
        if !matches_at(t, pat, q) {
            lemma_find_shift(s, pat, i, q + 1);
        }
    }
}

/// Whether `pat` occurs in `s` at `i`.
pub fn chars_match_at(s: &[char], pat: &[char], i: usize) -> (r: bool)
    ensures
        r == matches_at(s@, pat@, i as int),
{
    if i > s.len() || pat.len() > s.len() - i {
        return false;
    }
    let mut j: usize = 0;
    while j < pat.len()
        invariant
            j <= pat@.len(),
            i + pat@.len() <= s@.len(),
            i + pat.len() <= s.len(),
            s@.subrange(i as int, i + j) == pat@.take(j as int),
        decreases pat.len() - j,
    {
        if s[i + j] != pat[j] {
            assert(s@.subrange(i as int, i + pat@.len())[j as int] != pat@[j as int]);
            return false;
        }
        assert(s@.subrange(i as int, i + j + 1) =~= s@.subrange(i as int, i + j).push(
            s@[i + j],
        ));
        assert(pat@.take(j + 1) =~= pat@.take(j as int).push(pat@[j as int]));
        j = j + 1;
    }
    assert(pat@.take(j as int) =~= pat@);
    true
}

/// The first index at or after `from` where `pat` occurs in `s`.
pub fn find_chars(s: &[char], pat: &[char], from: usize) -> (r: Option<usize>)
    ensures
        match r {
            Some(k) => find_from(s@, pat@, from as int) == Some(k as int),
            None => find_from(s@, pat@, from as int) is None,
        },
{
    let mut i: usize = from;
    loop
        invariant
            from <= i,
            find_from(s@, pat@, from as int) == find_from(s@, pat@, i as int),
        decreases s@.len() + 1 - i,
    {
        if i > s.len() || pat.len() > s.len() - i {
            return None;
        }
        if chars_match_at(s, pat, i) {
            return Some(i);
        }
        assert(pat@.len() > 0) by {
            if pat@.len() == 0 {
                assert(s@.subrange(i as int, i as int) =~= pat@);
            }
        }
        i = i + 1;
    }
}

/// Whether `t` begins with `p`.
pub fn chars_starts_with(t: &[char], p: &[char]) -> (r: bool)
    ensures
        r == starts_with(t@, p@),
{
    let r = chars_match_at(t, p, 0);
    assert(r ==> t@.take(p@.len() as int) =~= t@.subrange(0, p@.len() as int));
    assert(starts_with(t@, p@) ==> t@.take(p@.len() as int) =~= t@.subrange(0, p@.len() as int));
    r
}

/// Whether `s` begins with `p` (`str::starts_with`).
pub fn str_starts_with(s: &str, p: &str) -> (r: bool)
    ensures
        r == starts_with(s@, p@),
{
    let a = chars_of(s);
    let b = chars_of(p);
    chars_starts_with(a.as_slice(), b.as_slice())
}

/// Whether `pat` occurs in `s` (`str::contains`).
pub fn str_contains(s: &str, pat: &str) -> (r: bool)
    ensures
        r == contains(s@, pat@),
{
    let a = chars_of(s);
    let b = chars_of(pat);
    find_chars(a.as_slice(), b.as_slice(), 0).is_some()
}

// ---------------------------------------------------------------------------
// Lines and words
// ---------------------------------------------------------------------------
/// `line` without one trailing carriage return.
pub open spec fn strip_cr(line: Seq<char>) -> Seq<char> {
    if line.len() > 0 && line.last() == '\r' {
        line.drop_last()
    } else {
        line
    }
}

/// The lines of `s` as `str::lines` yields them: split at `\n`, one `\r`
/// before the `\n` dropped, and no empty last line after a final `\n`.
pub open spec fn lines(s: Seq<char>) -> Seq<Seq<char>>
    decreases s.len(),
{
    if s.len() == 0 {
        seq![]
    } else {
        match find(s, seq!['\n']) {
            Some(i) => {
                proof {
                    lemma_find_from(s, seq!['\n'], 0);
                }
                seq![strip_cr(s.take(i))] + lines(s.skip(i + 1))
            },
            None => seq![s],
        }
    }
}

/// Number of leading non-whitespace chars of `s`.
pub open spec fn word_len(s: Seq<char>) -> nat
    decreases s.len(),
{
    if s.len() == 0 || is_ws(s[0]) {
        0
    } else {
        1 + word_len(s.drop_first())
    }
}

/// A word is never longer than the text it starts.
pub proof fn lemma_word_len(s: Seq<char>)
    ensures
        word_len(s) <= s.len(),
        s.len() > 0 && !is_ws(s[0]) ==> word_len(s) >= 1,
    decreases s.len(),
{
    if s.len() > 0 && !is_ws(s[0]) {
        lemma_word_len(s.drop_first());
    }
}

/// The words of `s` as `str::split_whitespace` yields them.
pub open spec fn words(s: Seq<char>) -> Seq<Seq<char>>
    decreases s.len(),
{
    if s.len() == 0 {
        seq![]
    } else if is_ws(s[0]) {
        words(s.drop_first())
    } else {
        proof {
            lemma_word_len(s);
        }
        seq![s.take(word_len(s) as int)] + words(s.skip(word_len(s) as int))
    }
}

/// `parts` joined with `sep` between neighbours (`join`).
pub open spec fn join(parts: Seq<Seq<char>>, sep: Seq<char>) -> Seq<char>
    decreases parts.len(),
{
    if parts.len() == 0 {
        seq![]
    } else if parts.len() == 1 {
        parts[0]
    } else {
        join(parts.drop_last(), sep) + sep + parts.last()
    }
}

/// The first line of `s`, or `default` when it has none.
pub open spec fn first_line_or(s: Seq<char>, default: Seq<char>) -> Seq<char> {
    if lines(s).len() > 0 {
        lines(s)[0]
    } else {
        default
    }
}

/// Splits `s[from..to]` into lines; each line is a `(start, end)` pair of
/// indices into `s`.
pub fn line_bounds(s: &[char]) -> (r: Vec<(usize, usize)>)
    ensures
        r@.len() == lines(s@).len(),
        forall|k: int| 0 <= k < r@.len() ==> #[trigger] r@[k].0 <= r@[k].1 <= s@.len(),
        forall|k: int|
            0 <= k < r@.len() ==> s@.subrange(#[trigger] r@[k].0 as int, r@[k].1 as int)
                == lines(s@)[k],
{
    let mut r: Vec<(usize, usize)> = Vec::new();
    let n = s.len();
    let mut i: usize = 0;
    let nl = ['\n'];
    assert(nl@ =~= seq!['\n']);
    assert(s@.skip(0) =~= s@);
    while i < n
        invariant
            i <= n,
            n == s@.len(),
            nl@ == seq!['\n'],
            lines(s@) == r@.map_values(|p: (usize, usize)| s@.subrange(p.0 as int, p.1 as int))
                + lines(s@.skip(i as int)),
            forall|k: int| 0 <= k < r@.len() ==> #[trigger] r@[k].0 <= r@[k].1 <= s@.len(),
        decreases n - i,
    {
        let ghost rest = s@.skip(i as int);
        let f = find_chars(s, nl.as_slice(), i);
        proof {
            lemma_find_shift(s@, seq!['\n'], i as int, 0);
        }
        match f {
            Some(j) => {
                proof {
                    lemma_find_from(s@, seq!['\n'], i as int);
                }
                assert(find(rest, seq!['\n']) == Some((j - i) as int));
                let mut end = j;
                if end > i && s[end - 1] == '\r' {
                    end = end - 1;
                }
                assert(strip_cr(rest.take(j - i)) =~= s@.subrange(i as int, end as int));
                assert(rest.skip(j - i + 1) =~= s@.skip(j + 1));
                assert(lines(rest) == seq![strip_cr(rest.take(j - i))] + lines(rest.skip(j - i + 1)));
                let ghost old_r = r@;
                r.push((i, end));
                assert(r@.map_values(|p: (usize, usize)| s@.subrange(p.0 as int, p.1 as int))
                    =~= old_r.map_values(|p: (usize, usize)| s@.subrange(p.0 as int, p.1 as int))
                    + seq![s@.subrange(i as int, end as int)]);
                i = j + 1;
            },
            None => {
                assert(find(rest, seq!['\n']) is None);
                assert(rest =~= s@.subrange(i as int, n as int));
                let ghost old_r = r@;
                r.push((i, n));
                assert(r@.map_values(|p: (usize, usize)| s@.subrange(p.0 as int, p.1 as int))
                    =~= old_r.map_values(|p: (usize, usize)| s@.subrange(p.0 as int, p.1 as int))
                    + seq![s@.subrange(i as int, n as int)]);
                assert(s@.skip(n as int) =~= Seq::<char>::empty());
                i = n;
            },
        }
    }
    assert(s@.skip(i as int) =~= Seq::<char>::empty());
    let ghost m = r@.map_values(|p: (usize, usize)| s@.subrange(p.0 as int, p.1 as int));
    assert(lines(s@) =~= m);
    assert forall|k: int| 0 <= k < r@.len() implies r@[k].0 <= r@[k].1 <= s@.len() && s@.subrange(
        #[trigger] r@[k].0 as int,
        r@[k].1 as int,
    ) == lines(s@)[k] by {
        assert(m[k] == s@.subrange(r@[k].0 as int, r@[k].1 as int));
    }
    r
}

} // verus!

verus! {

/// Bounds of the words of `s`, as `(start, end)` index pairs.
pub fn word_bounds(s: &[char]) -> (r: Vec<(usize, usize)>)
    ensures
        r@.len() == words(s@).len(),
        forall|k: int| 0 <= k < r@.len() ==> #[trigger] r@[k].0 < r@[k].1 <= s@.len(),
        forall|k: int|
            0 <= k < r@.len() ==> s@.subrange(#[trigger] r@[k].0 as int, r@[k].1 as int)
                == words(s@)[k],
{
    let mut r: Vec<(usize, usize)> = Vec::new();
    let n = s.len();
    let mut i: usize = 0;
    assert(s@.skip(0) =~= s@);
    while i < n
        invariant
            i <= n,
            n == s@.len(),
            words(s@) == r@.map_values(|p: (usize, usize)| s@.subrange(p.0 as int, p.1 as int))
                + words(s@.skip(i as int)),
            forall|k: int| 0 <= k < r@.len() ==> #[trigger] r@[k].0 < r@[k].1 <= s@.len(),
        decreases n - i,
    {
        assert(s@.skip(i as int)[0] == s@[i as int]);
        if is_whitespace(s[i]) {
            assert(s@.skip(i as int).drop_first() =~= s@.skip(i + 1));
            i = i + 1;
        } else {
            let mut j: usize = i + 1;
            assert(s@.skip(i as int).drop_first() =~= s@.skip(j as int));
            while j < n && !is_whitespace(s[j])
                invariant
                    i < j <= n,
                    n == s@.len(),
                    word_len(s@.skip(i as int)) == (j - i) + word_len(s@.skip(j as int)),
                decreases n - j,
            {
                assert(s@.skip(j as int)[0] == s@[j as int]);
                assert(s@.skip(j as int).drop_first() =~= s@.skip(j + 1));
                j = j + 1;
            }
            assert(j < n ==> s@.skip(j as int)[0] == s@[j as int]);
            assert(word_len(s@.skip(j as int)) == 0);
            let ghost t = s@.skip(i as int);
            assert(t.take(j - i) =~= s@.subrange(i as int, j as int));
            assert(t.skip(j - i) =~= s@.skip(j as int));
            assert(words(t) == seq![t.take(word_len(t) as int)] + words(t.skip(word_len(t) as int)));
            let ghost old_r = r@;
            r.push((i, j));
            assert(r@.map_values(|p: (usize, usize)| s@.subrange(p.0 as int, p.1 as int))
                =~= old_r.map_values(|p: (usize, usize)| s@.subrange(p.0 as int, p.1 as int))
                + seq![s@.subrange(i as int, j as int)]);
            i = j;
        }
    }
    assert(s@.skip(i as int) =~= Seq::<char>::empty());
    let ghost m = r@.map_values(|p: (usize, usize)| s@.subrange(p.0 as int, p.1 as int));
    assert(words(s@) =~= m);
    assert forall|k: int| 0 <= k < r@.len() implies s@.subrange(
        #[trigger] r@[k].0 as int,
        r@[k].1 as int,
    ) == words(s@)[k] by {
        assert(m[k] == s@.subrange(r@[k].0 as int, r@[k].1 as int));
    }
    r
}

/// The words of `s` as owned strings (`split_whitespace`).
pub fn split_words(s: &[char]) -> (r: Vec<String>)
    ensures
        r@.map_values(|w: String| w@) == words(s@),
{
    let b = word_bounds(s);
    let mut r: Vec<String> = Vec::new();
    let mut k: usize = 0;
    while k < b.len()
        invariant
            k <= b@.len(),
            b@.len() == words(s@).len(),
            forall|q: int| 0 <= q < b@.len() ==> #[trigger] b@[q].0 < b@[q].1 <= s@.len(),
            forall|q: int|
                0 <= q < b@.len() ==> s@.subrange(#[trigger] b@[q].0 as int, b@[q].1 as int)
                    == words(s@)[q],
            r@.map_values(|w: String| w@) == words(s@).take(k as int),
        decreases b.len() - k,
    {
        let (x, y) = b[k];
        assert(x == b@[k as int].0 && y == b@[k as int].1);
        let w = string_from_range(s, x, y);
        let ghost old_r = r@;
        r.push(w);
        assert(r@.map_values(|w: String| w@) =~= old_r.map_values(|w: String| w@).push(w@));
        assert(words(s@).take(k + 1) =~= words(s@).take(k as int).push(words(s@)[k as int]));
        k = k + 1;
    }
    assert(words(s@).take(k as int) =~= words(s@));
    r
}

/// Joins `parts` with `sep` between neighbours (`parts.join(sep)`).
pub fn join_strings(parts: &Vec<String>, sep: &str) -> (r: String)
    ensures
        r@ == join(parts@.map_values(|p: String| p@), sep@),
{
    let ghost views = parts@.map_values(|p: String| p@);
    let mut r = String::new();
    let mut i: usize = 0;
    assert(views.take(0) =~= Seq::<Seq<char>>::empty());
    while i < parts.len()
        invariant
            i <= parts@.len(),
            views == parts@.map_values(|p: String| p@),
            r@ == join(views.take(i as int), sep@),
        decreases parts.len() - i,
    {
        assert(views.take(i + 1).drop_last() =~= views.take(i as int));
        assert(views.take(i + 1).last() == parts@[i as int]@);
        if i == 0 {
            append_str(&mut r, parts[i].as_str());
            assert(r@ =~= parts@[0]@);
        } else {
            append_str(&mut r, sep);
            append_str(&mut r, parts[i].as_str());
        }
        i = i + 1;
    }
    assert(views.take(i as int) =~= views);
    r
}

// ---------------------------------------------------------------------------
// Decimal numbers
// ---------------------------------------------------------------------------
/// The decimal digit for `d < 10`.
pub open spec fn digit_char(d: nat) -> char {
    if d == 0 {
        '0'
    } else if d == 1 {
        '1'
    } else if d == 2 {
        '2'
    } else if d == 3 {
        '3'
    } else if d == 4 {
        '4'
    } else if d == 5 {
        '5'
    } else if d == 6 {
        '6'
    } else if d == 7 {
        '7'
    } else if d == 8 {
        '8'
    } else {
        '9'
    }
}

/// The decimal notation of `n`, as `Display` writes an unsigned integer.
pub open spec fn decimal(n: nat) -> Seq<char>
    decreases n,
{
    if n < 10 {
        seq![digit_char(n)]
    } else {
        decimal(n / 10).push(digit_char(n % 10))
    }
}

fn digit(d: usize) -> (c: char)
    requires
        d < 10,
    ensures
        c == digit_char(d as nat),
{
    if d == 0 {
        '0'
    } else if d == 1 {
        '1'
    } else if d == 2 {
        '2'
    } else if d == 3 {
        '3'
    } else if d == 4 {
        '4'
    } else if d == 5 {
        '5'
    } else if d == 6 {
        '6'
    } else if d == 7 {
        '7'
    } else if d == 8 {
        '8'
    } else {
        '9'
    }
}

/// The decimal notation of `n` (`n.to_string()`).
pub fn decimal_string(n: usize) -> (r: String)
    ensures
        r@ == decimal(n as nat),
{
    let mut acc: Vec<char> = Vec::new();
    let mut m: usize = n;
    while m >= 10
        invariant
            decimal(n as nat) == decimal(m as nat) + acc@,
        decreases m,
    {
        let d = digit(m % 10);
        acc.insert(0, d);
        assert(decimal(m as nat) == decimal((m / 10) as nat).push(d));
        m = m / 10;
        assert(decimal(n as nat) =~= decimal(m as nat) + acc@);
    }
    let d = digit(m);
    acc.insert(0, d);
    assert(decimal(n as nat) =~= acc@);
    string_from_chars(acc.as_slice())
}

// ---------------------------------------------------------------------------
// UTF-8 lengths
// ---------------------------------------------------------------------------
/// Bytes in the UTF-8 encoding of `c`.
pub open spec fn char_width(c: char) -> nat {
    let v = c as u32;
    if v < 0x80 {
        1
    } else if v < 0x800 {
        2
    } else if v < 0x10000 {
        3
    } else {
        4
    }
}

/// Bytes in the UTF-8 encoding of `s`.
pub open spec fn utf8_len(s: Seq<char>) -> nat
    decreases s.len(),
{
    if s.len() == 0 {
        0
    } else {
        utf8_len(s.drop_last()) + char_width(s.last())
    }
}

/// Byte offset of the char at index `k` of `s`.
pub open spec fn byte_offset(s: Seq<char>, k: int) -> nat {
    utf8_len(s.take(k))
}

/// `b` is the byte offset of some char index of `s` (or of its end).
pub open spec fn is_boundary(s: Seq<char>, b: int) -> bool {
    exists|k: int| 0 <= k <= s.len() && byte_offset(s, k) == b
}

/// `utf8_len` adds up over concatenation.
pub proof fn lemma_utf8_len_concat(a: Seq<char>, b: Seq<char>)
    ensures
        utf8_len(a + b) == utf8_len(a) + utf8_len(b),
    decreases b.len(),
{
    if b.len() == 0 {
        assert(a + b =~= a);
    } else {
        assert((a + b).drop_last() =~= a + b.drop_last());
        lemma_utf8_len_concat(a, b.drop_last());
    }
}

/// Byte offsets grow strictly with the char index.
pub proof fn lemma_byte_offset_mono(s: Seq<char>, j: int, k: int)
    requires
        0 <= j <= k <= s.len(),
    ensures
        byte_offset(s, j) + (k - j) <= byte_offset(s, k),
        j < k ==> byte_offset(s, j) < byte_offset(s, k),
    decreases k - j,
{
    if j < k {
        lemma_byte_offset_mono(s, j, k - 1);
        assert(s.take(k).drop_last() =~= s.take(k - 1));
    }
}

/// Each char index has its own byte offset.
pub proof fn lemma_byte_offset_injective(s: Seq<char>, j: int, k: int)
    requires
        0 <= j <= s.len(),
        0 <= k <= s.len(),
        byte_offset(s, j) == byte_offset(s, k),
    ensures
        j == k,
{
    if j < k {
        lemma_byte_offset_mono(s, j, k);
    } else if k < j {
        lemma_byte_offset_mono(s, k, j);
    }
}

/// `utf8_len` is the length of vstd's UTF-8 encoding.
pub proof fn lemma_utf8_len_encode(s: Seq<char>)
    ensures
        utf8_len(s) == vstd::utf8::encode_utf8(s).len(),
    decreases s.len(),
{
    broadcast use vstd::utf8::char_is_scalar;

    if s.len() > 0 {
        lemma_utf8_len_encode(s.drop_first());
        assert(s =~= seq![s[0]] + s.drop_first());
        lemma_utf8_len_concat(seq![s[0]], s.drop_first());
        assert(seq![s[0]].drop_last() =~= Seq::<char>::empty());
        vstd::utf8::char_is_scalar(s[0]);
        let v = s[0] as u32;
        assert(vstd::utf8::encode_scalar(v).len() == char_width(s[0]));
        assert(utf8_len(seq![s[0]]) == char_width(s[0])) by {
            assert(seq![s[0]].drop_last() =~= Seq::<char>::empty());
            assert(seq![s[0]].last() == s[0]);
            assert(utf8_len(Seq::<char>::empty()) == 0);
        }
        assert(vstd::utf8::encode_utf8(s).len() == vstd::utf8::encode_scalar(v).len()
            + vstd::utf8::encode_utf8(s.drop_first()).len());
    }
}

/// Bytes in the UTF-8 encoding of `c` (`char::len_utf8`).
pub fn char_len_utf8(c: char) -> (n: usize)
    ensures
        n == char_width(c),
{
    let v = c as u32;
    if v < 0x80 {
        1
    } else if v < 0x800 {
        2
    } else if v < 0x10000 {
        3
    } else {
        4
    }
}

/// Byte length of `s` (`str::len`): the length of its UTF-8 encoding.
pub fn str_byte_len(s: &str) -> (n: usize)
    ensures
        n == utf8_len(s@),
{
    let b = s.as_bytes();
    proof {
        lemma_utf8_len_encode(s@);
    }
    b.len()
}

/// The length in bytes of `s`: the length of the UTF-8 encoding of its chars.
pub(crate) fn string_len(s: &String) -> (n: usize)
    ensures
        n == utf8_len(s@),
{
    str_byte_len(s.as_str())
}

/// The index of the char that starts at byte `b` of `s`.
pub open spec fn char_index(s: Seq<char>, b: int) -> int {
    choose|k: int| 0 <= k <= s.len() && byte_offset(s, k) == b
}

/// `char_index` picks the one index whose offset is `b`.
pub proof fn lemma_char_index(s: Seq<char>, k: int)
    requires
        0 <= k <= s.len(),
    ensures
        char_index(s, byte_offset(s, k) as int) == k,
        is_boundary(s, byte_offset(s, k) as int),
{
    let b = byte_offset(s, k) as int;
    assert(is_boundary(s, b));
    let j = char_index(s, b);
    lemma_byte_offset_injective(s, j, k);
}

/// The offset of the next char is the offset of this one plus its width.
pub proof fn lemma_byte_offset_step(s: Seq<char>, k: int)
    requires
        0 <= k < s.len(),
    ensures
        byte_offset(s, k + 1) == byte_offset(s, k) + char_width(s[k]),
{
    assert(s.take(k + 1).drop_last() =~= s.take(k));
}

/// The whole text ends at the offset of its length.
pub proof fn lemma_byte_offset_len(s: Seq<char>)
    ensures
        byte_offset(s, s.len() as int) == utf8_len(s),
{
    assert(s.take(s.len() as int) =~= s);
}

/// The byte offset of char index `k` of `v`.
pub fn offset_of_char(v: &[char], k: usize) -> (r: usize)
    requires
        k <= v@.len(),
        utf8_len(v@) <= usize::MAX,
    ensures
        r == byte_offset(v@, k as int),
{
    let mut off: usize = 0;
    let mut i: usize = 0;
    assert(v@.take(0) =~= Seq::<char>::empty());
    while i < k
        invariant
            i <= k <= v@.len(),
            utf8_len(v@) <= usize::MAX,
            off == byte_offset(v@, i as int),
        decreases k - i,
    {
        proof {
            lemma_byte_offset_step(v@, i as int);
            lemma_byte_offset_mono(v@, i + 1, v@.len() as int);
            lemma_byte_offset_len(v@);
        }
        off = off + char_len_utf8(v[i]);
        i = i + 1;
    }
    off
}

/// Whether byte `b` is where a char of `v` starts, or its end.
pub fn is_boundary_at(v: &[char], b: usize) -> (r: bool)
    ensures
        r == is_boundary(v@, b as int),
{
    let mut off: usize = 0;
    let mut k: usize = 0;
    assert(v@.take(0) =~= Seq::<char>::empty());
    while k < v.len() && off < b
        invariant
            k <= v@.len(),
            off <= b,
            off == byte_offset(v@, k as int),
            forall|j: int| 0 <= j < k ==> byte_offset(v@, j) < b,
        decreases v@.len() - k,
    {
        proof {
            lemma_byte_offset_step(v@, k as int);
            assert forall|j: int| 0 <= j < k implies byte_offset(v@, j) < byte_offset(v@, k as int) by {
                lemma_byte_offset_mono(v@, j, k as int);
            }
        }
        let w = char_len_utf8(v[k]);
        if w > b - off {
            proof {
                assert forall|j: int| 0 <= j <= v@.len() implies byte_offset(v@, j) != b by {
                    if j > k {
                        lemma_byte_offset_mono(v@, k + 1, j);
                    }
                }
            }
            return false;
        }
        off = off + w;
        k = k + 1;
    }
    if off == b {
        true
    } else {
        proof {
            assert forall|j: int| 0 <= j <= v@.len() implies byte_offset(v@, j) != b by {
                if j == k {
                } else if j > k {
                    assert(k == v@.len());
                }
            }
        }
        false
    }
}

/// The length of `s` without its trailing whitespace.
pub fn trim_end_len(s: &[char]) -> (r: usize)
    ensures
        r <= s@.len(),
        s@.take(r as int) == trim_end(s@),
{
    let mut e: usize = s.len();
    assert(s@.take(e as int) =~= s@);
    while e > 0 && is_whitespace(s[e - 1])
        invariant
            e <= s@.len(),
            trim_end(s@) == trim_end(s@.take(e as int)),
        decreases e,
    {
        assert(s@.take(e as int).drop_last() =~= s@.take(e - 1));
        e = e - 1;
    }
    e
}

/// The lines of `s` (`str::lines`), each as its own `String`.
pub fn split_lines(s: &[char]) -> (r: Vec<String>)
    ensures
        strings_view(r@) == lines(s@),
{
    let b = line_bounds(s);
    let mut r: Vec<String> = Vec::new();
    let mut k: usize = 0;
    while k < b.len()
        invariant
            k <= b@.len(),
            b@.len() == lines(s@).len(),
            forall|j: int| 0 <= j < b@.len() ==> #[trigger] b@[j].0 <= b@[j].1 <= s@.len(),
            forall|j: int|
                0 <= j < b@.len() ==> s@.subrange(#[trigger] b@[j].0 as int, b@[j].1 as int)
                    == lines(s@)[j],
            strings_view(r@) == lines(s@).take(k as int),
        decreases b.len() - k,
    {
        let (lo, hi) = b[k];
        let line = string_from_range(s, lo, hi);
        assert(line@ == lines(s@)[k as int]) by {
            assert(s@.subrange(b@[k as int].0 as int, b@[k as int].1 as int) == lines(s@)[k as int]);
        }
        let ghost old_r = r@;
        r.push(line);
        assert(strings_view(r@) =~= strings_view(old_r).push(lines(s@)[k as int]));
        assert(lines(s@).take(k + 1) =~= lines(s@).take(k as int).push(lines(s@)[k as int]));
        k = k + 1;
    }
    assert(lines(s@).take(k as int) =~= lines(s@));
    r
}

/// The char index whose offset is the boundary `b` of `v`.
pub fn char_index_of(v: &[char], b: usize) -> (k: usize)
    requires
        is_boundary(v@, b as int),
    ensures
        k <= v@.len(),
        byte_offset(v@, k as int) == b,
        k == char_index(v@, b as int),
{
    let ghost kb = choose|k: int| 0 <= k <= v@.len() && byte_offset(v@, k) == b;
    let mut off: usize = 0;
    let mut k: usize = 0;
    assert(v@.take(0) =~= Seq::<char>::empty());
    while off < b
        invariant
            0 <= kb <= v@.len(),
            byte_offset(v@, kb) == b,
            k <= kb,
            off == byte_offset(v@, k as int),
        decreases kb - k,
    {
        proof {
            if k == kb {
                assert(false);
            }
            lemma_byte_offset_step(v@, k as int);
            lemma_byte_offset_mono(v@, k + 1, kb);
        }
        off = off + char_len_utf8(v[k]);
        k = k + 1;
    }
    proof {
        if k < kb {
            lemma_byte_offset_mono(v@, k as int, kb);
        }
        lemma_char_index(v@, k as int);
    }
    k
}

} // verus!

verus! {

/// A copy of `v[a..b]`.
pub fn copy_range(v: &[char], a: usize, b: usize) -> (r: Vec<char>)
    requires
        a <= b <= v@.len(),
    ensures
        r@ == v@.subrange(a as int, b as int),
{
    let mut r: Vec<char> = Vec::new();
    let mut i: usize = a;
    while i < b
        invariant
            a <= i <= b,
            b <= v@.len(),
            r@ == v@.subrange(a as int, i as int),
        decreases b - i,
    {
        r.push(v[i]);
        assert(v@.subrange(a as int, i + 1) =~= v@.subrange(a as int, i as int).push(v@[i as int]));
        i = i + 1;
    }
    r
}

} // verus!

verus! {

/// The code of `c` with ASCII upper case mapped to lower case.
pub open spec fn ascii_lower(c: char) -> u32 {
    let v = c as u32;
    if 0x41 <= v <= 0x5a {
        (v + 32) as u32
    } else {
        v
    }
}

/// `a` and `b` are equal up to ASCII case (`eq_ignore_ascii_case`).
pub open spec fn eq_ignore_ascii_case(a: Seq<char>, b: Seq<char>) -> bool {
    a.len() == b.len() && forall|i: int| 0 <= i < a.len() ==> #[trigger] ascii_lower(a[i])
        == ascii_lower(b[i])
}

fn lower_code(c: char) -> (r: u32)
    ensures
        r == ascii_lower(c),
{
    let v = c as u32;
    if 0x41 <= v && v <= 0x5a {
        v + 32
    } else {
        v
    }
}

/// Whether `a` and `b` are equal up to ASCII case.
pub fn str_eq_ignore_ascii_case(a: &str, b: &str) -> (r: bool)
    ensures
        r == eq_ignore_ascii_case(a@, b@),
{
    let x = chars_of(a);
    let y = chars_of(b);
    if x.len() != y.len() {
        return false;
    }
    let mut i: usize = 0;
    while i < x.len()
        invariant
            i <= x@.len(),
            x@.len() == y@.len(),
            x@ == a@,
            y@ == b@,
            forall|j: int| 0 <= j < i ==> #[trigger] ascii_lower(x@[j]) == ascii_lower(y@[j]),
        decreases x.len() - i,
    {
        if lower_code(x[i]) != lower_code(y[i]) {
            return false;
        }
        i = i + 1;
    }
    true
}

/// Unicode lower case of `s`, as `str::to_lowercase` gives it.
pub uninterp spec fn unicode_lowercase(s: Seq<char>) -> Seq<char>;

/// `s` in lower case, by `str::to_lowercase` (full Unicode case mapping).
/// The contract names the result `unicode_lowercase(s)` and claims no more.
#[verifier::external_body]
pub(crate) fn to_lowercase(s: &str) -> (r: String)
    ensures
        r@ == unicode_lowercase(s@),
{
    s.to_lowercase()
}

} // verus!

verus! {

/// `a` comes before or equals `b` in code-point order, the order of `str`.
pub open spec fn lex_le(a: Seq<char>, b: Seq<char>) -> bool
    decreases a.len(),
{
    if a.len() == 0 {
        true
    } else if b.len() == 0 {
        false
    } else if a[0] != b[0] {
        (a[0] as u32) < (b[0] as u32)
    } else {
        lex_le(a.drop_first(), b.drop_first())
    }
}

/// Any two texts are ordered one way or the other.
pub proof fn lemma_lex_total(a: Seq<char>, b: Seq<char>)
    ensures
        lex_le(a, b) || lex_le(b, a),
    decreases a.len(),
{
    if a.len() > 0 && b.len() > 0 && a[0] == b[0] {
        lemma_lex_total(a.drop_first(), b.drop_first());
    } else if a.len() > 0 && b.len() > 0 {
        vstd::utf8::char_u32_cast(a[0], a[0] as u32);
        vstd::utf8::char_u32_cast(b[0], b[0] as u32);
    }
}

/// The order is transitive.
pub proof fn lemma_lex_trans(a: Seq<char>, b: Seq<char>, c: Seq<char>)
    requires
        lex_le(a, b),
        lex_le(b, c),
    ensures
        lex_le(a, c),
    decreases a.len(),
{
    if a.len() > 0 && b.len() > 0 && c.len() > 0 && a[0] == b[0] && b[0] == c[0] {
        lemma_lex_trans(a.drop_first(), b.drop_first(), c.drop_first());
    }
}

/// Whether `a` comes before or equals `b` in code-point order.
pub fn lex_le_chars(a: &[char], b: &[char]) -> (r: bool)
    ensures
        r == lex_le(a@, b@),
{
    let mut i: usize = 0;
    assert(a@.skip(0) =~= a@);
    assert(b@.skip(0) =~= b@);
    loop
        invariant
            i <= a@.len(),
            i <= b@.len(),
            lex_le(a@, b@) == lex_le(a@.skip(i as int), b@.skip(i as int)),
        decreases a@.len() - i,
    {
        if i == a.len() {
            return true;
        }
        if i == b.len() {
            return false;
        }
        assert(a@.skip(i as int)[0] == a@[i as int]);
        assert(b@.skip(i as int)[0] == b@[i as int]);
        if a[i] != b[i] {
            return (a[i] as u32) < (b[i] as u32);
        }
        assert(a@.skip(i as int).drop_first() =~= a@.skip(i + 1));
        assert(b@.skip(i as int).drop_first() =~= b@.skip(i + 1));
        i = i + 1;
    }
}

/// A copy of a list of strings.
pub fn clone_strings(v: &Vec<String>) -> (r: Vec<String>)
    ensures
        r@ == v@,
{
    let mut r: Vec<String> = Vec::new();
    let mut i: usize = 0;
    while i < v.len()
        invariant
            i <= v@.len(),
            r@ == v@.take(i as int),
        decreases v.len() - i,
    {
        r.push(v[i].clone());
        assert(v@.take(i + 1) =~= v@.take(i as int).push(v@[i as int]));
        i = i + 1;
    }
    assert(v@.take(i as int) =~= v@);
    r
}

/// `s` without the `c`s at its end (`trim_end_matches(c)`).
pub open spec fn strip_trailing(s: Seq<char>, c: char) -> Seq<char>
    decreases s.len(),
{
    if s.len() > 0 && s.last() == c {
        strip_trailing(s.drop_last(), c)
    } else {
        s
    }
}

/// `s` without the `c`s at its end.
pub fn strip_trailing_str(s: &str, c: char) -> (r: String)
    ensures
        r@ == strip_trailing(s@, c),
{
    let v = chars_of(s);
    let mut e: usize = v.len();
    assert(v@.subrange(0, e as int) =~= v@);
    while e > 0 && v[e - 1] == c
        invariant
            e <= v@.len(),
            strip_trailing(s@, c) == strip_trailing(v@.subrange(0, e as int), c),
            v@ == s@,
        decreases e,
    {
        assert(v@.subrange(0, e as int).drop_last() =~= v@.subrange(0, e - 1));
        e = e - 1;
    }
    string_from_range(v.as_slice(), 0, e)
}

/// A list of strings as a sequence of character sequences.
pub open spec fn strings_view(v: Seq<String>) -> Seq<Seq<char>> {
    v.map_values(|s: String| s@)
}

/// The texts are in code-point order.
pub open spec fn sorted_lex(s: Seq<Seq<char>>) -> bool {
    forall|i: int, j: int| 0 <= i < j < s.len() ==> lex_le(#[trigger] s[i], #[trigger] s[j])
}

/// Inserts `x` into the ordered list `out` after the texts that come before or equal it.
fn insert_sorted(out: &mut Vec<String>, x: String)
    requires
        sorted_lex(strings_view(old(out)@)),
    ensures
        sorted_lex(strings_view(final(out)@)),
        strings_view(final(out)@).to_multiset() == strings_view(old(out)@).to_multiset().insert(
            x@,
        ),
{
    let key = chars_of(x.as_str());
    let mut p: usize = 0;
    while p < out.len() && lex_le_chars(chars_of(out[p].as_str()).as_slice(), key.as_slice())
        invariant
            p <= out@.len(),
            key@ == x@,
            forall|j: int| 0 <= j < p ==> lex_le(#[trigger] out@[j]@, x@),
        decreases out.len() - p,
    {
        p = p + 1;
    }
    let ghost before = strings_view(out@);
    proof {
        broadcast use vstd::seq_lib::group_to_multiset_ensures;

        if p < before.len() {
            lemma_lex_total(before[p as int], x@);
        }
        assert forall|j: int| p <= j < before.len() implies lex_le(x@, #[trigger] before[j]) by {
            if j > p {
                lemma_lex_trans(x@, before[p as int], before[j]);
            }
        }
        assert(strings_view(out@.insert(p as int, x)) =~= before.insert(p as int, x@));
        assert(before.insert(p as int, x@).to_multiset() == before.to_multiset().insert(x@));
    }
    out.insert(p, x);
    proof {
        let after = strings_view(out@);
        assert forall|i: int, j: int| 0 <= i < j < after.len() implies lex_le(
            #[trigger] after[i],
            #[trigger] after[j],
        ) by {
            if j < p {
                assert(after[i] == before[i] && after[j] == before[j]);
            } else if j == p {
                assert(after[i] == before[i]);
            } else if i < p {
                assert(after[i] == before[i] && after[j] == before[j - 1]);
                lemma_lex_trans(before[i], after[p as int], before[j - 1]);
            } else if i == p {
                assert(after[j] == before[j - 1]);
            } else {
                assert(after[i] == before[i - 1] && after[j] == before[j - 1]);
            }
        }
    }
}

/// The strings of `v` in code-point order, as `sort` orders `String`s.
pub fn sort_strings(v: Vec<String>) -> (r: Vec<String>)
    ensures
        sorted_lex(strings_view(r@)),
        strings_view(r@).to_multiset() == strings_view(v@).to_multiset(),
{
    let ghost all = strings_view(v@);
    let mut rest = v;
    let mut out: Vec<String> = Vec::new();
    assert(strings_view(out@) =~= all.take(0));
    assert(strings_view(rest@) =~= all.skip(0));
    while rest.len() > 0
        invariant
            rest@.len() <= all.len(),
            strings_view(rest@) == all.skip(all.len() - rest@.len()),
            sorted_lex(strings_view(out@)),
            strings_view(out@).to_multiset() == all.take(all.len() - rest@.len()).to_multiset(),
        decreases rest.len(),
    {
        let ghost i = all.len() - rest@.len();
        let ghost before_rest = rest@;
        let x = rest.remove(0);
        proof {
            broadcast use vstd::seq_lib::group_to_multiset_ensures;

            assert(x@ == all[i]) by {
                assert(strings_view(before_rest)[0] == all.skip(i)[0]);
            }
            assert(strings_view(rest@) =~= all.skip(i + 1)) by {
                assert forall|j: int| 0 <= j < rest@.len() implies strings_view(rest@)[j]
                    == all.skip(i + 1)[j] by {
                    assert(strings_view(before_rest)[j + 1] == all.skip(i)[j + 1]);
                }
            }
            assert(all.take(i + 1) =~= all.take(i).push(x@));
        }
        insert_sorted(&mut out, x);
    }
    assert(all.take(all.len() as int) =~= all);
    out
}

/// What `String::from_utf8_lossy` decodes from these bytes.
pub uninterp spec fn utf8_lossy(bytes: Seq<u8>) -> Seq<char>;

/// Decodes bytes by `String::from_utf8_lossy`: malformed sequences become
/// U+FFFD. The result is named; for valid UTF-8 it is the decoded text, as
/// the documentation promises (the input is then returned as it is).
#[verifier::external_body]
pub(crate) fn decode_utf8_lossy(bytes: &[u8]) -> (r: String)
    ensures
        r@ == utf8_lossy(bytes@),
        vstd::utf8::valid_utf8(bytes@) ==> r@ == vstd::utf8::decode_utf8(bytes@),
{
    String::from_utf8_lossy(bytes).into_owned()
}

} // verus!
