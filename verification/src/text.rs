//! Character-level text utilities: the character classes the recognition
//! rules are written over, case-insensitive comparison, and conversions
//! between strings and character vectors. All matching in this library is
//! done on plain character sequences, so everything here is verified
//! against spec functions over `Seq<char>`.

use vstd::prelude::*;

verus! {

/// ASCII decimal digit.
pub open spec fn spec_is_digit(c: char) -> bool {
    '0' <= c && c <= '9'
}

/// ASCII whitespace as the recognition rules treat it.
pub open spec fn spec_is_space(c: char) -> bool {
    c == ' ' || c == '\t' || c == '\n' || c == '\r' || c == '\u{b}' || c == '\u{c}'
}

/// Separator characters that may bound a token inside a release name.
pub open spec fn spec_is_sep(c: char) -> bool {
    spec_is_space(c) || c == '.' || c == '_' || c == '-'
}

pub open spec fn spec_is_upper(c: char) -> bool {
    'A' <= c && c <= 'Z'
}

pub open spec fn spec_is_lower(c: char) -> bool {
    'a' <= c && c <= 'z'
}

pub open spec fn spec_is_alnum(c: char) -> bool {
    spec_is_digit(c) || spec_is_upper(c) || spec_is_lower(c)
}

/// Word character for the purpose of word boundaries.
pub open spec fn spec_is_word(c: char) -> bool {
    spec_is_alnum(c) || c == '_'
}

/// Case-insensitive character equality, folding ASCII letters only.
pub open spec fn spec_eq_ci(a: char, b: char) -> bool {
    a == b || (spec_is_upper(a) && spec_is_lower(b) && a as u32 + 32 == b as u32) || (spec_is_upper(
        b,
    ) && spec_is_lower(a) && b as u32 + 32 == a as u32)
}

pub fn is_digit(c: char) -> (r: bool)
    ensures
        r == spec_is_digit(c),
{
    '0' <= c && c <= '9'
}

pub fn is_space(c: char) -> (r: bool)
    ensures
        r == spec_is_space(c),
{
    c == ' ' || c == '\t' || c == '\n' || c == '\r' || c == '\u{b}' || c == '\u{c}'
}

pub fn is_sep(c: char) -> (r: bool)
    ensures
        r == spec_is_sep(c),
{
    is_space(c) || c == '.' || c == '_' || c == '-'
}

pub fn is_word(c: char) -> (r: bool)
    ensures
        r == spec_is_word(c),
{
    ('0' <= c && c <= '9') || ('A' <= c && c <= 'Z') || ('a' <= c && c <= 'z') || c == '_'
}

pub fn is_alnum(c: char) -> (r: bool)
    ensures
        r == spec_is_alnum(c),
{
    ('0' <= c && c <= '9') || ('A' <= c && c <= 'Z') || ('a' <= c && c <= 'z')
}

pub fn eq_ci(a: char, b: char) -> (r: bool)
    ensures
        r == spec_eq_ci(a, b),
{
    if a == b {
        true
    } else {
        let au = a as u32;
        let bu = b as u32;
        let a_up = 'A' <= a && a <= 'Z';
        let b_up = 'A' <= b && b <= 'Z';
        let a_lo = 'a' <= a && a <= 'z';
        let b_lo = 'a' <= b && b <= 'z';
        (a_up && b_lo && au + 32 == bu) || (b_up && a_lo && bu + 32 == au)
    }
}

/// ASCII lower-casing of one character.
pub open spec fn spec_lower(c: char) -> char {
    if spec_is_upper(c) {
        (c as u32 + 32) as char
    } else {
        c
    }
}

pub fn lower(c: char) -> (r: char)
    ensures
        r == spec_lower(c),
{
    match c {
        'A' => 'a',
        'B' => 'b',
        'C' => 'c',
        'D' => 'd',
        'E' => 'e',
        'F' => 'f',
        'G' => 'g',
        'H' => 'h',
        'I' => 'i',
        'J' => 'j',
        'K' => 'k',
        'L' => 'l',
        'M' => 'm',
        'N' => 'n',
        'O' => 'o',
        'P' => 'p',
        'Q' => 'q',
        'R' => 'r',
        'S' => 's',
        'T' => 't',
        'U' => 'u',
        'V' => 'v',
        'W' => 'w',
        'X' => 'x',
        'Y' => 'y',
        'Z' => 'z',
        _ => c,
    }
}

/// Equality of two strings, compared character by character.
pub fn str_eq(a: &str, b: &str) -> (r: bool)
    ensures
        r == (a@ == b@),
{
    let an = a.unicode_len();
    let bn = b.unicode_len();
    if an != bn {
        assert(a@ != b@) by {
            assert(a@.len() != b@.len());
        }
        return false;
    }
    let mut i: usize = 0;
    while i < an
        invariant
            i <= an,
            an == a@.len(),
            an == b@.len(),
            forall|k: int| 0 <= k < i ==> a@[k] == b@[k],
        decreases an - i,
    {
        if a.get_char(i) != b.get_char(i) {
            return false;
        }
        i += 1;
    }
    proof {
        assert(a@ =~= b@);
    }
    true
}

/// Case-insensitive equality of a string against a pattern string.
pub open spec fn spec_eq_ci_seq(a: Seq<char>, b: Seq<char>) -> bool {
    a.len() == b.len() && forall|k: int| 0 <= k < a.len() ==> spec_eq_ci(a[k], b[k])
}

pub fn str_eq_ci(a: &str, b: &str) -> (r: bool)
    ensures
        r == spec_eq_ci_seq(a@, b@),
{
    let an = a.unicode_len();
    let bn = b.unicode_len();
    if an != bn {
        return false;
    }
    let mut i: usize = 0;
    while i < an
        invariant
            i <= an,
            an == a@.len(),
            an == b@.len(),
            forall|k: int| 0 <= k < i ==> spec_eq_ci(a@[k], b@[k]),
        decreases an - i,
    {
        if !eq_ci(a.get_char(i), b.get_char(i)) {
            return false;
        }
        i += 1;
    }
    true
}

/// Turn a string into the vector of its characters.
pub fn to_chars(s: &str) -> (v: Vec<char>)
    ensures
        v@ == s@,
{
    let n = s.unicode_len();
    let mut v: Vec<char> = Vec::new();
    let mut i: usize = 0;
    while i < n
        invariant
            i <= n,
            n == s@.len(),
            v@ == s@.take(i as int),
        decreases n - i,
    {
        v.push(s.get_char(i));
        proof {
            assert(v@ =~= s@.take(i + 1 as int));
        }
        i += 1;
    }
    proof {
        assert(v@ =~= s@);
    }
    v
}

/// Relies on `String`'s `FromIterator` implementation: collecting the
/// vector's characters builds exactly the string of those characters.
#[verifier::external_body]
pub fn from_chars(v: &Vec<char>) -> (s: String)
    ensures
        s@ == v@,
{
    v.iter().collect()
}

/// ASCII lower-casing of a whole sequence.
pub open spec fn spec_lower_seq(s: Seq<char>) -> Seq<char> {
    s.map_values(|c: char| spec_lower(c))
}

/// First index at or after `from` holding `c`, if any.
pub open spec fn spec_find_char_from(s: Seq<char>, from: int, c: char) -> Option<int>
    decreases s.len() - from,
        when 0 <= from
{
    if from < 0 || from >= s.len() {
        None
    } else if s[from] == c {
        Some(from)
    } else {
        spec_find_char_from(s, from + 1, c)
    }
}

pub proof fn lemma_find_char_from(s: Seq<char>, from: int, c: char)
    requires
        0 <= from,
    ensures
        match spec_find_char_from(s, from, c) {
            Some(j) => from <= j < s.len() && s[j] == c && (forall|k: int|
                from <= k < j ==> s[k] != c),
            None => forall|k: int| from <= k < s.len() ==> s[k] != c,
        },
    decreases s.len() - from,
{
    if from < s.len() && s[from] != c {
        lemma_find_char_from(s, from + 1, c);
    }
}

pub fn find_char_from(v: &Vec<char>, from: usize, c: char) -> (r: Option<usize>)
    ensures
        match r {
            Some(j) => spec_find_char_from(v@, from as int, c) == Some(j as int) && from <= j
                < v@.len() && v@[j as int] == c,
            None => spec_find_char_from(v@, from as int, c) is None,
        },
{
    let mut i: usize = from;
    while i < v.len()
        invariant
            from <= i,
            spec_find_char_from(v@, from as int, c) == spec_find_char_from(v@, i as int, c),
        decreases v@.len() - i,
    {
        if v[i] == c {
            proof {
                lemma_find_char_from(v@, from as int, c);
            }
            return Some(i);
        }
        i += 1;
    }
    None
}

/// The literal `lit` occurs at position `i` of `s` (optionally folding case).
pub open spec fn spec_lit_at(s: Seq<char>, i: int, lit: Seq<char>, ci: bool) -> bool {
    &&& 0 <= i
    &&& i + lit.len() <= s.len()
    &&& forall|k: int|
        0 <= k < lit.len() ==> if ci {
            spec_eq_ci(s[i + k], lit[k])
        } else {
            s[i + k] == lit[k]
        }
}

pub fn lit_at(v: &Vec<char>, i: usize, lit: &str, ci: bool) -> (r: bool)
    ensures
        r == spec_lit_at(v@, i as int, lit@, ci),
{
    let m = lit.unicode_len();
    let n = v.len();
    if i > n || m > n - i {
        return false;
    }
    let mut k: usize = 0;
    while k < m
        invariant
            k <= m,
            m == lit@.len(),
            n == v@.len(),
            i + m <= n,
            forall|q: int|
                0 <= q < k ==> if ci {
                    spec_eq_ci(v@[i + q], lit@[q])
                } else {
                    v@[i + q] == lit@[q]
                },
        decreases m - k,
    {
        let a = v[i + k];
        let b = lit.get_char(k);
        let ok = if ci {
            eq_ci(a, b)
        } else {
            a == b
        };
        if !ok {
            return false;
        }
        k += 1;
    }
    true
}

/// The views of a sequence of string slices.
pub open spec fn views_of(alts: Seq<&str>) -> Seq<Seq<char>> {
    alts.map_values(|t: &str| t@)
}

/// End position of the first alternative in `alts` that matches at `i` and
/// is followed by a word boundary.
pub open spec fn spec_alt_end_at(s: Seq<char>, i: int, alts: Seq<Seq<char>>, ci: bool) -> Option<
    int,
>
    decreases alts.len(),
{
    if alts.len() == 0 {
        None
    } else {
        let e = i + alts[0].len();
        if spec_lit_at(s, i, alts[0], ci) && (e == s.len() || !spec_is_word(s[e])) {
            Some(e)
        } else {
            spec_alt_end_at(s, i, alts.skip(1), ci)
        }
    }
}

fn alt_end_at(v: &Vec<char>, i: usize, alts: &Vec<&str>, ci: bool) -> (r: Option<usize>)
    ensures
        match r {
            Some(e) => spec_alt_end_at(v@, i as int, views_of(alts@), ci) == Some(e as int) && i
                <= e <= v@.len(),
            None => spec_alt_end_at(v@, i as int, views_of(alts@), ci) is None,
        },
{
    let ghost all = views_of(alts@);
    let n = v.len();
    let mut j: usize = 0;
    proof {
        assert(all.skip(0) =~= all);
    }
    while j < alts.len()
        invariant
            j <= alts@.len(),
            n == v@.len(),
            all == views_of(alts@),
            spec_alt_end_at(v@, i as int, all, ci) == spec_alt_end_at(
                v@,
                i as int,
                all.skip(j as int),
                ci,
            ),
        decreases alts@.len() - j,
    {
        proof {
            assert(all.skip(j as int)[0] == alts@[j as int]@);
        }
        let lit: &str = alts[j];
        let m = lit.unicode_len();
        if lit_at(v, i, lit, ci) {
            let e = i + m;
            if e == n || !is_word(v[e]) {
                return Some(e);
            }
        }
        proof {
            assert(all.skip(j as int).skip(1) =~= all.skip(j + 1 as int));
        }
        j += 1;
    }
    None
}

/// Leftmost word-bounded occurrence of any alternative, searching from `i`;
/// alternatives are tried in order at each position.
pub open spec fn spec_find_wb_from(s: Seq<char>, i: int, alts: Seq<Seq<char>>, ci: bool) -> Option<
    (int, int),
>
    decreases s.len() - i,
        when 0 <= i
{
    if i < 0 || i >= s.len() {
        None
    } else if (i == 0 || !spec_is_word(s[i - 1])) && spec_alt_end_at(s, i, alts, ci) is Some {
        Some((i, spec_alt_end_at(s, i, alts, ci)->Some_0))
    } else {
        spec_find_wb_from(s, i + 1, alts, ci)
    }
}

pub fn find_wb(v: &Vec<char>, alts: &Vec<&str>, ci: bool) -> (r: Option<(usize, usize)>)
    ensures
        match r {
            Some((a, b)) => spec_find_wb_from(v@, 0, views_of(alts@), ci) == Some(
                (a as int, b as int),
            ) && a <= b <= v@.len() && a < v@.len(),
            None => spec_find_wb_from(v@, 0, views_of(alts@), ci) is None,
        },
{
    let ghost all = views_of(alts@);
    let mut i: usize = 0;
    while i < v.len()
        invariant
            all == views_of(alts@),
            spec_find_wb_from(v@, 0, all, ci) == spec_find_wb_from(v@, i as int, all, ci),
        decreases v@.len() - i,
    {
        if i == 0 || !is_word(v[i - 1]) {
            if let Some(e) = alt_end_at(v, i, alts, ci) {
                return Some((i, e));
            }
        }
        i += 1;
    }
    None
}

/// `s` with the span `[start, end)` replaced by a single space.
pub open spec fn spec_splice_space(s: Seq<char>, start: int, end: int) -> Seq<char> {
    s.take(start) + seq![' '] + s.skip(end)
}

pub fn splice_space(v: &Vec<char>, start: usize, end: usize) -> (r: Vec<char>)
    requires
        start <= end <= v@.len(),
    ensures
        r@ == spec_splice_space(v@, start as int, end as int),
{
    let mut r: Vec<char> = Vec::new();
    let mut i: usize = 0;
    while i < start
        invariant
            i <= start <= v@.len(),
            r@ == v@.take(i as int),
        decreases start - i,
    {
        r.push(v[i]);
        proof {
            assert(r@ =~= v@.take(i + 1 as int));
        }
        i += 1;
    }
    r.push(' ');
    let mut j: usize = end;
    while j < v.len()
        invariant
            end <= j <= v@.len(),
            start <= end <= v@.len(),
            r@ == v@.take(start as int) + seq![' '] + v@.skip(end as int).take(j - end),
        decreases v@.len() - j,
    {
        r.push(v[j]);
        proof {
            assert(r@ =~= v@.take(start as int) + seq![' '] + v@.skip(end as int).take(
                j + 1 - end,
            ));
        }
        j += 1;
    }
    proof {
        assert(v@.skip(end as int).take(v@.len() - end) =~= v@.skip(end as int));
        assert(r@ =~= spec_splice_space(v@, start as int, end as int));
    }
    r
}

/// Copy of the span `[start, end)`.
pub fn subvec(v: &Vec<char>, start: usize, end: usize) -> (r: Vec<char>)
    requires
        start <= end <= v@.len(),
    ensures
        r@ == v@.subrange(start as int, end as int),
{
    let mut r: Vec<char> = Vec::new();
    let mut i: usize = start;
    while i < end
        invariant
            start <= i <= end <= v@.len(),
            r@ == v@.subrange(start as int, i as int),
        decreases end - i,
    {
        r.push(v[i]);
        proof {
            assert(r@ =~= v@.subrange(start as int, i + 1 as int));
        }
        i += 1;
    }
    r
}

/// Length of the run of decimal digits starting at `i`.
pub open spec fn spec_digit_run(s: Seq<char>, i: int) -> int
    decreases s.len() - i,
        when 0 <= i
{
    if i < 0 || i >= s.len() || !spec_is_digit(s[i]) {
        0
    } else {
        1 + spec_digit_run(s, i + 1)
    }
}

pub proof fn lemma_digit_run(s: Seq<char>, i: int)
    requires
        0 <= i,
    ensures
        0 <= spec_digit_run(s, i),
        i + spec_digit_run(s, i) <= s.len() || (i >= s.len() && spec_digit_run(s, i) == 0),
        forall|k: int| i <= k < i + spec_digit_run(s, i) ==> spec_is_digit(s[k]),
        i + spec_digit_run(s, i) < s.len() ==> !spec_is_digit(s[i + spec_digit_run(s, i)]),
    decreases s.len() - i,
{
    if 0 <= i < s.len() && spec_is_digit(s[i]) {
        lemma_digit_run(s, i + 1);
    }
}

pub fn digit_run(v: &Vec<char>, i: usize) -> (r: usize)
    ensures
        r == spec_digit_run(v@, i as int),
        i + r <= v@.len() || r == 0,
{
    let mut j: usize = i;
    while j < v.len() && is_digit(v[j])
        invariant
            i <= j,
            j <= v@.len() || j == i,
            spec_digit_run(v@, i as int) == j - i + spec_digit_run(v@, j as int),
        decreases v@.len() - j,
    {
        j += 1;
    }
    j - i
}

/// Numeric value of the `t` digits starting at `i`.
pub open spec fn spec_digits_val(s: Seq<char>, i: int, t: int) -> int
    decreases t,
        when t >= 0
{
    if t <= 0 {
        0
    } else {
        spec_digits_val(s, i, t - 1) * 10 + (s[i + t - 1] as u32 - 48)
    }
}

pub fn digits_val(v: &Vec<char>, i: usize, t: usize) -> (r: i64)
    requires
        i + t <= v@.len(),
        t <= 4,
        forall|k: int| i <= k < i + t ==> spec_is_digit(v@[k]),
    ensures
        r == spec_digits_val(v@, i as int, t as int),
        0 <= r <= 9999,
{
    let mut r: i64 = 0;
    let n = v.len();
    let mut k: usize = 0;
    while k < t
        invariant
            k <= t <= 4,
            n == v@.len(),
            i + t <= n,
            forall|q: int| i <= q < i + t ==> spec_is_digit(v@[q]),
            r == spec_digits_val(v@, i as int, k as int),
            0 <= r < 10000,
        decreases t - k,
    {
        let c = v[i + k];
        let d = (c as u32) - 48;
        assert(d <= 9);
        if r >= 1000 {
            proof {
                lemma_digits_val_bound(v@, i as int, k as int);
            }
        }
        r = r * 10 + (d as i64);
        k += 1;
    }
    r
}

proof fn lemma_digits_val_bound(s: Seq<char>, i: int, t: int)
    requires
        0 <= t <= 4,
        forall|k: int| i <= k < i + t ==> spec_is_digit(s[k]),
        i + t <= s.len(),
        0 <= i,
    ensures
        0 <= spec_digits_val(s, i, t),
        t == 0 ==> spec_digits_val(s, i, t) == 0,
        t == 1 ==> spec_digits_val(s, i, t) < 10,
        t == 2 ==> spec_digits_val(s, i, t) < 100,
        t == 3 ==> spec_digits_val(s, i, t) < 1000,
        t == 4 ==> spec_digits_val(s, i, t) < 10000,
    decreases t,
{
    if t > 0 {
        lemma_digits_val_bound(s, i, t - 1);
    }
}

/// Whitespace runs collapsed to single spaces, from position `i` on;
/// `prev_space` records whether a space has just been emitted.
pub open spec fn spec_collapse_from(s: Seq<char>, i: int, prev_space: bool) -> Seq<char>
    decreases s.len() - i,
        when 0 <= i
{
    if i < 0 || i >= s.len() {
        Seq::empty()
    } else if spec_is_space(s[i]) {
        if prev_space {
            spec_collapse_from(s, i + 1, true)
        } else {
            seq![' '] + spec_collapse_from(s, i + 1, true)
        }
    } else {
        seq![s[i]] + spec_collapse_from(s, i + 1, false)
    }
}

pub fn collapse_spaces(v: &Vec<char>) -> (r: Vec<char>)
    ensures
        r@ == spec_collapse_from(v@, 0, false),
{
    let mut r: Vec<char> = Vec::new();
    let mut prev: bool = false;
    let mut i: usize = 0;
    while i < v.len()
        invariant
            i <= v@.len(),
            spec_collapse_from(v@, 0, false) == r@ + spec_collapse_from(v@, i as int, prev),
        decreases v@.len() - i,
    {
        let c = v[i];
        if is_space(c) {
            if !prev {
                r.push(' ');
            }
            prev = true;
        } else {
            r.push(c);
            prev = false;
        }
        i += 1;
    }
    proof {
        assert(r@ =~= r@ + spec_collapse_from(v@, v@.len() as int, prev));
    }
    r
}

/// Leading whitespace removed.
pub open spec fn spec_trim_start(s: Seq<char>) -> Seq<char>
    decreases s.len(),
{
    if s.len() > 0 && spec_is_space(s[0]) {
        spec_trim_start(s.skip(1))
    } else {
        s
    }
}

/// Trailing whitespace removed.
pub open spec fn spec_trim_end(s: Seq<char>) -> Seq<char>
    decreases s.len(),
{
    if s.len() > 0 && spec_is_space(s[s.len() - 1]) {
        spec_trim_end(s.take(s.len() - 1))
    } else {
        s
    }
}

pub open spec fn spec_trim(s: Seq<char>) -> Seq<char> {
    spec_trim_start(spec_trim_end(s))
}

pub fn trim(v: &Vec<char>) -> (r: Vec<char>)
    ensures
        r@ == spec_trim(v@),
{
    let mut b: usize = v.len();
    proof {
        assert(v@.take(v@.len() as int) =~= v@);
    }
    while b > 0 && is_space(v[b - 1])
        invariant
            b <= v@.len(),
            spec_trim_end(v@) == spec_trim_end(v@.take(b as int)),
        decreases b,
    {
        proof {
            assert(v@.take(b as int).take(b - 1 as int) =~= v@.take(b - 1 as int));
        }
        b -= 1;
    }
    proof {
        assert(v@.take(v@.len() as int) =~= v@);
        if b > 0 {
            assert(spec_trim_end(v@.take(b as int)) == v@.take(b as int));
        }
    }
    let mut a: usize = 0;
    proof {
        assert(v@.take(b as int).skip(0) =~= v@.take(b as int));
    }
    while a < b && is_space(v[a])
        invariant
            a <= b <= v@.len(),
            spec_trim_end(v@) == v@.take(b as int),
            spec_trim_start(v@.take(b as int)) == spec_trim_start(v@.take(b as int).skip(a as int)),
        decreases b - a,
    {
        proof {
            assert(v@.take(b as int).skip(a as int).skip(1) =~= v@.take(b as int).skip(a + 1 as int));
            assert(v@.take(b as int).skip(a as int)[0] == v@[a as int]);
        }
        a += 1;
    }
    proof {
        if a < b {
            assert(v@.take(b as int).skip(a as int)[0] == v@[a as int]);
        }
        assert(spec_trim_start(v@.take(b as int).skip(a as int)) == v@.take(b as int).skip(a as int));
        assert(v@.take(b as int).skip(a as int) =~= v@.subrange(a as int, b as int));
    }
    subvec(v, a, b)
}


/// Length of the run of whitespace characters starting at `i`.
pub open spec fn spec_space_run(s: Seq<char>, i: int) -> int
    decreases s.len() - i,
        when 0 <= i
{
    if i < 0 || i >= s.len() || !spec_is_space(s[i]) {
        0
    } else {
        1 + spec_space_run(s, i + 1)
    }
}

pub fn space_run(v: &Vec<char>, i: usize) -> (r: usize)
    ensures
        r == spec_space_run(v@, i as int),
        i + r <= v@.len() || r == 0,
{
    let mut j: usize = i;
    while j < v.len() && is_space(v[j])
        invariant
            i <= j,
            j <= v@.len() || j == i,
            spec_space_run(v@, i as int) == j - i + spec_space_run(v@, j as int),
        decreases v@.len() - j,
    {
        j += 1;
    }
    j - i
}

/// Length of the run of separator characters starting at `i`.
pub open spec fn spec_sep_run(s: Seq<char>, i: int) -> int
    decreases s.len() - i,
        when 0 <= i
{
    if i < 0 || i >= s.len() || !spec_is_sep(s[i]) {
        0
    } else {
        1 + spec_sep_run(s, i + 1)
    }
}

pub fn sep_run(v: &Vec<char>, i: usize) -> (r: usize)
    ensures
        r == spec_sep_run(v@, i as int),
        i + r <= v@.len() || r == 0,
{
    let mut j: usize = i;
    while j < v.len() && is_sep(v[j])
        invariant
            i <= j,
            j <= v@.len() || j == i,
            spec_sep_run(v@, i as int) == j - i + spec_sep_run(v@, j as int),
        decreases v@.len() - j,
    {
        j += 1;
    }
    j - i
}

/// Last index holding `c`, if any.
pub open spec fn spec_find_last(s: Seq<char>, c: char) -> Option<int>
    decreases s.len(),
{
    if s.len() == 0 {
        None
    } else if s[s.len() - 1] == c {
        Some(s.len() - 1)
    } else {
        spec_find_last(s.take(s.len() - 1), c)
    }
}

pub fn find_last(v: &Vec<char>, c: char) -> (r: Option<usize>)
    ensures
        match r {
            Some(j) => spec_find_last(v@, c) == Some(j as int) && j < v@.len() && v@[j as int]
                == c,
            None => spec_find_last(v@, c) is None,
        },
{
    let mut b: usize = v.len();
    proof {
        assert(v@.take(v@.len() as int) =~= v@);
    }
    while b > 0
        invariant
            b <= v@.len(),
            spec_find_last(v@, c) == spec_find_last(v@.take(b as int), c),
        decreases b,
    {
        if v[b - 1] == c {
            proof {
                assert(v@.take(b as int)[b - 1] == v@[b - 1]);
            }
            return Some(b - 1);
        }
        proof {
            assert(v@.take(b as int).take(b - 1 as int) =~= v@.take(b - 1 as int));
            assert(v@.take(b as int)[b - 1] == v@[b - 1]);
        }
        b -= 1;
    }
    None
}

pub fn lower_vec(v: &Vec<char>) -> (r: Vec<char>)
    ensures
        r@ == spec_lower_seq(v@),
{
    let mut r: Vec<char> = Vec::new();
    let mut i: usize = 0;
    while i < v.len()
        invariant
            i <= v@.len(),
            r@ == spec_lower_seq(v@.take(i as int)),
        decreases v@.len() - i,
    {
        r.push(lower(v[i]));
        proof {
            assert(r@ =~= spec_lower_seq(v@.take(i + 1 as int)));
        }
        i += 1;
    }
    proof {
        assert(v@.take(v@.len() as int) =~= v@);
    }
    r
}

} // verus!
