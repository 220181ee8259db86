//! Heuristic release-name parser. A bare file or folder name runs through a
//! fixed pipeline of recognition rules: tag removal, separator
//! normalisation, season/episode extraction, year extraction, then
//! quality/source/codec/audio recognition, and finally title cleanup. Each
//! step both extracts a value and removes the matched span, so later steps
//! never re-match already-consumed text.

use vstd::prelude::*;

use chrono::Datelike;

use crate::schema::MediaType;
use crate::text::find_char_from;
use crate::text::is_digit;
use crate::text::is_sep;
use crate::text::lemma_find_char_from;
use crate::text::spec_find_char_from;
use crate::text::spec_find_last;
use crate::text::spec_is_alnum;
use crate::text::spec_is_digit;
use crate::text::spec_is_sep;
use crate::text::find_last;
use crate::text::is_alnum;
use crate::text::subvec;
use crate::text::digit_run;
use crate::text::digits_val;
use crate::text::lemma_digit_run;
use crate::text::lit_at;
use crate::text::sep_run;
use crate::text::space_run;
use crate::text::spec_digit_run;
use crate::text::spec_digits_val;
use crate::text::spec_lit_at;
use crate::text::spec_sep_run;
use crate::text::spec_space_run;
use crate::text::find_wb;
use crate::text::is_space;
use crate::text::spec_find_wb_from;
use crate::text::spec_is_space;
use crate::text::spec_splice_space;
use crate::text::splice_space;
use crate::text::views_of;
use crate::text::from_chars;
use crate::text::spec_collapse_from;
use crate::text::spec_trim;
use crate::text::to_chars;
use crate::text::collapse_spaces;
use crate::text::trim;

verus! {

/// Everything before the last `.`, or the whole name if it has none.
pub open spec fn spec_strip_extension(s: Seq<char>) -> Seq<char> {
    match spec_find_last(s, '.') {
        Some(k) => s.take(k),
        None => s,
    }
}

pub fn strip_extension(v: &Vec<char>) -> (r: Vec<char>)
    ensures
        r@ == spec_strip_extension(v@),
{
    match find_last(v, '.') {
        Some(k) => subvec(v, 0, k),
        None => {
            proof {
                assert(v@.subrange(0, v@.len() as int) =~= v@);
            }
            subvec(v, 0, v.len())
        },
    }
}

/// Bracket-delimited tags removed; each `[...]` span becomes one space.
pub open spec fn spec_strip_brackets(s: Seq<char>, i: int) -> Seq<char>
    decreases s.len() - i,
        when 0 <= i
{
    if i >= s.len() {
        Seq::empty()
    } else if s[i] == '[' && spec_find_char_from(s, i + 1, ']') is Some && i < spec_find_char_from(
        s,
        i + 1,
        ']',
    )->Some_0 < s.len() {
        seq![' '] + spec_strip_brackets(s, spec_find_char_from(s, i + 1, ']')->Some_0 + 1)
    } else {
        seq![s[i]] + spec_strip_brackets(s, i + 1)
    }
}

pub fn strip_brackets(v: &Vec<char>) -> (r: Vec<char>)
    ensures
        r@ == spec_strip_brackets(v@, 0),
{
    let mut out: Vec<char> = Vec::new();
    let mut i: usize = 0;
    while i < v.len()
        invariant
            i <= v@.len(),
            spec_strip_brackets(v@, 0) == out@ + spec_strip_brackets(v@, i as int),
        decreases v@.len() - i,
    {
        let ghost out0 = out@;
        if v[i] == '[' {
            match find_char_from(v, i + 1, ']') {
                Some(j) => {
                    out.push(' ');
                    proof {
                        assert(out@ =~= out0 + seq![' ']);
                        assert(out0 + (seq![' '] + spec_strip_brackets(v@, j + 1)) =~= (out0
                            + seq![' ']) + spec_strip_brackets(v@, j + 1));
                    }
                    i = j + 1;
                },
                None => {
                    out.push(v[i]);
                    proof {
                        assert(out@ =~= out0 + seq![v@[i as int]]);
                        assert(out0 + (seq![v@[i as int]] + spec_strip_brackets(v@, i + 1)) =~= (
                        out0 + seq![v@[i as int]]) + spec_strip_brackets(v@, i + 1));
                    }
                    i += 1;
                },
            }
        } else {
            out.push(v[i]);
            proof {
                assert(out@ =~= out0 + seq![v@[i as int]]);
                assert(out0 + (seq![v@[i as int]] + spec_strip_brackets(v@, i + 1)) =~= (out0
                    + seq![v@[i as int]]) + spec_strip_brackets(v@, i + 1));
            }
            i += 1;
        }
    }
    proof {
        assert(out@ + spec_strip_brackets(v@, v@.len() as int) =~= out@);
    }
    out
}

/// Whether the parenthesised group opening at `i` (whose `)` stands at `j`)
/// holds exactly a four-digit year.
pub open spec fn spec_is_year_group(s: Seq<char>, i: int, j: int) -> bool {
    j == i + 5 && spec_is_digit(s[i + 1]) && spec_is_digit(s[i + 2]) && spec_is_digit(s[i + 3])
        && spec_is_digit(s[i + 4])
}

/// Parenthesised tags removed unless they hold exactly a four-digit year;
/// each removed `(...)` span becomes one space.
pub open spec fn spec_strip_parens(s: Seq<char>, i: int) -> Seq<char>
    decreases s.len() - i,
        when 0 <= i
{
    if i >= s.len() {
        Seq::empty()
    } else if s[i] == '(' && spec_find_char_from(s, i + 1, ')') is Some && i < spec_find_char_from(
        s,
        i + 1,
        ')',
    )->Some_0 < s.len() {
        let j = spec_find_char_from(s, i + 1, ')')->Some_0;
        if spec_is_year_group(s, i, j) {
            s.subrange(i, j + 1) + spec_strip_parens(s, j + 1)
        } else {
            seq![' '] + spec_strip_parens(s, j + 1)
        }
    } else {
        seq![s[i]] + spec_strip_parens(s, i + 1)
    }
}

pub fn strip_parens(v: &Vec<char>) -> (r: Vec<char>)
    ensures
        r@ == spec_strip_parens(v@, 0),
{
    let mut out: Vec<char> = Vec::new();
    let mut i: usize = 0;
    let n = v.len();
    while i < v.len()
        invariant
            i <= v@.len(),
            n == v@.len(),
            spec_strip_parens(v@, 0) == out@ + spec_strip_parens(v@, i as int),
        decreases v@.len() - i,
    {
        let ghost out0 = out@;
        if v[i] == '(' {
            match find_char_from(v, i + 1, ')') {
                Some(j) => {
                    if j - i == 5 && is_digit(v[i + 1]) && is_digit(v[i + 2]) && is_digit(
                        v[i + 3],
                    ) && is_digit(v[i + 4]) {
                        let mut k: usize = i;
                        while k <= j
                            invariant
                                i <= k <= j + 1,
                                j < v@.len(),
                                v@.len() <= usize::MAX,
                                out@ == out0 + v@.subrange(i as int, k as int),
                            decreases j + 1 - k,
                        {
                            out.push(v[k]);
                            proof {
                                assert(out@ =~= out0 + v@.subrange(i as int, k + 1 as int));
                            }
                            k += 1;
                        }
                        proof {
                            assert(out0 + (v@.subrange(i as int, j + 1 as int)
                                + spec_strip_parens(v@, j + 1)) =~= (out0 + v@.subrange(
                                i as int,
                                j + 1 as int,
                            )) + spec_strip_parens(v@, j + 1));
                        }
                        i = j + 1;
                    } else {
                        out.push(' ');
                        proof {
                            assert(out@ =~= out0 + seq![' ']);
                            assert(out0 + (seq![' '] + spec_strip_parens(v@, j + 1)) =~= (out0
                                + seq![' ']) + spec_strip_parens(v@, j + 1));
                        }
                        i = j + 1;
                    }
                },
                None => {
                    out.push(v[i]);
                    proof {
                        assert(out@ =~= out0 + seq![v@[i as int]]);
                        assert(out0 + (seq![v@[i as int]] + spec_strip_parens(v@, i + 1)) =~= (
                        out0 + seq![v@[i as int]]) + spec_strip_parens(v@, i + 1));
                    }
                    i += 1;
                },
            }
        } else {
            out.push(v[i]);
            proof {
                assert(out@ =~= out0 + seq![v@[i as int]]);
                assert(out0 + (seq![v@[i as int]] + spec_strip_parens(v@, i + 1)) =~= (out0
                    + seq![v@[i as int]]) + spec_strip_parens(v@, i + 1));
            }
            i += 1;
        }
    }
    proof {
        assert(out@ + spec_strip_parens(v@, v@.len() as int) =~= out@);
    }
    out
}

/// All parenthesised groups removed outright (folder names).
pub open spec fn spec_strip_all_parens(s: Seq<char>, i: int) -> Seq<char>
    decreases s.len() - i,
        when 0 <= i
{
    if i >= s.len() {
        Seq::empty()
    } else if s[i] == '(' && spec_find_char_from(s, i + 1, ')') is Some && i < spec_find_char_from(
        s,
        i + 1,
        ')',
    )->Some_0 < s.len() {
        spec_strip_all_parens(s, spec_find_char_from(s, i + 1, ')')->Some_0 + 1)
    } else {
        seq![s[i]] + spec_strip_all_parens(s, i + 1)
    }
}

pub fn strip_all_parens(v: &Vec<char>) -> (r: Vec<char>)
    ensures
        r@ == spec_strip_all_parens(v@, 0),
{
    let mut out: Vec<char> = Vec::new();
    let mut i: usize = 0;
    while i < v.len()
        invariant
            i <= v@.len(),
            spec_strip_all_parens(v@, 0) == out@ + spec_strip_all_parens(v@, i as int),
        decreases v@.len() - i,
    {
        let ghost out0 = out@;
        if v[i] == '(' {
            match find_char_from(v, i + 1, ')') {
                Some(j) => {
                    i = j + 1;
                },
                None => {
                    out.push(v[i]);
                    proof {
                        assert(out@ =~= out0 + seq![v@[i as int]]);
                        assert(out0 + (seq![v@[i as int]] + spec_strip_all_parens(v@, i + 1)) =~= (
                        out0 + seq![v@[i as int]]) + spec_strip_all_parens(v@, i + 1));
                    }
                    i += 1;
                },
            }
        } else {
            out.push(v[i]);
            proof {
                assert(out@ =~= out0 + seq![v@[i as int]]);
                assert(out0 + (seq![v@[i as int]] + spec_strip_all_parens(v@, i + 1)) =~= (out0
                    + seq![v@[i as int]]) + spec_strip_all_parens(v@, i + 1));
            }
            i += 1;
        }
    }
    proof {
        assert(out@ + spec_strip_all_parens(v@, v@.len() as int) =~= out@);
    }
    out
}

/// Dots and underscores replaced by spaces.
pub open spec fn spec_dots_to_spaces(s: Seq<char>) -> Seq<char> {
    s.map_values(
        |c: char|
            if c == '.' || c == '_' {
                ' '
            } else {
                c
            },
    )
}

pub fn dots_to_spaces(v: &Vec<char>) -> (r: Vec<char>)
    ensures
        r@ == spec_dots_to_spaces(v@),
{
    let mut out: Vec<char> = Vec::new();
    let mut i: usize = 0;
    while i < v.len()
        invariant
            i <= v@.len(),
            out@ == spec_dots_to_spaces(v@.take(i as int)),
        decreases v@.len() - i,
    {
        let c = v[i];
        if c == '.' || c == '_' {
            out.push(' ');
        } else {
            out.push(c);
        }
        proof {
            assert(out@ =~= spec_dots_to_spaces(v@.take(i + 1 as int)));
        }
        i += 1;
    }
    proof {
        assert(v@.take(v@.len() as int) =~= v@);
    }
    out
}

/// Dash variants replaced by spaces (title cleanup).
pub open spec fn spec_dashes_to_spaces(s: Seq<char>) -> Seq<char> {
    s.map_values(
        |c: char|
            if c == '-' || c == '\u{2013}' || c == '\u{2014}' {
                ' '
            } else {
                c
            },
    )
}

pub fn dashes_to_spaces(v: &Vec<char>) -> (r: Vec<char>)
    ensures
        r@ == spec_dashes_to_spaces(v@),
{
    let mut out: Vec<char> = Vec::new();
    let mut i: usize = 0;
    while i < v.len()
        invariant
            i <= v@.len(),
            out@ == spec_dashes_to_spaces(v@.take(i as int)),
        decreases v@.len() - i,
    {
        let c = v[i];
        if c == '-' || c == '\u{2013}' || c == '\u{2014}' {
            out.push(' ');
        } else {
            out.push(c);
        }
        proof {
            assert(out@ =~= spec_dashes_to_spaces(v@.take(i + 1 as int)));
        }
        i += 1;
    }
    proof {
        assert(v@.take(v@.len() as int) =~= v@);
    }
    out
}

pub open spec fn spec_is_bracket_char(c: char) -> bool {
    c == '[' || c == ']' || c == '(' || c == ')' || c == '{' || c == '}'
}

/// Remaining bracket characters dropped (title cleanup).
pub open spec fn spec_drop_bracket_chars(s: Seq<char>, i: int) -> Seq<char>
    decreases s.len() - i,
        when 0 <= i
{
    if i >= s.len() {
        Seq::empty()
    } else if spec_is_bracket_char(s[i]) {
        spec_drop_bracket_chars(s, i + 1)
    } else {
        seq![s[i]] + spec_drop_bracket_chars(s, i + 1)
    }
}

pub fn drop_bracket_chars(v: &Vec<char>) -> (r: Vec<char>)
    ensures
        r@ == spec_drop_bracket_chars(v@, 0),
{
    let mut out: Vec<char> = Vec::new();
    let mut i: usize = 0;
    while i < v.len()
        invariant
            i <= v@.len(),
            spec_drop_bracket_chars(v@, 0) == out@ + spec_drop_bracket_chars(v@, i as int),
        decreases v@.len() - i,
    {
        let ghost out0 = out@;
        let c = v[i];
        if !(c == '[' || c == ']' || c == '(' || c == ')' || c == '{' || c == '}') {
            out.push(c);
            proof {
                assert(out@ =~= out0 + seq![v@[i as int]]);
                assert(out0 + (seq![v@[i as int]] + spec_drop_bracket_chars(v@, i + 1)) =~= (out0
                    + seq![v@[i as int]]) + spec_drop_bracket_chars(v@, i + 1));
            }
        }
        i += 1;
    }
    proof {
        assert(out@ + spec_drop_bracket_chars(v@, v@.len() as int) =~= out@);
    }
    out
}

/// A trailing `-GROUPNAME` release-group suffix removed: the text after the
/// last dash, when it is a non-empty run of letters and digits reaching the
/// end of the name.
pub open spec fn spec_strip_release_group(s: Seq<char>) -> Seq<char> {
    match spec_find_last(s, '-') {
        Some(k) => if k + 1 < s.len() && (forall|m: int| k < m < s.len() ==> spec_is_alnum(s[m])) {
            s.take(k)
        } else {
            s
        },
        None => s,
    }
}

pub fn strip_release_group(v: &Vec<char>) -> (r: Vec<char>)
    ensures
        r@ == spec_strip_release_group(v@),
{
    let n = v.len();
    match find_last(v, '-') {
        Some(k) => {
            if k + 1 >= n {
                proof {
                    assert(v@.subrange(0, v@.len() as int) =~= v@);
                }
                return subvec(v, 0, v.len());
            }
            let mut m: usize = k + 1;
            while m < v.len()
                invariant
                    k + 1 <= m <= v@.len(),
                    k < v@.len(),
                    spec_find_last(v@, '-') == Some(k as int),
                    forall|q: int| k < q < m ==> spec_is_alnum(v@[q]),
                decreases v@.len() - m,
            {
                if !is_alnum(v[m]) {
                    proof {
                        assert(!spec_is_alnum(v@[m as int]));
                        assert(!(forall|q: int|
                            k < q < v@.len() ==> spec_is_alnum(v@[q]))) by {
                            assert(k < m < v@.len() && !spec_is_alnum(v@[m as int]));
                        }
                        assert(v@.subrange(0, v@.len() as int) =~= v@);
                        assert(spec_strip_release_group(v@) == v@);
                    }
                    return subvec(v, 0, v.len());
                }
                m += 1;
            }
            proof {
                assert(v@.subrange(0, k as int) =~= v@.take(k as int));
            }
            subvec(v, 0, k)
        },
        None => {
            proof {
                assert(v@.subrange(0, v@.len() as int) =~= v@);
            }
            subvec(v, 0, v.len())
        },
    }
}

/// The season/episode recognition rules, in the priority order they are
/// tried: `S01E01`, `1x01`, `Season 1 Episode 1`, `C01EP01`, and the bare
/// `E01`/`EP01` fallback whose season defaults to 1.
#[derive(Debug, Clone, Copy, PartialEq, Eq, Structural)]
pub enum SePat {
    SxxExx,
    NxNn,
    SeasonEpisode,
    ChapterEp,
    BareEp,
}

pub open spec fn spec_is_e(c: char) -> bool {
    c == 'E' || c == 'e'
}

/// Trailing `E##` repeats after an `S##E##` match are consumed but ignored.
pub open spec fn spec_se_ext(s: Seq<char>, q: int) -> int
    decreases s.len() - q,
        when 0 <= q
{
    if q < s.len() && spec_is_e(s[q]) {
        let r = spec_digit_run(s, q + 1);
        let t = if r > 3 {
            3
        } else {
            r
        };
        if r >= 1 && q + 1 + t <= s.len() {
            spec_se_ext(s, q + 1 + t)
        } else {
            q
        }
    } else {
        q
    }
}

/// One season/episode rule matched at position `i`, as
/// `(season, episode, end of the matched span)`.
pub open spec fn spec_se_match_at(s: Seq<char>, i: int, p: SePat) -> Option<(int, int, int)> {
    match p {
        SePat::SxxExx => spec_se_a_at(s, i),
        SePat::NxNn => spec_se_b_at(s, i),
        SePat::SeasonEpisode => spec_se_c_at(s, i),
        SePat::ChapterEp => spec_se_d_at(s, i),
        SePat::BareEp => spec_se_e_at(s, i),
    }
}

/// `S01E01` with optional further `E##` repeats.
pub open spec fn spec_se_a_at(s: Seq<char>, i: int) -> Option<(int, int, int)> {
    if !(0 <= i < s.len() && (s[i] == 'S' || s[i] == 's')) {
        None
    } else {
        let r1 = spec_digit_run(s, i + 1);
        if !(1 <= r1 <= 2 && i + 1 + r1 < s.len() && spec_is_e(s[i + 1 + r1])) {
            None
        } else {
            let p = i + 2 + r1;
            let r2 = spec_digit_run(s, p);
            if r2 < 1 {
                None
            } else {
                let t2 = if r2 > 3 {
                    3
                } else {
                    r2
                };
                Some(
                    (
                        spec_digits_val(s, i + 1, r1),
                        spec_digits_val(s, p, t2),
                        spec_se_ext(s, p + t2),
                    ),
                )
            }
        }
    }
}

/// `1x01` / `01x01`.
pub open spec fn spec_se_b_at(s: Seq<char>, i: int) -> Option<(int, int, int)> {
    if !(0 <= i < s.len()) {
        None
    } else {
        let r1 = spec_digit_run(s, i);
        if !(1 <= r1 <= 2 && i + r1 < s.len() && (s[i + r1] == 'x' || s[i + r1] == 'X')) {
            None
        } else {
            let p = i + r1 + 1;
            let r2 = spec_digit_run(s, p);
            if r2 < 2 {
                None
            } else {
                let t2 = if r2 > 3 {
                    3
                } else {
                    r2
                };
                Some((spec_digits_val(s, i, r1), spec_digits_val(s, p, t2), p + t2))
            }
        }
    }
}

/// `Season 1 Episode 1`, case-insensitive, with flexible whitespace.
pub open spec fn spec_se_c_at(s: Seq<char>, i: int) -> Option<(int, int, int)> {
    if !spec_lit_at(s, i, "season"@, true) {
        None
    } else {
        let d1 = i + 6 + spec_space_run(s, i + 6);
        let r1 = spec_digit_run(s, d1);
        if !(1 <= r1 <= 2) {
            None
        } else {
            let p2 = d1 + r1 + spec_space_run(s, d1 + r1);
            if !spec_lit_at(s, p2, "episode"@, true) {
                None
            } else {
                let d2 = p2 + 7 + spec_space_run(s, p2 + 7);
                let r2 = spec_digit_run(s, d2);
                if r2 < 1 {
                    None
                } else {
                    let t2 = if r2 > 3 {
                        3
                    } else {
                        r2
                    };
                    Some((spec_digits_val(s, d1, r1), spec_digits_val(s, d2, t2), d2 + t2))
                }
            }
        }
    }
}

/// `C01EP01` chapter numbering, with optional separators before `EP`.
pub open spec fn spec_se_d_at(s: Seq<char>, i: int) -> Option<(int, int, int)> {
    if !(0 <= i < s.len() && (s[i] == 'C' || s[i] == 'c')) {
        None
    } else {
        let r1 = spec_digit_run(s, i + 1);
        if !(1 <= r1 <= 2) {
            None
        } else {
            let k = i + 1 + r1 + spec_sep_run(s, i + 1 + r1);
            if !(k + 1 < s.len() && spec_is_e(s[k]) && (s[k + 1] == 'P' || s[k + 1] == 'p')) {
                None
            } else {
                let d = k + 2;
                let r2 = spec_digit_run(s, d);
                if r2 < 1 {
                    None
                } else {
                    let t2 = if r2 > 3 {
                        3
                    } else {
                        r2
                    };
                    Some((spec_digits_val(s, i + 1, r1), spec_digits_val(s, d, t2), d + t2))
                }
            }
        }
    }
}

/// Digits and trailing boundary of a bare `E##`/`EP##` match whose `E`
/// stands at `k`; the season defaults to 1.
pub open spec fn spec_se_e_core(s: Seq<char>, i: int, k: int) -> Option<(int, int, int)> {
    let d = if k + 1 < s.len() && (s[k + 1] == 'P' || s[k + 1] == 'p') {
        k + 2
    } else {
        k + 1
    };
    let r = spec_digit_run(s, d);
    if !(1 <= r <= 3) {
        None
    } else {
        let after = d + r;
        if after == s.len() {
            Some((1, spec_digits_val(s, d, r), after))
        } else if spec_is_sep(s[after]) {
            Some((1, spec_digits_val(s, d, r), after + 1))
        } else {
            None
        }
    }
}

/// Bare `E##` / `EP##` bounded by separators or the ends of the name.
pub open spec fn spec_se_e_at(s: Seq<char>, i: int) -> Option<(int, int, int)> {
    if !(0 <= i < s.len()) {
        None
    } else if i == 0 && spec_is_e(s[0]) {
        spec_se_e_core(s, 0, 0)
    } else if spec_is_sep(s[i]) && i + 1 < s.len() && spec_is_e(s[i + 1]) {
        spec_se_e_core(s, i, i + 1)
    } else {
        None
    }
}

/// Leftmost position at or after `i` where rule `p` matches.
pub open spec fn spec_find_se(s: Seq<char>, i: int, p: SePat) -> Option<(int, (int, int, int))>
    decreases s.len() - i,
        when 0 <= i
{
    if i < 0 || i >= s.len() {
        None
    } else if spec_se_match_at(s, i, p) is Some {
        Some((i, spec_se_match_at(s, i, p)->Some_0))
    } else {
        spec_find_se(s, i + 1, p)
    }
}

fn se_ext(v: &Vec<char>, q: usize) -> (r: usize)
    requires
        q <= v@.len(),
    ensures
        r == spec_se_ext(v@, q as int),
        q <= r <= v@.len(),
{
    let mut q = q;
    let ghost q0 = q as int;
    while q < v.len() && (v[q] == 'E' || v[q] == 'e') && digit_run(v, q + 1) >= 1
        invariant
            q <= v@.len(),
            spec_se_ext(v@, q0) == spec_se_ext(v@, q as int),
            q0 <= q,
        decreases v@.len() - q,
    {
        let r = digit_run(v, q + 1);
        let t = if r > 3 {
            3
        } else {
            r
        };
        q = q + 1 + t;
    }
    q
}

fn se_a_at(v: &Vec<char>, i: usize) -> (r: Option<(i64, i64, usize)>)
    ensures
        match r {
            Some((se, ep, end)) => spec_se_a_at(v@, i as int) == Some(
                (se as int, ep as int, end as int),
            ) && i <= end <= v@.len() && 0 <= se <= 9999 && 0 <= ep <= 9999,
            None => spec_se_a_at(v@, i as int) is None,
        },
{
    let n = v.len();
    if !(i < n && (v[i] == 'S' || v[i] == 's')) {
        return None;
    }
    let r1 = digit_run(v, i + 1);
    if !(1 <= r1 && r1 <= 2 && i + 1 + r1 < n && (v[i + 1 + r1] == 'E' || v[i + 1 + r1] == 'e')) {
        return None;
    }
    let pp = i + 2 + r1;
    let r2 = digit_run(v, pp);
    if r2 < 1 {
        return None;
    }
    let t2 = if r2 > 3 {
        3
    } else {
        r2
    };
    proof {
        lemma_digit_run(v@, i + 1);
        lemma_digit_run(v@, pp as int);
    }
    let se = digits_val(v, i + 1, r1);
    let ep = digits_val(v, pp, t2);
    let end = se_ext(v, pp + t2);
    Some((se, ep, end))
}

fn se_b_at(v: &Vec<char>, i: usize) -> (r: Option<(i64, i64, usize)>)
    ensures
        match r {
            Some((se, ep, end)) => spec_se_b_at(v@, i as int) == Some(
                (se as int, ep as int, end as int),
            ) && i <= end <= v@.len() && 0 <= se <= 9999 && 0 <= ep <= 9999,
            None => spec_se_b_at(v@, i as int) is None,
        },
{
    let n = v.len();
    if i >= n {
        return None;
    }
    let r1 = digit_run(v, i);
    if !(1 <= r1 && r1 <= 2 && i + r1 < n && (v[i + r1] == 'x' || v[i + r1] == 'X')) {
        return None;
    }
    let pp = i + r1 + 1;
    let r2 = digit_run(v, pp);
    if r2 < 2 {
        return None;
    }
    let t2 = if r2 > 3 {
        3
    } else {
        r2
    };
    proof {
        lemma_digit_run(v@, i as int);
        lemma_digit_run(v@, pp as int);
    }
    Some((digits_val(v, i, r1), digits_val(v, pp, t2), pp + t2))
}

fn se_c_at(v: &Vec<char>, i: usize) -> (r: Option<(i64, i64, usize)>)
    ensures
        match r {
            Some((se, ep, end)) => spec_se_c_at(v@, i as int) == Some(
                (se as int, ep as int, end as int),
            ) && i <= end <= v@.len() && 0 <= se <= 9999 && 0 <= ep <= 9999,
            None => spec_se_c_at(v@, i as int) is None,
        },
{
    let n = v.len();
    proof {
        reveal_strlit("season");
        reveal_strlit("episode");
    }
    if !lit_at(v, i, "season", true) {
        return None;
    }
    proof {
        assert(i + 6 <= n);
    }
    let d1 = i + 6 + space_run(v, i + 6);
    let r1 = digit_run(v, d1);
    if !(1 <= r1 && r1 <= 2) {
        return None;
    }
    let p2 = d1 + r1 + space_run(v, d1 + r1);
    if !lit_at(v, p2, "episode", true) {
        return None;
    }
    let d2 = p2 + 7 + space_run(v, p2 + 7);
    let r2 = digit_run(v, d2);
    if r2 < 1 {
        return None;
    }
    let t2 = if r2 > 3 {
        3
    } else {
        r2
    };
    proof {
        lemma_digit_run(v@, d1 as int);
        lemma_digit_run(v@, d2 as int);
    }
    Some((digits_val(v, d1, r1), digits_val(v, d2, t2), d2 + t2))
}

fn se_d_at(v: &Vec<char>, i: usize) -> (r: Option<(i64, i64, usize)>)
    ensures
        match r {
            Some((se, ep, end)) => spec_se_d_at(v@, i as int) == Some(
                (se as int, ep as int, end as int),
            ) && i <= end <= v@.len() && 0 <= se <= 9999 && 0 <= ep <= 9999,
            None => spec_se_d_at(v@, i as int) is None,
        },
{
    let n = v.len();
    if !(i < n && (v[i] == 'C' || v[i] == 'c')) {
        return None;
    }
    let r1 = digit_run(v, i + 1);
    if !(1 <= r1 && r1 <= 2) {
        return None;
    }
    let k = i + 1 + r1 + sep_run(v, i + 1 + r1);
    if k >= n {
        return None;
    }
    if !(k + 1 < n && (v[k] == 'E' || v[k] == 'e') && (v[k + 1] == 'P' || v[k + 1] == 'p')) {
        return None;
    }
    let d = k + 2;
    let r2 = digit_run(v, d);
    if r2 < 1 {
        return None;
    }
    let t2 = if r2 > 3 {
        3
    } else {
        r2
    };
    proof {
        lemma_digit_run(v@, i + 1);
        lemma_digit_run(v@, d as int);
    }
    Some((digits_val(v, i + 1, r1), digits_val(v, d, t2), d + t2))
}

fn se_e_at(v: &Vec<char>, i: usize) -> (r: Option<(i64, i64, usize)>)
    ensures
        match r {
            Some((se, ep, end)) => spec_se_e_at(v@, i as int) == Some(
                (se as int, ep as int, end as int),
            ) && i <= end <= v@.len() && 0 <= se <= 9999 && 0 <= ep <= 9999,
            None => spec_se_e_at(v@, i as int) is None,
        },
{
    let n = v.len();
    if i >= n {
        return None;
    }
    let k: usize = if i == 0 && (v[0] == 'E' || v[0] == 'e') {
        0
    } else if is_sep(v[i]) && i + 1 < n && (v[i + 1] == 'E' || v[i + 1] == 'e') {
        i + 1
    } else {
        return None;
    };
    let d = if k + 1 < n && (v[k + 1] == 'P' || v[k + 1] == 'p') {
        k + 2
    } else {
        k + 1
    };
    let r = digit_run(v, d);
    if !(1 <= r && r <= 3) {
        return None;
    }
    proof {
        lemma_digit_run(v@, d as int);
    }
    let after = d + r;
    if after == n {
        Some((1, digits_val(v, d, r), after))
    } else if is_sep(v[after]) {
        Some((1, digits_val(v, d, r), after + 1))
    } else {
        None
    }
}

/// Whether rule `p` matches at `i`, and with which season, episode and
/// span end.
fn se_match_at(v: &Vec<char>, i: usize, p: SePat) -> (r: Option<(i64, i64, usize)>)
    ensures
        match r {
            Some((se, ep, end)) => spec_se_match_at(v@, i as int, p) == Some(
                (se as int, ep as int, end as int),
            ) && i <= end <= v@.len() && 0 <= se <= 9999 && 0 <= ep <= 9999,
            None => spec_se_match_at(v@, i as int, p) is None,
        },
{
    match p {
        SePat::SxxExx => se_a_at(v, i),
        SePat::NxNn => se_b_at(v, i),
        SePat::SeasonEpisode => se_c_at(v, i),
        SePat::ChapterEp => se_d_at(v, i),
        SePat::BareEp => se_e_at(v, i),
    }
}

/// Leftmost match of rule `p` anywhere in the name.
fn find_se(v: &Vec<char>, p: SePat) -> (r: Option<(usize, (i64, i64, usize))>)
    ensures
        match r {
            Some((i, (se, ep, end))) => spec_find_se(v@, 0, p) == Some(
                (i as int, (se as int, ep as int, end as int)),
            ) && i <= end <= v@.len() && 0 <= se <= 9999 && 0 <= ep <= 9999,
            None => spec_find_se(v@, 0, p) is None,
        },
{
    let mut i: usize = 0;
    while i < v.len()
        invariant
            spec_find_se(v@, 0, p) == spec_find_se(v@, i as int, p),
        decreases v@.len() - i,
    {
        if let Some((se, ep, end)) = se_match_at(v, i, p) {
            return Some((i, (se, ep, end)));
        }
        i += 1;
    }
    None
}

pub open spec fn spec_year_start_cls(c: char) -> bool {
    spec_is_space(c) || c == '.' || c == '_' || c == '(' || c == '-'
}

pub open spec fn spec_year_end_cls(c: char) -> bool {
    spec_is_space(c) || c == '.' || c == '_' || c == ')' || c == '-'
}

/// A four-digit run at `i` bounded by separators, parentheses or the ends
/// of the name.
pub open spec fn spec_year_at(s: Seq<char>, i: int) -> bool {
    &&& 0 <= i
    &&& i + 4 <= s.len()
    &&& i == 0 || spec_year_start_cls(s[i - 1])
    &&& spec_is_digit(s[i])
    &&& spec_is_digit(s[i + 1])
    &&& spec_is_digit(s[i + 2])
    &&& spec_is_digit(s[i + 3])
    &&& i + 4 == s.len() || spec_year_end_cls(s[i + 4])
}

/// Leftmost year-shaped match; only the first is considered, and it is
/// discarded (not removed) when its value lies outside the accepted range.
pub open spec fn spec_find_year(s: Seq<char>, i: int) -> Option<int>
    decreases s.len() - i,
        when 0 <= i
{
    if i < 0 || i >= s.len() {
        None
    } else if spec_year_at(s, i) {
        Some(i)
    } else {
        spec_find_year(s, i + 1)
    }
}

fn year_at(v: &Vec<char>, i: usize) -> (r: bool)
    ensures
        r == spec_year_at(v@, i as int),
        r ==> i + 4 <= v@.len(),
{
    let n = v.len();
    if i >= n || n - i < 4 {
        return false;
    }
    let start_ok = i == 0 || {
        let c = v[i - 1];
        is_space(c) || c == '.' || c == '_' || c == '(' || c == '-'
    };
    if !start_ok {
        return false;
    }
    if !(is_digit(v[i]) && is_digit(v[i + 1]) && is_digit(v[i + 2]) && is_digit(v[i + 3])) {
        return false;
    }
    if i + 4 == n {
        true
    } else {
        let c = v[i + 4];
        is_space(c) || c == '.' || c == '_' || c == ')' || c == '-'
    }
}

fn find_year(v: &Vec<char>) -> (r: Option<usize>)
    ensures
        match r {
            Some(i) => spec_find_year(v@, 0) == Some(i as int) && i + 4 <= v@.len()
                && spec_year_at(v@, i as int),
            None => spec_find_year(v@, 0) is None,
        },
{
    let mut i: usize = 0;
    while i < v.len()
        invariant
            spec_find_year(v@, 0) == spec_find_year(v@, i as int),
        decreases v@.len() - i,
    {
        if year_at(v, i) {
            return Some(i);
        }
        i += 1;
    }
    None
}

/// The year step: the first year-shaped match is extracted and its digits
/// removed when it lies in `1900 ..= max_year`; otherwise nothing changes.
pub open spec fn spec_year_step(s: Seq<char>, max_year: int) -> (Option<int>, Seq<char>) {
    match spec_find_year(s, 0) {
        Some(i) => {
            let y = spec_digits_val(s, i, 4);
            if 1900 <= y <= max_year {
                (Some(y), spec_splice_space(s, i, i + 4))
            } else {
                (None, s)
            }
        },
        None => (None, s),
    }
}

pub open spec fn view_opt_i64(o: Option<i64>) -> Option<int> {
    match o {
        Some(x) => Some(x as int),
        None => None,
    }
}

pub open spec fn view_opt_chars(o: Option<Seq<char>>) -> Option<Seq<char>> {
    o
}

fn extract_year(v: &Vec<char>, max_year: i64) -> (r: (Option<i64>, Vec<char>))
    ensures
        view_opt_i64(r.0) == spec_year_step(v@, max_year as int).0,
        r.1@ == spec_year_step(v@, max_year as int).1,
{
    let n = v.len();
    match find_year(v) {
        Some(i) => {
            proof {
                assert(spec_is_digit(v@[i as int]) && spec_is_digit(v@[i + 1]) && spec_is_digit(
                    v@[i + 2],
                ) && spec_is_digit(v@[i + 3]));
            }
            let y = digits_val(v, i, 4);
            if 1900 <= y && y <= max_year {
                (Some(y), splice_space(v, i, i + 4))
            } else {
                let mut keep: Vec<char> = subvec(v, 0, v.len());
                proof {
                    assert(v@.subrange(0, v@.len() as int) =~= v@);
                }
                (None, keep)
            }
        },
        None => {
            let keep: Vec<char> = subvec(v, 0, v.len());
            proof {
                assert(v@.subrange(0, v@.len() as int) =~= v@);
            }
            (None, keep)
        },
    }
}

/// All word-bounded occurrences of the given alternatives replaced by
/// single spaces, left to right.
pub open spec fn spec_strip_all_wb(s: Seq<char>, alts: Seq<Seq<char>>, ci: bool) -> Seq<char>
    decreases s.len(),
{
    match spec_find_wb_from(s, 0, alts, ci) {
        Some((a, b)) => if 0 <= a < b <= s.len() {
            s.take(a) + seq![' '] + spec_strip_all_wb(s.skip(b), alts, ci)
        } else {
            s
        },
        None => s,
    }
}

fn append_range(out: &mut Vec<char>, v: &Vec<char>, a: usize, b: usize)
    requires
        a <= b <= v@.len(),
    ensures
        final(out)@ == old(out)@ + v@.subrange(a as int, b as int),
{
    let mut i: usize = a;
    while i < b
        invariant
            a <= i <= b <= v@.len(),
            out@ == old(out)@ + v@.subrange(a as int, i as int),
        decreases b - i,
    {
        out.push(v[i]);
        proof {
            assert(out@ =~= old(out)@ + v@.subrange(a as int, i + 1 as int));
        }
        i += 1;
    }
}

fn strip_all_wb(v: &Vec<char>, alts: &Vec<&str>, ci: bool) -> (r: Vec<char>)
    ensures
        r@ == spec_strip_all_wb(v@, views_of(alts@), ci),
{
    let ghost all = views_of(alts@);
    let ghost orig = v@;
    let mut out: Vec<char> = Vec::new();
    let mut cur = subvec(v, 0, v.len());
    proof {
        assert(cur@ =~= orig);
    }
    proof {
        assert(out@ + spec_strip_all_wb(cur@, all, ci) =~= spec_strip_all_wb(orig, all, ci));
    }
    loop
        invariant
            orig == v@,
            all == views_of(alts@),
            spec_strip_all_wb(orig, all, ci) == out@ + spec_strip_all_wb(cur@, all, ci),
        decreases cur@.len(),
    {
        match find_wb(&cur, alts, ci) {
            Some((a, b)) => {
                if a >= b {
                    let ghost o0 = out@;
                    append_range(&mut out, &cur, 0, cur.len());
                    proof {
                        assert(spec_strip_all_wb(cur@, all, ci) == cur@);
                        assert(cur@.subrange(0, cur@.len() as int) =~= cur@);
                        assert(out@ =~= o0 + cur@);
                    }
                    return out;
                }
                let ghost o0 = out@;
                proof {
                    assert(spec_strip_all_wb(cur@, all, ci) == cur@.take(a as int) + seq![' ']
                        + spec_strip_all_wb(cur@.skip(b as int), all, ci));
                }
                append_range(&mut out, &cur, 0, a);
                out.push(' ');
                proof {
                    assert(cur@.subrange(0, a as int) =~= cur@.take(a as int));
                    assert(out@ =~= o0 + (cur@.take(a as int) + seq![' ']));
                    assert(o0 + (cur@.take(a as int) + seq![' ']) + spec_strip_all_wb(
                        cur@.skip(b as int),
                        all,
                        ci,
                    ) =~= o0 + ((cur@.take(a as int) + seq![' ']) + spec_strip_all_wb(
                        cur@.skip(b as int),
                        all,
                        ci,
                    )));
                }
                let next = subvec(&cur, b, cur.len());
                proof {
                    assert(next@ =~= cur@.skip(b as int));
                }
                cur = next;
            },
            None => {
                let ghost o0 = out@;
                append_range(&mut out, &cur, 0, cur.len());
                proof {
                    assert(spec_strip_all_wb(cur@, all, ci) == cur@);
                    assert(cur@.subrange(0, cur@.len() as int) =~= cur@);
                    assert(out@ =~= o0 + cur@);
                }
                return out;
            },
        }
    }
}

pub open spec fn spec_q1() -> Seq<Seq<char>> {
    seq!["2160p"@, "4K"@, "4k"@, "UHD"@]
}



pub open spec fn spec_q2() -> Seq<Seq<char>> {
    seq!["1080p"@, "1080i"@]
}

pub open spec fn spec_q3() -> Seq<Seq<char>> {
    seq!["720p"@]
}

pub open spec fn spec_q4() -> Seq<Seq<char>> {
    seq!["480p"@, "576p"@, "SD"@]
}

pub open spec fn opt_pair_or(a: Option<(int, int)>, b: Option<(int, int)>) -> Option<(int, int)> {
    if a is Some {
        a
    } else {
        b
    }
}

/// Leftmost word-bounded quality marker, tiers tried in priority order.
pub open spec fn spec_find_quality(s: Seq<char>) -> Option<(int, int)> {
    opt_pair_or(
        spec_find_wb_from(s, 0, spec_q1(), false),
        opt_pair_or(
            spec_find_wb_from(s, 0, spec_q2(), false),
            opt_pair_or(
                spec_find_wb_from(s, 0, spec_q3(), false),
                spec_find_wb_from(s, 0, spec_q4(), false),
            ),
        ),
    )
}

fn find_quality(v: &Vec<char>) -> (r: Option<(usize, usize)>)
    ensures
        match r {
            Some((a, b)) => spec_find_quality(v@) == Some((a as int, b as int)) && a <= b
                <= v@.len(),
            None => spec_find_quality(v@) is None,
        },
{
    let t1: Vec<&str> = vec!["2160p", "4K", "4k", "UHD"];
    proof {
        assert(views_of(t1@) =~= spec_q1());
    }
    if let Some(r) = find_wb(v, &t1, false) {
        return Some(r);
    }
    let t2: Vec<&str> = vec!["1080p", "1080i"];
    proof {
        assert(views_of(t2@) =~= spec_q2());
    }
    if let Some(r) = find_wb(v, &t2, false) {
        return Some(r);
    }
    let t3: Vec<&str> = vec!["720p"];
    proof {
        assert(views_of(t3@) =~= spec_q3());
    }
    if let Some(r) = find_wb(v, &t3, false) {
        return Some(r);
    }
    let t4: Vec<&str> = vec!["480p", "576p", "SD"];
    proof {
        assert(views_of(t4@) =~= spec_q4());
    }
    find_wb(v, &t4, false)
}

pub open spec fn spec_src1() -> Seq<Seq<char>> {
    seq!["blu-ray"@, "bluray"@, "bdrip"@, "brrip"@, "bdremux"@]
}

pub open spec fn spec_src2() -> Seq<Seq<char>> {
    seq![
        "web-dl"@,
        "webrip"@,
        "webdl"@,
        "amzn"@,
        "nf"@,
        "dsnp"@,
        "hmax"@,
        "atvp"@,
        "pcok"@,
        "pmtp"@,
    ]
}

pub open spec fn spec_src3() -> Seq<Seq<char>> {
    seq!["dvdrip"@, "dvdr"@, "dvd9"@, "dvd5"@]
}

pub open spec fn spec_src4() -> Seq<Seq<char>> {
    seq!["hdrip"@, "hdtv"@, "pdtv"@]
}

pub open spec fn spec_src5() -> Seq<Seq<char>> {
    seq!["cam"@, "ts"@, "tc"@, "hdcam"@, "scr"@, "screener"@]
}

pub open spec fn spec_src6() -> Seq<Seq<char>> {
    seq!["remux"@]
}

/// Leftmost word-bounded source marker (case-insensitive), tiers in
/// priority order. The match is recognised and stripped, never stored.
pub open spec fn spec_find_source(s: Seq<char>) -> Option<(int, int)> {
    opt_pair_or(
        spec_find_wb_from(s, 0, spec_src1(), true),
        opt_pair_or(
            spec_find_wb_from(s, 0, spec_src2(), true),
            opt_pair_or(
                spec_find_wb_from(s, 0, spec_src3(), true),
                opt_pair_or(
                    spec_find_wb_from(s, 0, spec_src4(), true),
                    opt_pair_or(
                        spec_find_wb_from(s, 0, spec_src5(), true),
                        spec_find_wb_from(s, 0, spec_src6(), true),
                    ),
                ),
            ),
        ),
    )
}

fn find_source(v: &Vec<char>) -> (r: Option<(usize, usize)>)
    ensures
        match r {
            Some((a, b)) => spec_find_source(v@) == Some((a as int, b as int)) && a <= b
                <= v@.len(),
            None => spec_find_source(v@) is None,
        },
{
    let t1: Vec<&str> = vec!["blu-ray", "bluray", "bdrip", "brrip", "bdremux"];
    proof {
        assert(views_of(t1@) =~= spec_src1());
    }
    if let Some(r) = find_wb(v, &t1, true) {
        return Some(r);
    }
    let t2: Vec<&str> = vec![
        "web-dl",
        "webrip",
        "webdl",
        "amzn",
        "nf",
        "dsnp",
        "hmax",
        "atvp",
        "pcok",
        "pmtp",
    ];
    proof {
        assert(views_of(t2@) =~= spec_src2());
    }
    if let Some(r) = find_wb(v, &t2, true) {
        return Some(r);
    }
    let t3: Vec<&str> = vec!["dvdrip", "dvdr", "dvd9", "dvd5"];
    proof {
        assert(views_of(t3@) =~= spec_src3());
    }
    if let Some(r) = find_wb(v, &t3, true) {
        return Some(r);
    }
    let t4: Vec<&str> = vec!["hdrip", "hdtv", "pdtv"];
    proof {
        assert(views_of(t4@) =~= spec_src4());
    }
    if let Some(r) = find_wb(v, &t4, true) {
        return Some(r);
    }
    let t5: Vec<&str> = vec!["cam", "ts", "tc", "hdcam", "scr", "screener"];
    proof {
        assert(views_of(t5@) =~= spec_src5());
    }
    if let Some(r) = find_wb(v, &t5, true) {
        return Some(r);
    }
    let t6: Vec<&str> = vec!["remux"];
    proof {
        assert(views_of(t6@) =~= spec_src6());
    }
    find_wb(v, &t6, true)
}

pub open spec fn spec_cd1() -> Seq<Seq<char>> {
    seq!["h.265"@, "h265"@, "x.265"@, "x265"@, "hevc"@]
}

pub open spec fn spec_cd2() -> Seq<Seq<char>> {
    seq!["h.264"@, "h264"@, "x.264"@, "x264"@, "avc"@]
}

pub open spec fn spec_cd3() -> Seq<Seq<char>> {
    seq!["av1"@]
}

pub open spec fn spec_cd4() -> Seq<Seq<char>> {
    seq!["xvid"@, "divx"@]
}

pub open spec fn spec_cd5() -> Seq<Seq<char>> {
    seq!["vp9"@]
}

pub open spec fn spec_cd6() -> Seq<Seq<char>> {
    seq!["mpeg-2"@, "mpeg2"@, "mpeg-4"@, "mpeg4"@]
}

/// Leftmost word-bounded codec marker (case-insensitive), tiers in
/// priority order.
pub open spec fn spec_find_codec(s: Seq<char>) -> Option<(int, int)> {
    opt_pair_or(
        spec_find_wb_from(s, 0, spec_cd1(), true),
        opt_pair_or(
            spec_find_wb_from(s, 0, spec_cd2(), true),
            opt_pair_or(
                spec_find_wb_from(s, 0, spec_cd3(), true),
                opt_pair_or(
                    spec_find_wb_from(s, 0, spec_cd4(), true),
                    opt_pair_or(
                        spec_find_wb_from(s, 0, spec_cd5(), true),
                        spec_find_wb_from(s, 0, spec_cd6(), true),
                    ),
                ),
            ),
        ),
    )
}

fn find_codec(v: &Vec<char>) -> (r: Option<(usize, usize)>)
    ensures
        match r {
            Some((a, b)) => spec_find_codec(v@) == Some((a as int, b as int)) && a <= b
                <= v@.len(),
            None => spec_find_codec(v@) is None,
        },
{
    let t1: Vec<&str> = vec!["h.265", "h265", "x.265", "x265", "hevc"];
    proof {
        assert(views_of(t1@) =~= spec_cd1());
    }
    if let Some(r) = find_wb(v, &t1, true) {
        return Some(r);
    }
    let t2: Vec<&str> = vec!["h.264", "h264", "x.264", "x264", "avc"];
    proof {
        assert(views_of(t2@) =~= spec_cd2());
    }
    if let Some(r) = find_wb(v, &t2, true) {
        return Some(r);
    }
    let t3: Vec<&str> = vec!["av1"];
    proof {
        assert(views_of(t3@) =~= spec_cd3());
    }
    if let Some(r) = find_wb(v, &t3, true) {
        return Some(r);
    }
    let t4: Vec<&str> = vec!["xvid", "divx"];
    proof {
        assert(views_of(t4@) =~= spec_cd4());
    }
    if let Some(r) = find_wb(v, &t4, true) {
        return Some(r);
    }
    let t5: Vec<&str> = vec!["vp9"];
    proof {
        assert(views_of(t5@) =~= spec_cd5());
    }
    if let Some(r) = find_wb(v, &t5, true) {
        return Some(r);
    }
    let t6: Vec<&str> = vec!["mpeg-2", "mpeg2", "mpeg-4", "mpeg4"];
    proof {
        assert(views_of(t6@) =~= spec_cd6());
    }
    find_wb(v, &t6, true)
}

pub open spec fn spec_au1() -> Seq<Seq<char>> {
    seq![
        "dts-hd ma"@,
        "dts-hd.ma"@,
        "dts-hd_ma"@,
        "dts-hd-ma"@,
        "dts-hdma"@,
        "dtshd ma"@,
        "dtshd.ma"@,
        "dtshd_ma"@,
        "dtshd-ma"@,
        "dtshdma"@,
        "dts-hd"@,
        "dtshd"@,
        "dts-x"@,
        "dtsx"@,
        "dts"@,
    ]
}

pub open spec fn spec_au2() -> Seq<Seq<char>> {
    seq![
        "truehd atmos"@,
        "truehd.atmos"@,
        "truehd_atmos"@,
        "truehd-atmos"@,
        "truehdatmos"@,
        "truehd"@,
        "atmos"@,
    ]
}

pub open spec fn spec_au3() -> Seq<Seq<char>> {
    seq![
        "dd5.1"@,
        "ddp5.1"@,
        "dd+5.1"@,
        "dd 5.1"@,
        "ddp 5.1"@,
        "dd+ 5.1"@,
        "dd7.1"@,
        "ddp7.1"@,
        "dolby digital"@,
        "dolbydigital"@,
        "ac-3"@,
        "ac3"@,
        "eac-3"@,
        "eac3"@,
        "e-ac-3"@,
    ]
}

pub open spec fn spec_au4() -> Seq<Seq<char>> {
    seq!["flac"@, "lpcm"@, "pcm"@]
}

pub open spec fn spec_au5() -> Seq<Seq<char>> {
    seq![
        "aac 2.0"@,
        "aac.2.0"@,
        "aac_2.0"@,
        "aac-2.0"@,
        "aac2.0"@,
        "aac 5.1"@,
        "aac.5.1"@,
        "aac_5.1"@,
        "aac-5.1"@,
        "aac5.1"@,
        "aac"@,
    ]
}

pub open spec fn spec_au6() -> Seq<Seq<char>> {
    seq!["mp3"@, "ogg"@, "opus"@]
}

/// Leftmost word-bounded audio marker (case-insensitive), tiers in
/// priority order. Recognised and stripped, never stored.
pub open spec fn spec_find_audio(s: Seq<char>) -> Option<(int, int)> {
    opt_pair_or(
        spec_find_wb_from(s, 0, spec_au1(), true),
        opt_pair_or(
            spec_find_wb_from(s, 0, spec_au2(), true),
            opt_pair_or(
                spec_find_wb_from(s, 0, spec_au3(), true),
                opt_pair_or(
                    spec_find_wb_from(s, 0, spec_au4(), true),
                    opt_pair_or(
                        spec_find_wb_from(s, 0, spec_au5(), true),
                        spec_find_wb_from(s, 0, spec_au6(), true),
                    ),
                ),
            ),
        ),
    )
}

fn find_audio(v: &Vec<char>) -> (r: Option<(usize, usize)>)
    ensures
        match r {
            Some((a, b)) => spec_find_audio(v@) == Some((a as int, b as int)) && a <= b
                <= v@.len(),
            None => spec_find_audio(v@) is None,
        },
{
    let t1: Vec<&str> = vec![
        "dts-hd ma",
        "dts-hd.ma",
        "dts-hd_ma",
        "dts-hd-ma",
        "dts-hdma",
        "dtshd ma",
        "dtshd.ma",
        "dtshd_ma",
        "dtshd-ma",
        "dtshdma",
        "dts-hd",
        "dtshd",
        "dts-x",
        "dtsx",
        "dts",
    ];
    proof {
        assert(views_of(t1@) =~= spec_au1());
    }
    if let Some(r) = find_wb(v, &t1, true) {
        return Some(r);
    }
    let t2: Vec<&str> = vec![
        "truehd atmos",
        "truehd.atmos",
        "truehd_atmos",
        "truehd-atmos",
        "truehdatmos",
        "truehd",
        "atmos",
    ];
    proof {
        assert(views_of(t2@) =~= spec_au2());
    }
    if let Some(r) = find_wb(v, &t2, true) {
        return Some(r);
    }
    let t3: Vec<&str> = vec![
        "dd5.1",
        "ddp5.1",
        "dd+5.1",
        "dd 5.1",
        "ddp 5.1",
        "dd+ 5.1",
        "dd7.1",
        "ddp7.1",
        "dolby digital",
        "dolbydigital",
        "ac-3",
        "ac3",
        "eac-3",
        "eac3",
        "e-ac-3",
    ];
    proof {
        assert(views_of(t3@) =~= spec_au3());
    }
    if let Some(r) = find_wb(v, &t3, true) {
        return Some(r);
    }
    let t4: Vec<&str> = vec!["flac", "lpcm", "pcm"];
    proof {
        assert(views_of(t4@) =~= spec_au4());
    }
    if let Some(r) = find_wb(v, &t4, true) {
        return Some(r);
    }
    let t5: Vec<&str> = vec![
        "aac 2.0",
        "aac.2.0",
        "aac_2.0",
        "aac-2.0",
        "aac2.0",
        "aac 5.1",
        "aac.5.1",
        "aac_5.1",
        "aac-5.1",
        "aac5.1",
        "aac",
    ];
    proof {
        assert(views_of(t5@) =~= spec_au5());
    }
    if let Some(r) = find_wb(v, &t5, true) {
        return Some(r);
    }
    let t6: Vec<&str> = vec!["mp3", "ogg", "opus"];
    proof {
        assert(views_of(t6@) =~= spec_au6());
    }
    find_wb(v, &t6, true)
}

pub open spec fn spec_m1() -> Seq<Seq<char>> {
    seq![
        "proper"@,
        "repack"@,
        "rerip"@,
        "real"@,
        "internal"@,
        "limited"@,
        "extended"@,
        "unrated"@,
        "dc"@,
        "directors cut"@,
        "directors.cut"@,
        "directors_cut"@,
        "directors-cut"@,
        "directorscut"@,
    ]
}

pub open spec fn spec_m2() -> Seq<Seq<char>> {
    seq![
        "hdr10"@,
        "hdr"@,
        "dv"@,
        "dovi"@,
        "dolby vision"@,
        "dolby.vision"@,
        "dolby_vision"@,
        "dolby-vision"@,
        "dolbyvision"@,
        "sdr"@,
        "hlg"@,
    ]
}

pub open spec fn spec_m3() -> Seq<Seq<char>> {
    seq!["10bit"@, "8bit"@, "12bit"@]
}

pub open spec fn spec_m4() -> Seq<Seq<char>> {
    seq!["multi"@, "dual"@, "dubbed"@, "subbed"@]
}

pub open spec fn spec_m5() -> Seq<Seq<char>> {
    seq!["complete"@, "proper"@, "remastered"@]
}

/// All remaining release-info tags removed, one rule set after another.
pub open spec fn spec_misc_step(s: Seq<char>) -> Seq<char> {
    spec_strip_all_wb(
        spec_strip_all_wb(
            spec_strip_all_wb(
                spec_strip_all_wb(spec_strip_all_wb(s, spec_m1(), true), spec_m2(), true),
                spec_m3(),
                true,
            ),
            spec_m4(),
            true,
        ),
        spec_m5(),
        true,
    )
}

fn misc_step(v: &Vec<char>) -> (r: Vec<char>)
    ensures
        r@ == spec_misc_step(v@),
{
    let t1: Vec<&str> = vec![
        "proper",
        "repack",
        "rerip",
        "real",
        "internal",
        "limited",
        "extended",
        "unrated",
        "dc",
        "directors cut",
        "directors.cut",
        "directors_cut",
        "directors-cut",
        "directorscut",
    ];
    proof {
        assert(views_of(t1@) =~= spec_m1());
    }
    let w1 = strip_all_wb(v, &t1, true);
    let t2: Vec<&str> = vec![
        "hdr10",
        "hdr",
        "dv",
        "dovi",
        "dolby vision",
        "dolby.vision",
        "dolby_vision",
        "dolby-vision",
        "dolbyvision",
        "sdr",
        "hlg",
    ];
    proof {
        assert(views_of(t2@) =~= spec_m2());
    }
    let w2 = strip_all_wb(&w1, &t2, true);
    let t3: Vec<&str> = vec!["10bit", "8bit", "12bit"];
    proof {
        assert(views_of(t3@) =~= spec_m3());
    }
    let w3 = strip_all_wb(&w2, &t3, true);
    let t4: Vec<&str> = vec!["multi", "dual", "dubbed", "subbed"];
    proof {
        assert(views_of(t4@) =~= spec_m4());
    }
    let w4 = strip_all_wb(&w3, &t4, true);
    let t5: Vec<&str> = vec!["complete", "proper", "remastered"];
    proof {
        assert(views_of(t5@) =~= spec_m5());
    }
    strip_all_wb(&w4, &t5, true)
}

/// The season/episode step: the five rules are tried in priority order and
/// the first leftmost match wins; its span is replaced by one space.
pub open spec fn spec_se_step(s: Seq<char>) -> (Option<int>, Option<int>, Seq<char>) {
    if spec_find_se(s, 0, SePat::SxxExx) is Some {
        let f = spec_find_se(s, 0, SePat::SxxExx)->Some_0;
        (Some(f.1.0), Some(f.1.1), spec_splice_space(s, f.0, f.1.2))
    } else if spec_find_se(s, 0, SePat::NxNn) is Some {
        let f = spec_find_se(s, 0, SePat::NxNn)->Some_0;
        (Some(f.1.0), Some(f.1.1), spec_splice_space(s, f.0, f.1.2))
    } else if spec_find_se(s, 0, SePat::SeasonEpisode) is Some {
        let f = spec_find_se(s, 0, SePat::SeasonEpisode)->Some_0;
        (Some(f.1.0), Some(f.1.1), spec_splice_space(s, f.0, f.1.2))
    } else if spec_find_se(s, 0, SePat::ChapterEp) is Some {
        let f = spec_find_se(s, 0, SePat::ChapterEp)->Some_0;
        (Some(f.1.0), Some(f.1.1), spec_splice_space(s, f.0, f.1.2))
    } else if spec_find_se(s, 0, SePat::BareEp) is Some {
        let f = spec_find_se(s, 0, SePat::BareEp)->Some_0;
        (Some(f.1.0), Some(f.1.1), spec_splice_space(s, f.0, f.1.2))
    } else {
        (None, None, s)
    }
}

fn extract_se(v: &Vec<char>) -> (r: (Option<i64>, Option<i64>, Vec<char>))
    ensures
        view_opt_i64(r.0) == spec_se_step(v@).0,
        view_opt_i64(r.1) == spec_se_step(v@).1,
        r.2@ == spec_se_step(v@).2,
{
    if let Some((i, (se, ep, end))) = find_se(v, SePat::SxxExx) {
        return (Some(se), Some(ep), splice_space(v, i, end));
    }
    if let Some((i, (se, ep, end))) = find_se(v, SePat::NxNn) {
        return (Some(se), Some(ep), splice_space(v, i, end));
    }
    if let Some((i, (se, ep, end))) = find_se(v, SePat::SeasonEpisode) {
        return (Some(se), Some(ep), splice_space(v, i, end));
    }
    if let Some((i, (se, ep, end))) = find_se(v, SePat::ChapterEp) {
        return (Some(se), Some(ep), splice_space(v, i, end));
    }
    if let Some((i, (se, ep, end))) = find_se(v, SePat::BareEp) {
        return (Some(se), Some(ep), splice_space(v, i, end));
    }
    let keep = subvec(v, 0, v.len());
    proof {
        assert(v@.subrange(0, v@.len() as int) =~= v@);
    }
    (None, None, keep)
}

/// Title cleanup: dash variants to spaces, bracket characters dropped,
/// whitespace runs collapsed, ends trimmed.
pub open spec fn spec_title_clean(s: Seq<char>) -> Seq<char> {
    spec_trim(
        spec_collapse_from(spec_drop_bracket_chars(spec_dashes_to_spaces(s), 0), 0, false),
    )
}

fn title_clean(v: &Vec<char>) -> (r: Vec<char>)
    ensures
        r@ == spec_title_clean(v@),
{
    let w = dashes_to_spaces(v);
    let w = drop_bracket_chars(&w);
    let w = collapse_spaces(&w);
    trim(&w)
}

/// One extract-and-strip step for a recognised marker span.
pub open spec fn spec_cat_step(s: Seq<char>, f: Option<(int, int)>) -> (
    Option<Seq<char>>,
    Seq<char>,
) {
    match f {
        Some((a, b)) => (Some(s.subrange(a, b)), spec_splice_space(s, a, b)),
        None => (None, s),
    }
}

/// What a file name parses to: the structured identity inferred from it.
pub ghost struct ParsedFileV {
    pub title: Option<Seq<char>>,
    pub year: Option<int>,
    pub season: Option<int>,
    pub episode: Option<int>,
    pub quality: Option<Seq<char>>,
    pub codec: Option<Seq<char>>,
    pub media_type: MediaType,
}

/// The whole file-name pipeline, step by step, over the name's characters.
pub open spec fn spec_parse_file_name(s: Seq<char>, max_year: int) -> ParsedFileV {
    let w1 = spec_strip_brackets(spec_strip_extension(s), 0);
    let w2 = spec_strip_parens(w1, 0);
    let w3 = spec_dots_to_spaces(w2);
    let w4 = spec_strip_release_group(w3);
    let se = spec_se_step(w4);
    let yr = spec_year_step(se.2, max_year);
    let q = spec_cat_step(yr.1, spec_find_quality(yr.1));
    let src = spec_cat_step(q.1, spec_find_source(q.1));
    let cd = spec_cat_step(src.1, spec_find_codec(src.1));
    let au = spec_cat_step(cd.1, spec_find_audio(cd.1));
    let t = spec_title_clean(spec_misc_step(au.1));
    ParsedFileV {
        title: if t.len() > 0 {
            Some(t)
        } else {
            None
        },
        year: yr.0,
        season: se.0,
        episode: se.1,
        quality: q.0,
        codec: cd.0,
        media_type: if se.0 is Some || se.1 is Some {
            MediaType::Tv
        } else if yr.0 is Some {
            MediaType::Movie
        } else {
            MediaType::Unknown
        },
    }
}

/// Structured identity inferred from a bare file name.
#[derive(Debug, Clone)]
pub struct ParsedFile {
    pub title: Option<String>,
    pub year: Option<i64>,
    pub season: Option<i64>,
    pub episode: Option<i64>,
    pub quality: Option<String>,
    pub codec: Option<String>,
    pub media_type: MediaType,
}

pub open spec fn view_opt_string(o: Option<String>) -> Option<Seq<char>> {
    match o {
        Some(s) => Some(s@),
        None => None,
    }
}

impl View for ParsedFile {
    type V = ParsedFileV;

    open spec fn view(&self) -> ParsedFileV {
        ParsedFileV {
            title: view_opt_string(self.title),
            year: view_opt_i64(self.year),
            season: view_opt_i64(self.season),
            episode: view_opt_i64(self.episode),
            quality: view_opt_string(self.quality),
            codec: view_opt_string(self.codec),
            media_type: self.media_type,
        }
    }
}

/// Parse a bare file name, taking years up to `max_year` as valid.
pub fn parse_file_name_at(file_name: &str, max_year: i64) -> (r: ParsedFile)
    ensures
        r@ == spec_parse_file_name(file_name@, max_year as int),
{
    let v0 = to_chars(file_name);
    let w0 = strip_extension(&v0);
    let w1 = strip_brackets(&w0);
    let w2 = strip_parens(&w1);
    let w3 = dots_to_spaces(&w2);
    let w4 = strip_release_group(&w3);
    let (season, episode, w5) = extract_se(&w4);
    let (year, w6) = extract_year(&w5, max_year);
    let ghost sq = spec_cat_step(w6@, spec_find_quality(w6@));
    let (quality, w7): (Option<Vec<char>>, Vec<char>) = match find_quality(&w6) {
        Some((a, b)) => (Some(subvec(&w6, a, b)), splice_space(&w6, a, b)),
        None => {
            let keep = subvec(&w6, 0, w6.len());
            proof {
                assert(w6@.subrange(0, w6@.len() as int) =~= w6@);
            }
            (None, keep)
        },
    };
    let ghost ssrc = spec_cat_step(w7@, spec_find_source(w7@));
    let w8: Vec<char> = match find_source(&w7) {
        Some((a, b)) => splice_space(&w7, a, b),
        None => {
            let keep = subvec(&w7, 0, w7.len());
            proof {
                assert(w7@.subrange(0, w7@.len() as int) =~= w7@);
            }
            keep
        },
    };
    let ghost scd = spec_cat_step(w8@, spec_find_codec(w8@));
    let (codec, w9): (Option<Vec<char>>, Vec<char>) = match find_codec(&w8) {
        Some((a, b)) => (Some(subvec(&w8, a, b)), splice_space(&w8, a, b)),
        None => {
            let keep = subvec(&w8, 0, w8.len());
            proof {
                assert(w8@.subrange(0, w8@.len() as int) =~= w8@);
            }
            (None, keep)
        },
    };
    let ghost sau = spec_cat_step(w9@, spec_find_audio(w9@));
    let w10: Vec<char> = match find_audio(&w9) {
        Some((a, b)) => splice_space(&w9, a, b),
        None => {
            let keep = subvec(&w9, 0, w9.len());
            proof {
                assert(w9@.subrange(0, w9@.len() as int) =~= w9@);
            }
            keep
        },
    };
    let w11 = misc_step(&w10);
    let t = title_clean(&w11);
    let title: Option<String> = if t.len() > 0 {
        Some(from_chars(&t))
    } else {
        None
    };
    let quality_s: Option<String> = match quality {
        Some(q) => Some(from_chars(&q)),
        None => None,
    };
    let codec_s: Option<String> = match codec {
        Some(c) => Some(from_chars(&c)),
        None => None,
    };
    let media_type = if season.is_some() || episode.is_some() {
        MediaType::Tv
    } else if year.is_some() {
        MediaType::Movie
    } else {
        MediaType::Unknown
    };
    let r = ParsedFile { title, year, season, episode, quality: quality_s, codec: codec_s, media_type };
    proof {
        let spec = spec_parse_file_name(file_name@, max_year as int);
        assert(r@.title == spec.title);
        assert(r@.year == spec.year);
        assert(r@.season == spec.season);
        assert(r@.episode == spec.episode);
        assert(r@.quality == spec.quality);
        assert(r@.codec == spec.codec);
        assert(r@.media_type == spec.media_type);
    }
    r
}

/// What a folder name parses to: a title and perhaps a year.
pub ghost struct ParsedFolderV {
    pub title: Option<Seq<char>>,
    pub year: Option<int>,
}

/// A four-digit year inside parentheses at `i`.
pub open spec fn spec_paren_year_at(s: Seq<char>, i: int) -> bool {
    &&& 0 <= i
    &&& i + 6 <= s.len()
    &&& s[i] == '('
    &&& spec_is_digit(s[i + 1])
    &&& spec_is_digit(s[i + 2])
    &&& spec_is_digit(s[i + 3])
    &&& spec_is_digit(s[i + 4])
    &&& s[i + 5] == ')'
}

pub open spec fn spec_find_paren_year(s: Seq<char>, i: int) -> Option<int>
    decreases s.len() - i,
        when 0 <= i
{
    if i < 0 || i >= s.len() {
        None
    } else if spec_paren_year_at(s, i) {
        Some(i)
    } else {
        spec_find_paren_year(s, i + 1)
    }
}

fn find_paren_year(v: &Vec<char>) -> (r: Option<usize>)
    ensures
        match r {
            Some(i) => spec_find_paren_year(v@, 0) == Some(i as int) && i + 6 <= v@.len()
                && spec_paren_year_at(v@, i as int),
            None => spec_find_paren_year(v@, 0) is None,
        },
{
    let n = v.len();
    let mut i: usize = 0;
    while i < n
        invariant
            n == v@.len(),
            spec_find_paren_year(v@, 0) == spec_find_paren_year(v@, i as int),
        decreases n - i,
    {
        if n - i >= 6 && v[i] == '(' && is_digit(v[i + 1]) && is_digit(v[i + 2]) && is_digit(
            v[i + 3],
        ) && is_digit(v[i + 4]) && v[i + 5] == ')' {
            return Some(i);
        }
        proof {
            assert(!spec_paren_year_at(v@, i as int));
        }
        i += 1;
    }
    None
}

/// A four-digit year at `i + 1` led by a separator and bounded on the
/// right by a separator or the end of the name.
pub open spec fn spec_trailing_year_at(s: Seq<char>, i: int) -> bool {
    &&& 0 <= i
    &&& i + 5 <= s.len()
    &&& spec_is_sep(s[i])
    &&& spec_is_digit(s[i + 1])
    &&& spec_is_digit(s[i + 2])
    &&& spec_is_digit(s[i + 3])
    &&& spec_is_digit(s[i + 4])
    &&& i + 5 == s.len() || spec_is_sep(s[i + 5])
}

pub open spec fn spec_find_trailing_year(s: Seq<char>, i: int) -> Option<int>
    decreases s.len() - i,
        when 0 <= i
{
    if i < 0 || i >= s.len() {
        None
    } else if spec_trailing_year_at(s, i) {
        Some(i)
    } else {
        spec_find_trailing_year(s, i + 1)
    }
}

fn find_trailing_year(v: &Vec<char>) -> (r: Option<usize>)
    ensures
        match r {
            Some(i) => spec_find_trailing_year(v@, 0) == Some(i as int) && i + 5 <= v@.len()
                && spec_trailing_year_at(v@, i as int),
            None => spec_find_trailing_year(v@, 0) is None,
        },
{
    let n = v.len();
    let mut i: usize = 0;
    while i < n
        invariant
            n == v@.len(),
            spec_find_trailing_year(v@, 0) == spec_find_trailing_year(v@, i as int),
        decreases n - i,
    {
        if n - i >= 5 && is_sep(v[i]) && is_digit(v[i + 1]) && is_digit(v[i + 2]) && is_digit(
            v[i + 3],
        ) && is_digit(v[i + 4]) && (i + 5 == n || is_sep(v[i + 5])) {
            return Some(i);
        }
        proof {
            assert(!spec_trailing_year_at(v@, i as int));
        }
        i += 1;
    }
    None
}

/// Bracket tags removed outright (folder names).
pub open spec fn spec_drop_brackets(s: Seq<char>, i: int) -> Seq<char>
    decreases s.len() - i,
        when 0 <= i
{
    if i >= s.len() {
        Seq::empty()
    } else if s[i] == '[' && spec_find_char_from(s, i + 1, ']') is Some && i < spec_find_char_from(
        s,
        i + 1,
        ']',
    )->Some_0 < s.len() {
        spec_drop_brackets(s, spec_find_char_from(s, i + 1, ']')->Some_0 + 1)
    } else {
        seq![s[i]] + spec_drop_brackets(s, i + 1)
    }
}

fn drop_brackets(v: &Vec<char>) -> (r: Vec<char>)
    ensures
        r@ == spec_drop_brackets(v@, 0),
{
    let mut out: Vec<char> = Vec::new();
    let mut i: usize = 0;
    while i < v.len()
        invariant
            i <= v@.len(),
            spec_drop_brackets(v@, 0) == out@ + spec_drop_brackets(v@, i as int),
        decreases v@.len() - i,
    {
        let ghost out0 = out@;
        if v[i] == '[' {
            match find_char_from(v, i + 1, ']') {
                Some(j) => {
                    i = j + 1;
                },
                None => {
                    out.push(v[i]);
                    proof {
                        assert(out@ =~= out0 + seq![v@[i as int]]);
                        assert(out0 + (seq![v@[i as int]] + spec_drop_brackets(v@, i + 1)) =~= (
                        out0 + seq![v@[i as int]]) + spec_drop_brackets(v@, i + 1));
                    }
                    i += 1;
                },
            }
        } else {
            out.push(v[i]);
            proof {
                assert(out@ =~= out0 + seq![v@[i as int]]);
                assert(out0 + (seq![v@[i as int]] + spec_drop_brackets(v@, i + 1)) =~= (out0
                    + seq![v@[i as int]]) + spec_drop_brackets(v@, i + 1));
            }
            i += 1;
        }
    }
    proof {
        assert(out@ + spec_drop_brackets(v@, v@.len() as int) =~= out@);
    }
    out
}

/// The folder year step: a year inside parentheses is preferred; only then
/// is a separator-bounded trailing year tried, whose digits are removed.
pub open spec fn spec_folder_year_step(s: Seq<char>, max_year: int) -> (Option<int>, Seq<char>) {
    let py = spec_find_paren_year(s, 0);
    if py is Some && 1900 <= spec_digits_val(s, py->Some_0 + 1, 4) <= max_year {
        (Some(spec_digits_val(s, py->Some_0 + 1, 4)), s)
    } else {
        match spec_find_trailing_year(s, 0) {
            Some(i) => {
                let y = spec_digits_val(s, i + 1, 4);
                if 1900 <= y <= max_year {
                    (Some(y), spec_splice_space(s, i + 1, i + 5))
                } else {
                    (None, s)
                }
            },
            None => (None, s),
        }
    }
}

fn folder_year_step(v: &Vec<char>, max_year: i64) -> (r: (Option<i64>, Vec<char>))
    ensures
        view_opt_i64(r.0) == spec_folder_year_step(v@, max_year as int).0,
        r.1@ == spec_folder_year_step(v@, max_year as int).1,
{
    let n = v.len();
    if let Some(i) = find_paren_year(v) {
        let y = digits_val(v, i + 1, 4);
        if 1900 <= y && y <= max_year {
            let keep = subvec(v, 0, n);
            proof {
                assert(v@.subrange(0, v@.len() as int) =~= v@);
            }
            return (Some(y), keep);
        }
    }
    match find_trailing_year(v) {
        Some(i) => {
            let y = digits_val(v, i + 1, 4);
            if 1900 <= y && y <= max_year {
                (Some(y), splice_space(v, i + 1, i + 5))
            } else {
                let keep = subvec(v, 0, n);
                proof {
                    assert(v@.subrange(0, v@.len() as int) =~= v@);
                }
                (None, keep)
            }
        },
        None => {
            let keep = subvec(v, 0, n);
            proof {
                assert(v@.subrange(0, v@.len() as int) =~= v@);
            }
            (None, keep)
        },
    }
}

/// The whole folder-name pipeline over the name's characters.
pub open spec fn spec_parse_folder_name(s: Seq<char>, max_year: int) -> ParsedFolderV {
    let w1 = spec_drop_brackets(s, 0);
    let ys = spec_folder_year_step(w1, max_year);
    let w2 = spec_strip_all_parens(ys.1, 0);
    let t = spec_title_clean(spec_dots_to_spaces(w2));
    ParsedFolderV {
        title: if t.len() > 0 {
            Some(t)
        } else {
            None
        },
        year: ys.0,
    }
}

/// Title and year inferred from a directory name.
#[derive(Debug, Clone)]
pub struct ParsedFolder {
    pub title: Option<String>,
    pub year: Option<i64>,
}

impl View for ParsedFolder {
    type V = ParsedFolderV;

    open spec fn view(&self) -> ParsedFolderV {
        ParsedFolderV { title: view_opt_string(self.title), year: view_opt_i64(self.year) }
    }
}

/// Parse a directory name, taking years up to `max_year` as valid.
pub fn parse_folder_name_at(folder_name: &str, max_year: i64) -> (r: ParsedFolder)
    ensures
        r@ == spec_parse_folder_name(folder_name@, max_year as int),
{
    let v0 = to_chars(folder_name);
    let w1 = drop_brackets(&v0);
    let (year, w2) = folder_year_step(&w1, max_year);
    let w3 = strip_all_parens(&w2);
    let w4 = dots_to_spaces(&w3);
    let t = title_clean(&w4);
    let title: Option<String> = if t.len() > 0 {
        Some(from_chars(&t))
    } else {
        None
    };
    let r = ParsedFolder { title, year };
    proof {
        let spec = spec_parse_folder_name(folder_name@, max_year as int);
        assert(r@.title == spec.title);
        assert(r@.year == spec.year);
    }
    r
}

/// Relies on chrono's `Utc::now` and `Datelike::year` for the current
/// civil year; the value depends on the system clock, so nothing is
/// promised of it.
#[verifier::external_body]
fn clock_year() -> i32 {
    chrono::Utc::now().year()
}

/// Parse a bare file name. Year validity is judged against the current
/// clock year plus one, so the result is pinned for some such bound.
/// Parsing never fails: an unrecognised field is absent, never an error,
/// and the media type follows the season/episode/year rule.
pub fn parse_file_name(file_name: &str) -> (r: ParsedFile)
    ensures
        exists|max_year: int| r@ == #[trigger] spec_parse_file_name(file_name@, max_year),
        r@.media_type == if r@.season is Some || r@.episode is Some {
            MediaType::Tv
        } else if r@.year is Some {
            MediaType::Movie
        } else {
            MediaType::Unknown
        },
        r@.title is Some ==> r@.title->0.len() > 0,
{
    let cy = clock_year();
    let max_year: i64 = (cy as i64) + 1;
    let r = parse_file_name_at(file_name, max_year);
    proof {
        assert(r@ == spec_parse_file_name(file_name@, max_year as int));
    }
    r
}

/// Parse a directory name. Year validity is judged against the current
/// clock year plus one, so the result is pinned for some such bound.
/// Parsing never fails: an unrecognised field is absent, never an error.
pub fn parse_folder_name(folder_name: &str) -> (r: ParsedFolder)
    ensures
        exists|max_year: int| r@ == #[trigger] spec_parse_folder_name(folder_name@, max_year),
        r@.title is Some ==> r@.title->0.len() > 0,
{
    let cy = clock_year();
    let max_year: i64 = (cy as i64) + 1;
    let r = parse_folder_name_at(folder_name, max_year);
    proof {
        assert(r@ == spec_parse_folder_name(folder_name@, max_year as int));
    }
    r
}

} // verus!
