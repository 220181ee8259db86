//! Destination-path templating: given a matched group and one of its
//! files, the canonical library-relative path the transfer engine sends
//! the file to. Two presets are supported; both lay movies out as
//! `Title (Year)/Title (Year).ext` and differ in how episodes, specials
//! and extras are named. Pure string construction: the filesystem is
//! never touched.

use vstd::prelude::*;

use crate::schema::ExtraType;
use crate::schema::FileCategory;
use crate::schema::Group;
use crate::schema::Job;
use crate::text::from_chars;
use crate::text::spec_collapse_from;
use crate::text::spec_is_space;
use crate::text::spec_trim;
use crate::text::str_eq_ci;
use crate::text::spec_eq_ci_seq;
use crate::text::collapse_spaces;
use crate::text::is_space;
use crate::text::lower_vec;
use crate::text::spec_lower_seq;
use crate::text::to_chars;
use crate::text::trim;
use crate::parser::spec_strip_extension;
use crate::parser::strip_extension;

verus! {

/// The two supported library layouts.
#[derive(Debug, Clone, Copy, PartialEq, Eq, Structural)]
pub enum NamingPreset {
    Jellyfin,
    Plex,
}

pub open spec fn spec_preset_from(s: Seq<char>) -> NamingPreset {
    if spec_eq_ci_seq(s, "plex"@) {
        NamingPreset::Plex
    } else {
        NamingPreset::Jellyfin
    }
}

pub open spec fn spec_preset_str(p: NamingPreset) -> Seq<char> {
    match p {
        NamingPreset::Jellyfin => "jellyfin"@,
        NamingPreset::Plex => "plex"@,
    }
}

impl NamingPreset {
    pub fn from_str(s: &str) -> (r: Self)
        ensures
            r == spec_preset_from(s@),
    {
        if str_eq_ci(s, "plex") {
            NamingPreset::Plex
        } else {
            NamingPreset::Jellyfin
        }
    }

    pub fn as_str(&self) -> (r: &'static str)
        ensures
            r@ == spec_preset_str(*self),
    {
        match self {
            NamingPreset::Jellyfin => "jellyfin",
            NamingPreset::Plex => "plex",
        }
    }
}

/// Folder name one kind of bonus material lands in under the Jellyfin
/// layout.
pub open spec fn spec_jellyfin_extra_folder(e: ExtraType) -> Seq<char> {
    match e {
        ExtraType::BehindTheScenes => "behind the scenes"@,
        ExtraType::DeletedScenes => "deleted scenes"@,
        ExtraType::Featurettes => "featurettes"@,
        ExtraType::Interviews => "interviews"@,
        ExtraType::Scenes => "clips"@,
        ExtraType::Shorts => "shorts"@,
        ExtraType::Trailers => "trailers"@,
        ExtraType::Other => "extras"@,
    }
}

pub fn jellyfin_extra_folder(extra_type: ExtraType) -> (r: &'static str)
    ensures
        r@ == spec_jellyfin_extra_folder(extra_type),
{
    match extra_type {
        ExtraType::BehindTheScenes => "behind the scenes",
        ExtraType::DeletedScenes => "deleted scenes",
        ExtraType::Featurettes => "featurettes",
        ExtraType::Interviews => "interviews",
        ExtraType::Scenes => "clips",
        ExtraType::Shorts => "shorts",
        ExtraType::Trailers => "trailers",
        ExtraType::Other => "extras",
    }
}

/// Folder name one kind of bonus material lands in under the Plex layout.
pub open spec fn spec_plex_extra_folder(e: ExtraType) -> Seq<char> {
    match e {
        ExtraType::BehindTheScenes => "Behind The Scenes"@,
        ExtraType::DeletedScenes => "Deleted Scenes"@,
        ExtraType::Featurettes => "Featurettes"@,
        ExtraType::Interviews => "Interviews"@,
        ExtraType::Scenes => "Scenes"@,
        ExtraType::Shorts => "Shorts"@,
        ExtraType::Trailers => "Trailers"@,
        ExtraType::Other => "Other"@,
    }
}

pub fn plex_extra_folder(extra_type: ExtraType) -> (r: &'static str)
    ensures
        r@ == spec_plex_extra_folder(extra_type),
{
    match extra_type {
        ExtraType::BehindTheScenes => "Behind The Scenes",
        ExtraType::DeletedScenes => "Deleted Scenes",
        ExtraType::Featurettes => "Featurettes",
        ExtraType::Interviews => "Interviews",
        ExtraType::Scenes => "Scenes",
        ExtraType::Shorts => "Shorts",
        ExtraType::Trailers => "Trailers",
        ExtraType::Other => "Other",
    }
}

/// Characters a file or folder name may not carry.
pub open spec fn spec_is_invalid_name_char(c: char) -> bool {
    c == '<' || c == '>' || c == ':' || c == '"' || c == '/' || c == '\\' || c == '|' || c == '?'
        || c == '*'
}

pub open spec fn spec_drop_invalid(s: Seq<char>, i: int) -> Seq<char>
    decreases s.len() - i,
        when 0 <= i
{
    if i >= s.len() {
        Seq::empty()
    } else if spec_is_invalid_name_char(s[i]) {
        spec_drop_invalid(s, i + 1)
    } else {
        seq![s[i]] + spec_drop_invalid(s, i + 1)
    }
}

/// A string made safe for use in file and folder names: forbidden
/// characters dropped, whitespace runs collapsed, ends trimmed.
pub open spec fn spec_sanitize(s: Seq<char>) -> Seq<char> {
    spec_trim(spec_collapse_from(spec_drop_invalid(s, 0), 0, false))
}

fn drop_invalid(v: &Vec<char>) -> (r: Vec<char>)
    ensures
        r@ == spec_drop_invalid(v@, 0),
{
    let mut out: Vec<char> = Vec::new();
    let mut i: usize = 0;
    while i < v.len()
        invariant
            i <= v@.len(),
            spec_drop_invalid(v@, 0) == out@ + spec_drop_invalid(v@, i as int),
        decreases v@.len() - i,
    {
        let ghost out0 = out@;
        let c = v[i];
        if !(c == '<' || c == '>' || c == ':' || c == '"' || c == '/' || c == '\\' || c == '|'
            || c == '?' || c == '*') {
            out.push(c);
            proof {
                assert(out@ =~= out0 + seq![v@[i as int]]);
                assert(out0 + (seq![v@[i as int]] + spec_drop_invalid(v@, i + 1)) =~= (out0
                    + seq![v@[i as int]]) + spec_drop_invalid(v@, i + 1));
            }
        }
        i += 1;
    }
    proof {
        assert(out@ + spec_drop_invalid(v@, v@.len() as int) =~= out@);
    }
    out
}

fn sanitize_chars(v: &Vec<char>) -> (r: Vec<char>)
    ensures
        r@ == spec_sanitize(v@),
{
    let w = drop_invalid(v);
    let w = collapse_spaces(&w);
    trim(&w)
}

/// Sanitize a string for use in file and folder names.
pub fn sanitize(s: &str) -> (r: String)
    ensures
        r@ == spec_sanitize(s@),
{
    let v = to_chars(s);
    from_chars(&sanitize_chars(&v))
}

/// Decimal digits of a non-negative number.
pub open spec fn spec_digits_of(n: int) -> Seq<char>
    decreases n,
{
    if n < 10 {
        seq![(48 + (if n >= 0 {
            n
        } else {
            0
        })) as char]
    } else {
        spec_digits_of(n / 10) + seq![(48 + n % 10) as char]
    }
}

fn digits_of(n: u64) -> (r: Vec<char>)
    ensures
        r@ == spec_digits_of(n as int),
    decreases n,
{
    if n < 10 {
        let d = n as u8;
        let mut v: Vec<char> = Vec::new();
        v.push((48 + d) as char);
        proof {
            assert(v@ =~= seq![(48 + n as int) as char]);
        }
        v
    } else {
        let mut v = digits_of(n / 10);
        let ghost v0 = v@;
        let d = (n % 10) as u8;
        v.push((48 + d) as char);
        proof {
            assert(v@ =~= v0 + seq![(48 + (n as int) % 10) as char]);
        }
        v
    }
}

pub open spec fn spec_zeros(k: int) -> Seq<char>
    decreases k,
{
    if k <= 0 {
        Seq::empty()
    } else {
        seq!['0'] + spec_zeros(k - 1)
    }
}

/// A number padded with leading zeros to at least `width` digits.
/// Negative numbers render as zero, as no field of a parsed record is
/// negative by the time a path is built.
pub open spec fn spec_pad_num(val: Option<int>, width: int) -> Seq<char> {
    let n = match val {
        Some(v) => if v >= 0 {
            v
        } else {
            0
        },
        None => 0,
    };
    let d = spec_digits_of(n);
    if d.len() >= width {
        d
    } else {
        spec_zeros(width - d.len()) + d
    }
}

fn pad_num_chars(val: Option<i64>, width: usize) -> (r: Vec<char>)
    ensures
        r@ == spec_pad_num(crate::parser::view_opt_i64(val), width as int),
{
    let n: u64 = match val {
        Some(v) => if v >= 0 {
            v as u64
        } else {
            0
        },
        None => 0,
    };
    let d = digits_of(n);
    if d.len() >= width {
        d
    } else {
        let mut out: Vec<char> = Vec::new();
        let k = width - d.len();
        let mut i: usize = 0;
        while i < k
            invariant
                i <= k,
                out@ == spec_zeros(i as int),
            decreases k - i,
        {
            let ghost o0 = out@;
            out.push('0');
            proof {
                assert(out@ =~= o0 + seq!['0']);
                lemma_zeros_snoc(i + 1 as int);
            }
            i += 1;
        }
        let mut j: usize = 0;
        while j < d.len()
            invariant
                j <= d@.len(),
                out@ == spec_zeros(k as int) + d@.take(j as int),
            decreases d@.len() - j,
        {
            out.push(d[j]);
            proof {
                assert(out@ =~= spec_zeros(k as int) + d@.take(j + 1 as int));
            }
            j += 1;
        }
        proof {
            assert(d@.take(d@.len() as int) =~= d@);
        }
        out
    }
}

/// Building a run of zeros by appending equals building it by prepending.
proof fn lemma_zeros_snoc(k: int)
    requires
        k >= 1,
    ensures
        spec_zeros(k) == spec_zeros(k - 1) + seq!['0'],
    decreases k,
{
    if k == 1 {
        assert(spec_zeros(1) =~= spec_zeros(0) + seq!['0']);
    } else {
        lemma_zeros_snoc(k - 1);
        assert(spec_zeros(k) =~= spec_zeros(k - 1) + seq!['0']);
    }
}

/// Pad a number with leading zeros.
pub fn pad_num(val: Option<i64>, width: usize) -> (r: String)
    ensures
        r@ == spec_pad_num(crate::parser::view_opt_i64(val), width as int),
{
    from_chars(&pad_num_chars(val, width))
}

/// File extension with any leading dots removed.
pub open spec fn spec_skip_dots(s: Seq<char>) -> Seq<char>
    decreases s.len(),
{
    if s.len() > 0 && s[0] == '.' {
        spec_skip_dots(s.skip(1))
    } else {
        s
    }
}

fn skip_dots(v: &Vec<char>) -> (r: Vec<char>)
    ensures
        r@ == spec_skip_dots(v@),
{
    let mut a: usize = 0;
    proof {
        assert(v@.skip(0) =~= v@);
    }
    while a < v.len() && v[a] == '.'
        invariant
            a <= v@.len(),
            spec_skip_dots(v@) == spec_skip_dots(v@.skip(a as int)),
        decreases v@.len() - a,
    {
        proof {
            assert(v@.skip(a as int)[0] == v@[a as int]);
            assert(v@.skip(a as int).skip(1) =~= v@.skip(a + 1 as int));
        }
        a += 1;
    }
    proof {
        if a < v.len() {
            assert(v@.skip(a as int)[0] == v@[a as int]);
        }
        assert(spec_skip_dots(v@.skip(a as int)) == v@.skip(a as int));
        assert(v@.skip(a as int) =~= v@.subrange(a as int, v@.len() as int));
    }
    crate::text::subvec(v, a, v.len())
}

/// The display title a path is built from: the matched catalog title,
/// else the parsed title, else a fixed placeholder; sanitized.
pub open spec fn spec_path_title(group: &Group) -> Seq<char> {
    if group.tmdb_title is Some {
        spec_sanitize(group.tmdb_title->0@)
    } else if group.parsed_title is Some {
        spec_sanitize(group.parsed_title->0@)
    } else {
        spec_sanitize("Unknown"@)
    }
}

/// The year a path is built from: the group's matched year, else its
/// parsed year, else the job's, in that order.
pub open spec fn spec_path_year(group: &Group, job: &Job) -> Option<int> {
    if group.tmdb_year is Some {
        Some(group.tmdb_year->0 as int)
    } else if group.parsed_year is Some {
        Some(group.parsed_year->0 as int)
    } else if job.tmdb_year is Some {
        Some(job.tmdb_year->0 as int)
    } else if job.parsed_year is Some {
        Some(job.parsed_year->0 as int)
    } else {
        None
    }
}

/// The year rendered in digits, or empty when unknown; a negative year
/// renders as zero.
pub open spec fn spec_year_digits(group: &Group, job: &Job) -> Seq<char> {
    match spec_path_year(group, job) {
        Some(y) => spec_digits_of(
            if y >= 0 {
                y
            } else {
                0
            },
        ),
        None => Seq::empty(),
    }
}

/// `Title (Year)`, or the bare title when the year is unknown.
pub open spec fn spec_title_year(title: Seq<char>, yd: Seq<char>) -> Seq<char> {
    if yd.len() > 0 {
        title + " ("@ + yd + ")"@
    } else {
        title
    }
}

/// The ` - Episode Title` tail of an episode file name, omitted when the
/// episode title is empty or the filler word `Episode`.
pub open spec fn spec_ep_tail(et: Seq<char>, ext: Seq<char>) -> Seq<char> {
    if et.len() > 0 && et != "Episode"@ {
        " - "@ + et + "."@ + ext
    } else {
        "."@ + ext
    }
}

/// The folder bonus material lands in: by its kind under the preset's
/// names, else the configured extras folder (lower-cased for Jellyfin).
pub open spec fn spec_extra_folder(job: &Job, preset: NamingPreset, extras: Seq<char>) -> Seq<
    char,
> {
    match job.extra_type {
        Some(e) => match preset {
            NamingPreset::Jellyfin => spec_jellyfin_extra_folder(e),
            NamingPreset::Plex => spec_plex_extra_folder(e),
        },
        None => match preset {
            NamingPreset::Jellyfin => spec_lower_seq(extras),
            NamingPreset::Plex => extras,
        },
    }
}

/// The library-relative destination path of one file, by its category and
/// the chosen preset.
pub open spec fn spec_format_grouped_path(
    group: &Group,
    job: &Job,
    preset: NamingPreset,
    extras: Seq<char>,
) -> Seq<char> {
    let title = spec_path_title(group);
    let yd = spec_year_digits(group, job);
    let ty = spec_title_year(title, yd);
    let ext = spec_skip_dots(job.file_extension@);
    let et = if job.tmdb_episode_title is Some {
        spec_sanitize(job.tmdb_episode_title->0@)
    } else {
        spec_sanitize(Seq::empty())
    };
    let s2 = spec_pad_num(crate::parser::view_opt_i64(job.parsed_season), 2);
    let e2 = spec_pad_num(crate::parser::view_opt_i64(job.parsed_episode), 2);
    let fname = spec_sanitize(spec_strip_extension(job.file_name@));
    match job.file_category {
        FileCategory::Movie => ty + "/"@ + ty + "."@ + ext,
        FileCategory::Episode => match preset {
            NamingPreset::Jellyfin => ty + "/Season "@ + s2 + "/"@ + title + " S"@ + s2 + "E"@
                + e2 + spec_ep_tail(et, ext),
            NamingPreset::Plex => ty + "/Season "@ + s2 + "/"@ + ty + " - s"@ + s2 + "e"@ + e2
                + spec_ep_tail(et, ext),
        },
        FileCategory::Special => match preset {
            NamingPreset::Jellyfin => ty + "/Season 00/"@ + title + " S00E"@ + e2 + spec_ep_tail(
                et,
                ext,
            ),
            NamingPreset::Plex => ty + "/Specials/"@ + ty + " - s00e"@ + e2 + spec_ep_tail(
                et,
                ext,
            ),
        },
        FileCategory::Extra => ty + "/"@ + spec_extra_folder(job, preset, extras) + "/"@ + fname
            + "."@ + ext,
    }
}

fn app(out: &mut Vec<char>, piece: &Vec<char>)
    ensures
        final(out)@ == old(out)@ + piece@,
{
    let mut i: usize = 0;
    proof {
        assert(old(out)@ + piece@.take(0) =~= old(out)@);
    }
    while i < piece.len()
        invariant
            i <= piece@.len(),
            out@ == old(out)@ + piece@.take(i as int),
        decreases piece@.len() - i,
    {
        out.push(piece[i]);
        proof {
            assert(out@ =~= old(out)@ + piece@.take(i + 1 as int));
        }
        i += 1;
    }
    proof {
        assert(piece@.take(piece@.len() as int) =~= piece@);
    }
}

fn app_lit(out: &mut Vec<char>, lit: &str)
    ensures
        final(out)@ == old(out)@ + lit@,
{
    let n = lit.unicode_len();
    let mut i: usize = 0;
    proof {
        assert(old(out)@ + lit@.take(0) =~= old(out)@);
    }
    while i < n
        invariant
            i <= n,
            n == lit@.len(),
            out@ == old(out)@ + lit@.take(i as int),
        decreases n - i,
    {
        out.push(lit.get_char(i));
        proof {
            assert(out@ =~= old(out)@ + lit@.take(i + 1 as int));
        }
        i += 1;
    }
    proof {
        assert(lit@.take(lit@.len() as int) =~= lit@);
    }
}

/// Format the destination path for one file of a matched group, under the
/// chosen preset and the configured folder names for specials and extras.
/// (The specials folder name is accepted for configuration completeness;
/// both presets currently pin their own specials layout.)
pub fn format_grouped_path(
    group: &Group,
    job: &Job,
    preset: NamingPreset,
    _specials_folder_name: &str,
    extras_folder_name: &str,
) -> (r: String)
    ensures
        r@ == spec_format_grouped_path(group, job, preset, extras_folder_name@),
{
    let title: Vec<char> = match &group.tmdb_title {
        Some(t) => sanitize_chars(&to_chars(t.as_str())),
        None => match &group.parsed_title {
            Some(t) => sanitize_chars(&to_chars(t.as_str())),
            None => sanitize_chars(&to_chars("Unknown")),
        },
    };
    let year: Option<i64> = match group.tmdb_year {
        Some(y) => Some(y),
        None => match group.parsed_year {
            Some(y) => Some(y),
            None => match job.tmdb_year {
                Some(y) => Some(y),
                None => job.parsed_year,
            },
        },
    };
    let yd: Vec<char> = match year {
        Some(y) => digits_of(
            if y >= 0 {
                y as u64
            } else {
                0
            },
        ),
        None => Vec::new(),
    };
    let mut ty: Vec<char> = Vec::new();
    app(&mut ty, &title);
    if yd.len() > 0 {
        app_lit(&mut ty, " (");
        app(&mut ty, &yd);
        app_lit(&mut ty, ")");
    }
    proof {
        if yd@.len() > 0 {
            assert(ty@ =~= spec_title_year(title@, yd@));
        } else {
            assert(ty@ =~= spec_title_year(title@, yd@));
        }
    }
    let ext = skip_dots(&to_chars(job.file_extension.as_str()));
    let et: Vec<char> = match &job.tmdb_episode_title {
        Some(t) => sanitize_chars(&to_chars(t.as_str())),
        None => {
            let empty: Vec<char> = Vec::new();
            proof {
                assert(empty@ =~= Seq::<char>::empty());
            }
            sanitize_chars(&empty)
        },
    };
    let s2 = pad_num_chars(job.parsed_season, 2);
    let e2 = pad_num_chars(job.parsed_episode, 2);
    let fname = sanitize_chars(&strip_extension(&to_chars(job.file_name.as_str())));
    let mut tail: Vec<char> = Vec::new();
    let et_is_episode = crate::text::lit_at(&et, 0, "Episode", false) && et.len() == 7;
    proof {
        reveal_strlit("Episode");
        assert("Episode"@.len() == 7);
        if et_is_episode {
            assert(et@ =~= "Episode"@);
        }
        if et@ == "Episode"@ {
            assert(crate::text::spec_lit_at(et@, 0, "Episode"@, false));
            assert(et_is_episode);
        }
    }
    if et.len() > 0 && !et_is_episode {
        app_lit(&mut tail, " - ");
        app(&mut tail, &et);
        app_lit(&mut tail, ".");
        app(&mut tail, &ext);
    } else {
        app_lit(&mut tail, ".");
        app(&mut tail, &ext);
    }
    proof {
        if et@.len() > 0 && et@ != "Episode"@ {
            assert(tail@ =~= spec_ep_tail(et@, ext@));
        } else {
            assert(tail@ =~= spec_ep_tail(et@, ext@));
        }
    }
    let mut out: Vec<char> = Vec::new();
    match job.file_category {
        FileCategory::Movie => {
            app(&mut out, &ty);
            app_lit(&mut out, "/");
            app(&mut out, &ty);
            app_lit(&mut out, ".");
            app(&mut out, &ext);
        },
        FileCategory::Episode => {
            match preset {
                NamingPreset::Jellyfin => {
                    app(&mut out, &ty);
                    app_lit(&mut out, "/Season ");
                    app(&mut out, &s2);
                    app_lit(&mut out, "/");
                    app(&mut out, &title);
                    app_lit(&mut out, " S");
                    app(&mut out, &s2);
                    app_lit(&mut out, "E");
                    app(&mut out, &e2);
                    app(&mut out, &tail);
                },
                NamingPreset::Plex => {
                    app(&mut out, &ty);
                    app_lit(&mut out, "/Season ");
                    app(&mut out, &s2);
                    app_lit(&mut out, "/");
                    app(&mut out, &ty);
                    app_lit(&mut out, " - s");
                    app(&mut out, &s2);
                    app_lit(&mut out, "e");
                    app(&mut out, &e2);
                    app(&mut out, &tail);
                },
            }
        },
        FileCategory::Special => {
            match preset {
                NamingPreset::Jellyfin => {
                    app(&mut out, &ty);
                    app_lit(&mut out, "/Season 00/");
                    app(&mut out, &title);
                    app_lit(&mut out, " S00E");
                    app(&mut out, &e2);
                    app(&mut out, &tail);
                },
                NamingPreset::Plex => {
                    app(&mut out, &ty);
                    app_lit(&mut out, "/Specials/");
                    app(&mut out, &ty);
                    app_lit(&mut out, " - s00e");
                    app(&mut out, &e2);
                    app(&mut out, &tail);
                },
            }
        },
        FileCategory::Extra => {
            let extra_folder: Vec<char> = match job.extra_type {
                Some(e) => match preset {
                    NamingPreset::Jellyfin => to_chars(jellyfin_extra_folder(e)),
                    NamingPreset::Plex => to_chars(plex_extra_folder(e)),
                },
                None => match preset {
                    NamingPreset::Jellyfin => lower_vec(&to_chars(extras_folder_name)),
                    NamingPreset::Plex => to_chars(extras_folder_name),
                },
            };
            app(&mut out, &ty);
            app_lit(&mut out, "/");
            app(&mut out, &extra_folder);
            app_lit(&mut out, "/");
            app(&mut out, &fname);
            app_lit(&mut out, ".");
            app(&mut out, &ext);
        },
    }
    proof {
        assert(out@ =~= spec_format_grouped_path(group, job, preset, extras_folder_name@));
    }
    from_chars(&out)
}

/// The persisted naming configuration, as the settings store hands it
/// over: the preset by name and the two configurable folder names.
#[derive(Debug, Clone)]
pub struct NamingSettings {
    pub naming_preset: String,
    pub specials_folder_name: String,
    pub extras_folder_name: String,
}

} // verus!
