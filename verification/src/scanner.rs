//! Classification rules used while scanning a media directory: which file
//! extensions count as video, how a subfolder name is read (a season, the
//! specials folder, or a kind of bonus material), and the heuristic that
//! turns a lone file into a movie. The directory walk itself is I/O and
//! stays with the caller; every rule it applies is here.

use vstd::prelude::*;

use crate::schema::ExtraType;
use crate::schema::FileCategory;
use crate::text::digit_run;
use crate::text::lemma_digit_run;
use crate::text::lit_at;
use crate::text::space_run;
use crate::text::spec_digit_run;
use crate::text::spec_digits_val;
use crate::text::spec_eq_ci_seq;
use crate::text::spec_lit_at;
use crate::text::spec_space_run;
use crate::text::str_eq_ci;
use crate::text::to_chars;

verus! {

/// One video file found loose at the scan root.
#[derive(Debug, Clone)]
pub struct ScannedFile {
    pub source_path: String,
    pub file_name: String,
    pub file_size: u64,
    pub file_extension: String,
}

/// One video file found inside a group folder, already classified.
#[derive(Debug, Clone)]
pub struct ScannedGroupFile {
    pub source_path: String,
    pub file_name: String,
    pub file_size: u64,
    pub file_extension: String,
    pub detected_season: Option<i64>,
    pub file_category: FileCategory,
    pub extra_type: Option<ExtraType>,
}

/// One top-level directory of the scan root, with its classified files.
#[derive(Debug, Clone)]
pub struct ScannedGroup {
    pub folder_path: String,
    pub folder_name: String,
    pub files: Vec<ScannedGroupFile>,
}

/// The recognised video file extensions, compared without case.
pub open spec fn spec_is_video_extension(s: Seq<char>) -> bool {
    ||| spec_eq_ci_seq(s, "mkv"@)
    ||| spec_eq_ci_seq(s, "mp4"@)
    ||| spec_eq_ci_seq(s, "avi"@)
    ||| spec_eq_ci_seq(s, "mov"@)
    ||| spec_eq_ci_seq(s, "wmv"@)
    ||| spec_eq_ci_seq(s, "flv"@)
    ||| spec_eq_ci_seq(s, "m4v"@)
    ||| spec_eq_ci_seq(s, "mpg"@)
    ||| spec_eq_ci_seq(s, "mpeg"@)
    ||| spec_eq_ci_seq(s, "ts"@)
    ||| spec_eq_ci_seq(s, "m2ts"@)
    ||| spec_eq_ci_seq(s, "vob"@)
    ||| spec_eq_ci_seq(s, "iso"@)
    ||| spec_eq_ci_seq(s, "webm"@)
}

/// Whether a file extension is a recognised video format.
pub fn is_video_extension(ext: &str) -> (r: bool)
    ensures
        r == spec_is_video_extension(ext@),
{
    str_eq_ci(ext, "mkv") || str_eq_ci(ext, "mp4") || str_eq_ci(ext, "avi") || str_eq_ci(
        ext,
        "mov",
    ) || str_eq_ci(ext, "wmv") || str_eq_ci(ext, "flv") || str_eq_ci(ext, "m4v") || str_eq_ci(
        ext,
        "mpg",
    ) || str_eq_ci(ext, "mpeg") || str_eq_ci(ext, "ts") || str_eq_ci(ext, "m2ts") || str_eq_ci(
        ext,
        "vob",
    ) || str_eq_ci(ext, "iso") || str_eq_ci(ext, "webm")
}

/// A season folder name: `Season 1`, `Season 01`, `S1`, `S01` and the
/// like, case-insensitive, digits running to the end of the name. Runs of
/// more than nine digits are not taken as a season number.
pub open spec fn spec_season_folder(s: Seq<char>) -> Option<int> {
    if spec_lit_at(s, 0, "season"@, true) {
        let d = 6 + spec_space_run(s, 6);
        let r = spec_digit_run(s, d);
        if 1 <= r <= 9 && d + r == s.len() {
            Some(spec_digits_val(s, d, r))
        } else {
            None
        }
    } else if s.len() >= 2 && (s[0] == 'S' || s[0] == 's') {
        let r = spec_digit_run(s, 1);
        if 1 <= r <= 9 && 1 + r == s.len() {
            Some(spec_digits_val(s, 1, r))
        } else {
            None
        }
    } else {
        None
    }
}

/// Read a season number out of a folder name, if it is a season folder.
pub fn parse_season_folder(name: &str) -> (r: Option<i64>)
    ensures
        crate::parser::view_opt_i64(r) == spec_season_folder(name@),
{
    let v = to_chars(name);
    let n = v.len();
    proof {
        reveal_strlit("season");
    }
    if lit_at(&v, 0, "season", true) {
        let d = 6 + space_run(&v, 6);
        let r = digit_run(&v, d);
        if 1 <= r && r <= 9 && d + r == n {
            proof {
                lemma_digit_run(v@, d as int);
            }
            Some(digits_val_long(&v, d, r))
        } else {
            None
        }
    } else if n >= 2 && (v[0] == 'S' || v[0] == 's') {
        let r = digit_run(&v, 1);
        if 1 <= r && r <= 9 && 1 + r == n {
            proof {
                lemma_digit_run(v@, 1);
            }
            Some(digits_val_long(&v, 1, r))
        } else {
            None
        }
    } else {
        None
    }
}

/// Numeric value of up to nine digits starting at `i`.
fn digits_val_long(v: &Vec<char>, i: usize, t: usize) -> (r: i64)
    requires
        i + t <= v@.len(),
        t <= 9,
        forall|k: int| i <= k < i + t ==> crate::text::spec_is_digit(v@[k]),
    ensures
        r == spec_digits_val(v@, i as int, t as int),
        0 <= r < 1000000000,
{
    let n = v.len();
    let mut r: i64 = 0;
    let mut k: usize = 0;
    while k < t
        invariant
            k <= t <= 9,
            n == v@.len(),
            i + t <= n,
            forall|q: int| i <= q < i + t ==> crate::text::spec_is_digit(v@[q]),
            r == spec_digits_val(v@, i as int, k as int),
            0 <= r < 1000000000,
        decreases t - k,
    {
        let c = v[i + k];
        let d = (c as u32) - 48;
        assert(d <= 9);
        proof {
            lemma_digits_val_small(v@, i as int, k as int);
        }
        r = r * 10 + (d as i64);
        k += 1;
    }
    r
}

proof fn lemma_digits_val_small(s: Seq<char>, i: int, t: int)
    requires
        0 <= i,
        0 <= t <= 9,
        i + t <= s.len(),
        forall|k: int| i <= k < i + t ==> crate::text::spec_is_digit(s[k]),
    ensures
        0 <= spec_digits_val(s, i, t),
        t <= 0 ==> spec_digits_val(s, i, t) == 0,
        t == 1 ==> spec_digits_val(s, i, t) < 10,
        t == 2 ==> spec_digits_val(s, i, t) < 100,
        t == 3 ==> spec_digits_val(s, i, t) < 1000,
        t == 4 ==> spec_digits_val(s, i, t) < 10000,
        t == 5 ==> spec_digits_val(s, i, t) < 100000,
        t == 6 ==> spec_digits_val(s, i, t) < 1000000,
        t == 7 ==> spec_digits_val(s, i, t) < 10000000,
        t == 8 ==> spec_digits_val(s, i, t) < 100000000,
        t == 9 ==> spec_digits_val(s, i, t) < 1000000000,
    decreases t,
{
    if t > 0 {
        lemma_digits_val_small(s, i, t - 1);
    }
}

/// Folder names that mean the specials season.
pub open spec fn spec_is_specials_folder(s: Seq<char>) -> bool {
    ||| spec_eq_ci_seq(s, "specials"@)
    ||| spec_eq_ci_seq(s, "season 0"@)
    ||| spec_eq_ci_seq(s, "season 00"@)
    ||| spec_eq_ci_seq(s, "season0"@)
    ||| spec_eq_ci_seq(s, "season00"@)
}

/// Whether a folder name denotes the specials season.
pub fn is_specials_folder(name: &str) -> (r: bool)
    ensures
        r == spec_is_specials_folder(name@),
{
    str_eq_ci(name, "specials") || str_eq_ci(name, "season 0") || str_eq_ci(name, "season 00")
        || str_eq_ci(name, "season0") || str_eq_ci(name, "season00")
}

/// The kinds of bonus material recognised by folder name.
pub open spec fn spec_classify_extra_folder(s: Seq<char>) -> Option<ExtraType> {
    if spec_eq_ci_seq(s, "extras"@) || spec_eq_ci_seq(s, "extra"@) || spec_eq_ci_seq(
        s,
        "other"@,
    ) {
        Some(ExtraType::Other)
    } else if spec_eq_ci_seq(s, "behind the scenes"@) || spec_eq_ci_seq(s, "behindthescenes"@) {
        Some(ExtraType::BehindTheScenes)
    } else if spec_eq_ci_seq(s, "deleted scenes"@) || spec_eq_ci_seq(s, "deletedscenes"@) {
        Some(ExtraType::DeletedScenes)
    } else if spec_eq_ci_seq(s, "featurettes"@) || spec_eq_ci_seq(s, "featurette"@) {
        Some(ExtraType::Featurettes)
    } else if spec_eq_ci_seq(s, "interviews"@) || spec_eq_ci_seq(s, "interview"@) {
        Some(ExtraType::Interviews)
    } else if spec_eq_ci_seq(s, "scenes"@) || spec_eq_ci_seq(s, "scene"@) {
        Some(ExtraType::Scenes)
    } else if spec_eq_ci_seq(s, "shorts"@) || spec_eq_ci_seq(s, "short"@) {
        Some(ExtraType::Shorts)
    } else if spec_eq_ci_seq(s, "trailers"@) || spec_eq_ci_seq(s, "trailer"@) {
        Some(ExtraType::Trailers)
    } else {
        None
    }
}

/// Map a bonus-material folder name to its kind, if recognised.
pub fn classify_extra_folder(name: &str) -> (r: Option<ExtraType>)
    ensures
        r == spec_classify_extra_folder(name@),
{
    if str_eq_ci(name, "extras") || str_eq_ci(name, "extra") || str_eq_ci(name, "other") {
        Some(ExtraType::Other)
    } else if str_eq_ci(name, "behind the scenes") || str_eq_ci(name, "behindthescenes") {
        Some(ExtraType::BehindTheScenes)
    } else if str_eq_ci(name, "deleted scenes") || str_eq_ci(name, "deletedscenes") {
        Some(ExtraType::DeletedScenes)
    } else if str_eq_ci(name, "featurettes") || str_eq_ci(name, "featurette") {
        Some(ExtraType::Featurettes)
    } else if str_eq_ci(name, "interviews") || str_eq_ci(name, "interview") {
        Some(ExtraType::Interviews)
    } else if str_eq_ci(name, "scenes") || str_eq_ci(name, "scene") {
        Some(ExtraType::Scenes)
    } else if str_eq_ci(name, "shorts") || str_eq_ci(name, "short") {
        Some(ExtraType::Shorts)
    } else if str_eq_ci(name, "trailers") || str_eq_ci(name, "trailer") {
        Some(ExtraType::Trailers)
    } else {
        None
    }
}

/// What a subfolder of a group means for the files inside it.
pub open spec fn spec_classify_subfolder(s: Seq<char>) -> (
    Option<int>,
    FileCategory,
    Option<ExtraType>,
) {
    if spec_season_folder(s) is Some {
        (spec_season_folder(s), FileCategory::Episode, None)
    } else if spec_is_specials_folder(s) {
        (Some(0int), FileCategory::Special, None)
    } else if spec_classify_extra_folder(s) is Some {
        (None, FileCategory::Extra, spec_classify_extra_folder(s))
    } else {
        (None, FileCategory::Episode, None)
    }
}

/// Classify a subfolder: a season number and category for its files, and
/// the kind of bonus material when it holds extras.
pub fn classify_subfolder(name: &str) -> (r: (Option<i64>, FileCategory, Option<ExtraType>))
    ensures
        crate::parser::view_opt_i64(r.0) == spec_classify_subfolder(name@).0,
        r.1 == spec_classify_subfolder(name@).1,
        r.2 == spec_classify_subfolder(name@).2,
{
    if let Some(season) = parse_season_folder(name) {
        return (Some(season), FileCategory::Episode, None);
    }
    if is_specials_folder(name) {
        return (Some(0), FileCategory::Special, None);
    }
    if let Some(extra_type) = classify_extra_folder(name) {
        return (None, FileCategory::Extra, Some(extra_type));
    }
    (None, FileCategory::Episode, None)
}

/// Everything about a scanned file except its category.
pub open spec fn spec_same_file_but_category(a: ScannedGroupFile, b: ScannedGroupFile) -> bool {
    a.source_path == b.source_path && a.file_name == b.file_name && a.file_size == b.file_size
        && a.file_extension == b.file_extension && a.detected_season == b.detected_season
        && a.extra_type == b.extra_type
}

/// Whether the lone-file movie heuristic applies: a group folder with no
/// season folders and exactly one file, classified as an ordinary episode,
/// holds a movie.
pub open spec fn spec_movie_heuristic_applies(
    files: Seq<ScannedGroupFile>,
    has_season_folders: bool,
) -> bool {
    !has_season_folders && files.len() == 1 && files[0].file_category == FileCategory::Episode
}

/// Apply the lone-file movie heuristic: when it fires, the one file is
/// reclassified as a movie with everything else untouched; otherwise the
/// list is left exactly as it was.
pub fn apply_movie_heuristic(files: &mut Vec<ScannedGroupFile>, has_season_folders: bool)
    ensures
        final(files)@.len() == old(files)@.len(),
        spec_movie_heuristic_applies(old(files)@, has_season_folders)
            ==> final(files)@[0].file_category == FileCategory::Movie
                && spec_same_file_but_category(final(files)@[0], old(files)@[0]),
        !spec_movie_heuristic_applies(old(files)@, has_season_folders)
            ==> final(files)@ == old(files)@,
{
    if !has_season_folders && files.len() == 1 {
        let is_episode = match files[0].file_category {
            FileCategory::Episode => true,
            _ => false,
        };
        if is_episode {
            let old0 = files.remove(0);
            let updated = ScannedGroupFile {
                file_category: FileCategory::Movie,
                source_path: old0.source_path,
                file_name: old0.file_name,
                file_size: old0.file_size,
                file_extension: old0.file_extension,
                detected_season: old0.detected_season,
                extra_type: old0.extra_type,
            };
            files.push(updated);
        }
    }
}

/// Summary a scan run hands back to its caller: what was found, what was
/// newly added, what was skipped, and how the follow-up match run went.
#[derive(Debug, Clone)]
pub struct ScanResult {
    pub scanned_groups: usize,
    pub added_groups: usize,
    pub added_files: usize,
    pub skipped_groups: usize,
    pub matched: usize,
    pub ambiguous: usize,
    pub match_error: Option<String>,
}

} // verus!
