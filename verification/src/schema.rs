//! Core record types: the closed status/category sets used throughout the
//! engine, and the plain data records for groups, jobs, candidates and
//! destinations. Statuses are stored as strings at the persistence boundary,
//! so each enum carries an exact round-trip contract between its variants and
//! their string forms.

use vstd::prelude::*;

verus! {

/// Lifecycle status shared by groups and jobs.
#[derive(Debug, Clone, Copy, PartialEq, Eq, Structural)]
pub enum GroupStatus {
    Scanned,
    Matched,
    Ambiguous,
    Confirmed,
    Transferring,
    Completed,
    Failed,
    Skipped,
}

impl Default for GroupStatus {
    fn default() -> (r: Self)
        ensures
            r == GroupStatus::Scanned,
    {
        GroupStatus::Scanned
    }
}

pub open spec fn spec_group_status_str(s: GroupStatus) -> Seq<char> {
    match s {
        GroupStatus::Scanned => "scanned"@,
        GroupStatus::Matched => "matched"@,
        GroupStatus::Ambiguous => "ambiguous"@,
        GroupStatus::Confirmed => "confirmed"@,
        GroupStatus::Transferring => "transferring"@,
        GroupStatus::Completed => "completed"@,
        GroupStatus::Failed => "failed"@,
        GroupStatus::Skipped => "skipped"@,
    }
}

pub open spec fn spec_group_status_from(s: Seq<char>) -> GroupStatus {
    if s == "scanned"@ {
        GroupStatus::Scanned
    } else if s == "matched"@ {
        GroupStatus::Matched
    } else if s == "ambiguous"@ {
        GroupStatus::Ambiguous
    } else if s == "confirmed"@ {
        GroupStatus::Confirmed
    } else if s == "transferring"@ {
        GroupStatus::Transferring
    } else if s == "completed"@ {
        GroupStatus::Completed
    } else if s == "failed"@ {
        GroupStatus::Failed
    } else if s == "skipped"@ {
        GroupStatus::Skipped
    } else {
        GroupStatus::Scanned
    }
}

impl GroupStatus {
    pub fn as_str(&self) -> (r: &'static str)
        ensures
            r@ == spec_group_status_str(*self),
    {
        match self {
            GroupStatus::Scanned => "scanned",
            GroupStatus::Matched => "matched",
            GroupStatus::Ambiguous => "ambiguous",
            GroupStatus::Confirmed => "confirmed",
            GroupStatus::Transferring => "transferring",
            GroupStatus::Completed => "completed",
            GroupStatus::Failed => "failed",
            GroupStatus::Skipped => "skipped",
        }
    }

    pub fn from_str(s: &str) -> (r: Self)
        ensures
            r == spec_group_status_from(s@),
    {
        if crate::text::str_eq(s, "scanned") {
            GroupStatus::Scanned
        } else if crate::text::str_eq(s, "matched") {
            GroupStatus::Matched
        } else if crate::text::str_eq(s, "ambiguous") {
            GroupStatus::Ambiguous
        } else if crate::text::str_eq(s, "confirmed") {
            GroupStatus::Confirmed
        } else if crate::text::str_eq(s, "transferring") {
            GroupStatus::Transferring
        } else if crate::text::str_eq(s, "completed") {
            GroupStatus::Completed
        } else if crate::text::str_eq(s, "failed") {
            GroupStatus::Failed
        } else if crate::text::str_eq(s, "skipped") {
            GroupStatus::Skipped
        } else {
            GroupStatus::Scanned
        }
    }
}

/// Inferred or confirmed kind of media.
#[derive(Debug, Clone, Copy, PartialEq, Eq, Structural)]
pub enum MediaType {
    Movie,
    Tv,
    Unknown,
}

impl Default for MediaType {
    fn default() -> (r: Self)
        ensures
            r == MediaType::Unknown,
    {
        MediaType::Unknown
    }
}

pub open spec fn spec_media_type_str(m: MediaType) -> Seq<char> {
    match m {
        MediaType::Movie => "movie"@,
        MediaType::Tv => "tv"@,
        MediaType::Unknown => "unknown"@,
    }
}

pub open spec fn spec_media_type_from(s: Seq<char>) -> MediaType {
    if s == "movie"@ {
        MediaType::Movie
    } else if s == "tv"@ {
        MediaType::Tv
    } else {
        MediaType::Unknown
    }
}

impl MediaType {
    pub fn as_str(&self) -> (r: &'static str)
        ensures
            r@ == spec_media_type_str(*self),
    {
        match self {
            MediaType::Movie => "movie",
            MediaType::Tv => "tv",
            MediaType::Unknown => "unknown",
        }
    }

    pub fn from_str(s: &str) -> (r: Self)
        ensures
            r == spec_media_type_from(s@),
    {
        if crate::text::str_eq(s, "movie") {
            MediaType::Movie
        } else if crate::text::str_eq(s, "tv") {
            MediaType::Tv
        } else {
            MediaType::Unknown
        }
    }
}

/// Role of one file inside a group.
#[derive(Debug, Clone, Copy, PartialEq, Eq, Structural)]
pub enum FileCategory {
    Episode,
    Movie,
    Special,
    Extra,
}

impl Default for FileCategory {
    fn default() -> (r: Self)
        ensures
            r == FileCategory::Episode,
    {
        FileCategory::Episode
    }
}

pub open spec fn spec_file_category_str(c: FileCategory) -> Seq<char> {
    match c {
        FileCategory::Episode => "episode"@,
        FileCategory::Movie => "movie"@,
        FileCategory::Special => "special"@,
        FileCategory::Extra => "extra"@,
    }
}

pub open spec fn spec_file_category_from(s: Seq<char>) -> FileCategory {
    if s == "episode"@ {
        FileCategory::Episode
    } else if s == "movie"@ {
        FileCategory::Movie
    } else if s == "special"@ {
        FileCategory::Special
    } else if s == "extra"@ {
        FileCategory::Extra
    } else {
        FileCategory::Episode
    }
}

impl FileCategory {
    pub fn as_str(&self) -> (r: &'static str)
        ensures
            r@ == spec_file_category_str(*self),
    {
        match self {
            FileCategory::Episode => "episode",
            FileCategory::Movie => "movie",
            FileCategory::Special => "special",
            FileCategory::Extra => "extra",
        }
    }

    pub fn from_str(s: &str) -> (r: Self)
        ensures
            r == spec_file_category_from(s@),
    {
        if crate::text::str_eq(s, "episode") {
            FileCategory::Episode
        } else if crate::text::str_eq(s, "movie") {
            FileCategory::Movie
        } else if crate::text::str_eq(s, "special") {
            FileCategory::Special
        } else if crate::text::str_eq(s, "extra") {
            FileCategory::Extra
        } else {
            FileCategory::Episode
        }
    }
}

/// Kind of bonus material a file was classified as.
#[derive(Debug, Clone, Copy, PartialEq, Eq, Structural)]
pub enum ExtraType {
    BehindTheScenes,
    DeletedScenes,
    Featurettes,
    Interviews,
    Scenes,
    Shorts,
    Trailers,
    Other,
}

pub open spec fn spec_extra_type_str(e: ExtraType) -> Seq<char> {
    match e {
        ExtraType::BehindTheScenes => "behind_the_scenes"@,
        ExtraType::DeletedScenes => "deleted_scenes"@,
        ExtraType::Featurettes => "featurettes"@,
        ExtraType::Interviews => "interviews"@,
        ExtraType::Scenes => "scenes"@,
        ExtraType::Shorts => "shorts"@,
        ExtraType::Trailers => "trailers"@,
        ExtraType::Other => "other"@,
    }
}

pub open spec fn spec_extra_type_from(s: Seq<char>) -> ExtraType {
    if s == "behind_the_scenes"@ {
        ExtraType::BehindTheScenes
    } else if s == "deleted_scenes"@ {
        ExtraType::DeletedScenes
    } else if s == "featurettes"@ {
        ExtraType::Featurettes
    } else if s == "interviews"@ {
        ExtraType::Interviews
    } else if s == "scenes"@ {
        ExtraType::Scenes
    } else if s == "shorts"@ {
        ExtraType::Shorts
    } else if s == "trailers"@ {
        ExtraType::Trailers
    } else {
        ExtraType::Other
    }
}

impl ExtraType {
    pub fn as_str(&self) -> (r: &'static str)
        ensures
            r@ == spec_extra_type_str(*self),
    {
        match self {
            ExtraType::BehindTheScenes => "behind_the_scenes",
            ExtraType::DeletedScenes => "deleted_scenes",
            ExtraType::Featurettes => "featurettes",
            ExtraType::Interviews => "interviews",
            ExtraType::Scenes => "scenes",
            ExtraType::Shorts => "shorts",
            ExtraType::Trailers => "trailers",
            ExtraType::Other => "other",
        }
    }

    pub fn from_str(s: &str) -> (r: Self)
        ensures
            r == spec_extra_type_from(s@),
    {
        if crate::text::str_eq(s, "behind_the_scenes") {
            ExtraType::BehindTheScenes
        } else if crate::text::str_eq(s, "deleted_scenes") {
            ExtraType::DeletedScenes
        } else if crate::text::str_eq(s, "featurettes") {
            ExtraType::Featurettes
        } else if crate::text::str_eq(s, "interviews") {
            ExtraType::Interviews
        } else if crate::text::str_eq(s, "scenes") {
            ExtraType::Scenes
        } else if crate::text::str_eq(s, "shorts") {
            ExtraType::Shorts
        } else if crate::text::str_eq(s, "trailers") {
            ExtraType::Trailers
        } else {
            ExtraType::Other
        }
    }
}

/// Where transfers are sent: a local directory or a remote host.
#[derive(Debug, Clone, Copy, PartialEq, Eq, Structural)]
pub enum DestinationType {
    Local,
    Ssh,
}

impl Default for DestinationType {
    fn default() -> (r: Self)
        ensures
            r == DestinationType::Local,
    {
        DestinationType::Local
    }
}

pub open spec fn spec_destination_type_str(d: DestinationType) -> Seq<char> {
    match d {
        DestinationType::Local => "local"@,
        DestinationType::Ssh => "ssh"@,
    }
}

pub open spec fn spec_destination_type_from(s: Seq<char>) -> DestinationType {
    if s == "ssh"@ {
        DestinationType::Ssh
    } else {
        DestinationType::Local
    }
}

impl DestinationType {
    pub fn as_str(&self) -> (r: &'static str)
        ensures
            r@ == spec_destination_type_str(*self),
    {
        match self {
            DestinationType::Local => "local",
            DestinationType::Ssh => "ssh",
        }
    }

    pub fn from_str(s: &str) -> (r: Self)
        ensures
            r == spec_destination_type_from(s@),
    {
        if crate::text::str_eq(s, "ssh") {
            DestinationType::Ssh
        } else {
            DestinationType::Local
        }
    }
}

/// Every string form produced by `as_str` maps back to the same variant:
/// the status vocabulary round-trips through its persisted representation.
pub proof fn lemma_group_status_round_trip(s: GroupStatus)
    ensures
        spec_group_status_from(spec_group_status_str(s)) == s,
{
    reveal_strlit("scanned");
    reveal_strlit("matched");
    reveal_strlit("ambiguous");
    reveal_strlit("confirmed");
    reveal_strlit("transferring");
    reveal_strlit("completed");
    reveal_strlit("failed");
    reveal_strlit("skipped");
    assert("scanned"@[0] == 's' && "matched"@[0] == 'm' && "ambiguous"@[0] == 'a'
        && "confirmed"@[0] == 'c' && "transferring"@[0] == 't' && "completed"@[0] == 'c'
        && "failed"@[0] == 'f' && "skipped"@[0] == 's');
    assert("scanned"@[1] == 'c' && "skipped"@[1] == 'k');
    assert("confirmed"@[1] == 'o' && "completed"@[1] == 'o');
    assert("confirmed"@[2] == 'n' && "completed"@[2] == 'm');
}

/// Media types round-trip through their string form.
pub proof fn lemma_media_type_round_trip(m: MediaType)
    ensures
        spec_media_type_from(spec_media_type_str(m)) == m,
{
    reveal_strlit("movie");
    reveal_strlit("tv");
    reveal_strlit("unknown");
    assert("movie"@[0] == 'm' && "tv"@[0] == 't' && "unknown"@[0] == 'u');
    assert("movie"@.len() == 5 && "tv"@.len() == 2);
}

/// A batch of files believed to belong to one title, derived from one
/// source folder. Confidence is held in per-mille (0 ..= 1000).
#[derive(Debug, Clone)]
pub struct Group {
    pub id: i64,
    pub status: GroupStatus,
    pub media_type: MediaType,
    pub folder_path: String,
    pub folder_name: String,
    pub total_file_count: i64,
    pub total_file_size: i64,
    pub parsed_title: Option<String>,
    pub parsed_year: Option<i64>,
    pub tmdb_id: Option<i64>,
    pub tmdb_title: Option<String>,
    pub tmdb_year: Option<i64>,
    pub tmdb_poster_path: Option<String>,
    pub match_confidence: Option<i64>,
    pub destination_id: Option<i64>,
    pub created_at: String,
    pub updated_at: String,
}

/// One file within a group, carrying its own parse, match and transfer
/// state. Confidence and progress are held in per-mille (0 ..= 1000).
#[derive(Debug, Clone)]
pub struct Job {
    pub id: i64,
    pub group_id: Option<i64>,
    pub status: GroupStatus,
    pub media_type: MediaType,
    pub file_category: FileCategory,
    pub extra_type: Option<ExtraType>,
    pub source_path: String,
    pub file_name: String,
    pub file_size: i64,
    pub file_extension: String,
    pub parsed_title: Option<String>,
    pub parsed_year: Option<i64>,
    pub parsed_season: Option<i64>,
    pub parsed_episode: Option<i64>,
    pub parsed_quality: Option<String>,
    pub parsed_codec: Option<String>,
    pub tmdb_id: Option<i64>,
    pub tmdb_title: Option<String>,
    pub tmdb_year: Option<i64>,
    pub tmdb_poster_path: Option<String>,
    pub tmdb_episode_title: Option<String>,
    pub match_confidence: Option<i64>,
    pub destination_id: Option<i64>,
    pub destination_path: Option<String>,
    pub transfer_progress: Option<i64>,
    pub transfer_error: Option<String>,
    pub created_at: String,
    pub updated_at: String,
}

/// One scored catalog search result considered as a possible identity for
/// a group. Confidence is held in per-mille (0 ..= 1000).
#[derive(Debug, Clone)]
pub struct MatchCandidate {
    pub id: i64,
    pub job_id: Option<i64>,
    pub group_id: Option<i64>,
    pub tmdb_id: i64,
    pub media_type: MediaType,
    pub title: String,
    pub year: Option<i64>,
    pub poster_path: Option<String>,
    pub overview: Option<String>,
    pub confidence: i64,
}

/// A configured transfer target.
#[derive(Debug, Clone)]
pub struct Destination {
    pub id: i64,
    pub name: String,
    pub dest_type: DestinationType,
    pub base_path: String,
    pub ssh_host: Option<String>,
    pub ssh_port: Option<i64>,
    pub ssh_user: Option<String>,
    pub ssh_key_path: Option<String>,
    pub ssh_key_passphrase: Option<String>,
    pub movie_template: Option<String>,
    pub tv_template: Option<String>,
}

/// One persisted key/value setting.
#[derive(Debug, Clone)]
pub struct Setting {
    pub key: String,
    pub value: String,
}

} // verus!
