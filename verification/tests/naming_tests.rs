use reelname::naming::{
    format_grouped_path, jellyfin_extra_folder, pad_num, plex_extra_folder, sanitize, NamingPreset,
};
use reelname::schema::{ExtraType, FileCategory, Group, GroupStatus, Job, MediaType};

fn make_group(title: &str, year: Option<i64>) -> Group {
    Group {
        id: 1,
        status: GroupStatus::Confirmed,
        media_type: MediaType::Tv,
        folder_path: "/test".to_string(),
        folder_name: "test".to_string(),
        total_file_count: 1,
        total_file_size: 1000,
        parsed_title: Some(title.to_string()),
        parsed_year: year,
        tmdb_id: Some(1),
        tmdb_title: Some(title.to_string()),
        tmdb_year: year,
        tmdb_poster_path: None,
        match_confidence: Some(950),
        destination_id: None,
        created_at: String::new(),
        updated_at: String::new(),
    }
}

fn make_job(category: FileCategory, season: Option<i64>, episode: Option<i64>) -> Job {
    Job {
        id: 1,
        group_id: Some(1),
        status: GroupStatus::Confirmed,
        media_type: MediaType::Tv,
        file_category: category,
        extra_type: None,
        source_path: "/test/file.mkv".to_string(),
        file_name: "file.mkv".to_string(),
        file_size: 1000,
        file_extension: "mkv".to_string(),
        parsed_title: None,
        parsed_year: None,
        parsed_season: season,
        parsed_episode: episode,
        parsed_quality: None,
        parsed_codec: None,
        tmdb_id: None,
        tmdb_title: None,
        tmdb_year: None,
        tmdb_poster_path: None,
        tmdb_episode_title: Some("Pilot".to_string()),
        match_confidence: None,
        destination_id: None,
        destination_path: None,
        transfer_progress: None,
        transfer_error: None,
        created_at: String::new(),
        updated_at: String::new(),
    }
}

#[test]
fn test_jellyfin_tv() {
    let group = make_group("Breaking Bad", Some(2008));
    let job = make_job(FileCategory::Episode, Some(1), Some(1));
    let result = format_grouped_path(&group, &job, NamingPreset::Jellyfin, "Specials", "Extras");
    assert_eq!(
        result,
        "Breaking Bad (2008)/Season 01/Breaking Bad S01E01 - Pilot.mkv"
    );
}

#[test]
fn test_plex_tv() {
    let group = make_group("Breaking Bad", Some(2008));
    let job = make_job(FileCategory::Episode, Some(1), Some(1));
    let result = format_grouped_path(&group, &job, NamingPreset::Plex, "Specials", "Extras");
    assert_eq!(
        result,
        "Breaking Bad (2008)/Season 01/Breaking Bad (2008) - s01e01 - Pilot.mkv"
    );
}

#[test]
fn test_movie_jellyfin() {
    let group = make_group("The Matrix", Some(1999));
    let mut job = make_job(FileCategory::Movie, None, None);
    job.tmdb_episode_title = None;
    job.media_type = MediaType::Movie;
    let result = format_grouped_path(&group, &job, NamingPreset::Jellyfin, "Specials", "Extras");
    assert_eq!(result, "The Matrix (1999)/The Matrix (1999).mkv");
}

#[test]
fn test_sanitize() {
    assert_eq!(sanitize("Test: File?"), "Test File");
    assert_eq!(sanitize("a  b   c"), "a b c");
}

#[test]
fn special_layouts() {
    let group = make_group("Breaking Bad", Some(2008));
    let job = make_job(FileCategory::Special, Some(0), Some(3));
    let jelly = format_grouped_path(&group, &job, NamingPreset::Jellyfin, "Specials", "Extras");
    assert_eq!(
        jelly,
        "Breaking Bad (2008)/Season 00/Breaking Bad S00E03 - Pilot.mkv"
    );
    let plex = format_grouped_path(&group, &job, NamingPreset::Plex, "Specials", "Extras");
    assert_eq!(
        plex,
        "Breaking Bad (2008)/Specials/Breaking Bad (2008) - s00e03 - Pilot.mkv"
    );
}

#[test]
fn extra_layouts() {
    let group = make_group("Breaking Bad", Some(2008));
    let mut job = make_job(FileCategory::Extra, None, None);
    job.extra_type = Some(ExtraType::Trailers);
    job.file_name = "teaser.mkv".to_string();
    let jelly = format_grouped_path(&group, &job, NamingPreset::Jellyfin, "Specials", "Extras");
    assert_eq!(jelly, "Breaking Bad (2008)/trailers/teaser.mkv");
    let plex = format_grouped_path(&group, &job, NamingPreset::Plex, "Specials", "Extras");
    assert_eq!(plex, "Breaking Bad (2008)/Trailers/teaser.mkv");
}

#[test]
fn extra_fallback_folder_uses_configured_name() {
    let group = make_group("Breaking Bad", Some(2008));
    let mut job = make_job(FileCategory::Extra, None, None);
    job.file_name = "bonus.mkv".to_string();
    let jelly = format_grouped_path(&group, &job, NamingPreset::Jellyfin, "Specials", "Extras");
    assert_eq!(jelly, "Breaking Bad (2008)/extras/bonus.mkv");
    let plex = format_grouped_path(&group, &job, NamingPreset::Plex, "Specials", "Extras");
    assert_eq!(plex, "Breaking Bad (2008)/Extras/bonus.mkv");
}

#[test]
fn missing_year_drops_the_parenthesised_year() {
    let group = make_group("Unknown Film", None);
    let mut job = make_job(FileCategory::Movie, None, None);
    job.tmdb_episode_title = None;
    let r = format_grouped_path(&group, &job, NamingPreset::Jellyfin, "Specials", "Extras");
    assert_eq!(r, "Unknown Film/Unknown Film.mkv");
}

#[test]
fn missing_episode_title_drops_its_dash() {
    let group = make_group("Show", Some(2020));
    let mut job = make_job(FileCategory::Episode, Some(2), Some(7));
    job.tmdb_episode_title = None;
    let r = format_grouped_path(&group, &job, NamingPreset::Jellyfin, "Specials", "Extras");
    assert_eq!(r, "Show (2020)/Season 02/Show S02E07.mkv");
}

#[test]
fn pad_num_widths() {
    assert_eq!(pad_num(Some(1), 2), "01");
    assert_eq!(pad_num(Some(12), 2), "12");
    assert_eq!(pad_num(Some(123), 2), "123");
    assert_eq!(pad_num(None, 2), "00");
}

#[test]
fn extra_folder_names() {
    assert_eq!(jellyfin_extra_folder(ExtraType::Scenes), "clips");
    assert_eq!(plex_extra_folder(ExtraType::Scenes), "Scenes");
    assert_eq!(jellyfin_extra_folder(ExtraType::Other), "extras");
}

#[test]
fn preset_round_trip() {
    assert_eq!(NamingPreset::from_str("plex"), NamingPreset::Plex);
    assert_eq!(NamingPreset::from_str("PLEX"), NamingPreset::Plex);
    assert_eq!(NamingPreset::from_str("jellyfin"), NamingPreset::Jellyfin);
    assert_eq!(NamingPreset::from_str("anything"), NamingPreset::Jellyfin);
    assert_eq!(NamingPreset::Plex.as_str(), "plex");
    assert_eq!(NamingPreset::Jellyfin.as_str(), "jellyfin");
}
