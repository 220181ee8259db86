use reelname::scanner::{
    apply_movie_heuristic, classify_extra_folder, classify_subfolder, is_specials_folder,
    is_video_extension, parse_season_folder, ScannedGroupFile,
};
use reelname::schema::{ExtraType, FileCategory};

#[test]
fn video_extensions() {
    assert!(is_video_extension("mkv"));
    assert!(is_video_extension("MKV"));
    assert!(is_video_extension("mp4"));
    assert!(is_video_extension("webm"));
    assert!(!is_video_extension("txt"));
    assert!(!is_video_extension(""));
    assert!(!is_video_extension("mkv "));
}

#[test]
fn season_folders() {
    assert_eq!(parse_season_folder("Season 1"), Some(1));
    assert_eq!(parse_season_folder("Season 01"), Some(1));
    assert_eq!(parse_season_folder("season12"), Some(12));
    assert_eq!(parse_season_folder("S1"), Some(1));
    assert_eq!(parse_season_folder("S01"), Some(1));
    assert_eq!(parse_season_folder("s3"), Some(3));
    assert_eq!(parse_season_folder("Season"), None);
    assert_eq!(parse_season_folder("Series 1"), None);
    assert_eq!(parse_season_folder("S1x"), None);
    assert_eq!(parse_season_folder(""), None);
}

#[test]
fn specials_folders() {
    assert!(is_specials_folder("Specials"));
    assert!(is_specials_folder("specials"));
    assert!(is_specials_folder("Season 0"));
    assert!(is_specials_folder("season 00"));
    assert!(is_specials_folder("Season0"));
    assert!(!is_specials_folder("Season 1"));
}

#[test]
fn extra_folders() {
    assert_eq!(classify_extra_folder("Extras"), Some(ExtraType::Other));
    assert_eq!(
        classify_extra_folder("Behind The Scenes"),
        Some(ExtraType::BehindTheScenes)
    );
    assert_eq!(classify_extra_folder("trailers"), Some(ExtraType::Trailers));
    assert_eq!(classify_extra_folder("Featurette"), Some(ExtraType::Featurettes));
    assert_eq!(classify_extra_folder("Whatever"), None);
}

#[test]
fn subfolder_classification() {
    assert_eq!(
        classify_subfolder("Season 2"),
        (Some(2), FileCategory::Episode, None)
    );
    assert_eq!(
        classify_subfolder("Specials"),
        (Some(0), FileCategory::Special, None)
    );
    assert_eq!(
        classify_subfolder("Trailers"),
        (None, FileCategory::Extra, Some(ExtraType::Trailers))
    );
    assert_eq!(
        classify_subfolder("Random Stuff"),
        (None, FileCategory::Episode, None)
    );
}

fn file(category: FileCategory) -> ScannedGroupFile {
    ScannedGroupFile {
        source_path: "/x/a.mkv".to_string(),
        file_name: "a.mkv".to_string(),
        file_size: 100,
        file_extension: "mkv".to_string(),
        detected_season: None,
        file_category: category,
        extra_type: None,
    }
}

#[test]
fn lone_file_becomes_movie() {
    let mut files = vec![file(FileCategory::Episode)];
    apply_movie_heuristic(&mut files, false);
    assert_eq!(files.len(), 1);
    assert_eq!(files[0].file_category, FileCategory::Movie);
    assert_eq!(files[0].file_name, "a.mkv");
}

#[test]
fn season_folders_keep_episode_classification() {
    let mut files = vec![file(FileCategory::Episode)];
    apply_movie_heuristic(&mut files, true);
    assert_eq!(files[0].file_category, FileCategory::Episode);
}

#[test]
fn multiple_files_stay_episodes() {
    let mut files = vec![file(FileCategory::Episode), file(FileCategory::Episode)];
    apply_movie_heuristic(&mut files, false);
    assert_eq!(files[0].file_category, FileCategory::Episode);
    assert_eq!(files[1].file_category, FileCategory::Episode);
}
