use reelname::schema::{DestinationType, ExtraType, FileCategory, GroupStatus, MediaType};

#[test]
fn group_status_round_trips() {
    let all = [
        GroupStatus::Scanned,
        GroupStatus::Matched,
        GroupStatus::Ambiguous,
        GroupStatus::Confirmed,
        GroupStatus::Transferring,
        GroupStatus::Completed,
        GroupStatus::Failed,
        GroupStatus::Skipped,
    ];
    for s in all {
        assert_eq!(GroupStatus::from_str(s.as_str()), s);
    }
    assert_eq!(GroupStatus::from_str("matched").as_str(), "matched");
    assert_eq!(GroupStatus::from_str("nonsense"), GroupStatus::Scanned);
}

#[test]
fn media_type_round_trips() {
    for m in [MediaType::Movie, MediaType::Tv, MediaType::Unknown] {
        assert_eq!(MediaType::from_str(m.as_str()), m);
    }
    assert_eq!(MediaType::from_str("movie"), MediaType::Movie);
    assert_eq!(MediaType::from_str("tv"), MediaType::Tv);
    assert_eq!(MediaType::from_str("whatever"), MediaType::Unknown);
}

#[test]
fn file_category_round_trips() {
    for c in [
        FileCategory::Episode,
        FileCategory::Movie,
        FileCategory::Special,
        FileCategory::Extra,
    ] {
        assert_eq!(FileCategory::from_str(c.as_str()), c);
    }
    assert_eq!(FileCategory::from_str("junk"), FileCategory::Episode);
}

#[test]
fn extra_type_round_trips() {
    for e in [
        ExtraType::BehindTheScenes,
        ExtraType::DeletedScenes,
        ExtraType::Featurettes,
        ExtraType::Interviews,
        ExtraType::Scenes,
        ExtraType::Shorts,
        ExtraType::Trailers,
        ExtraType::Other,
    ] {
        assert_eq!(ExtraType::from_str(e.as_str()), e);
    }
    assert_eq!(ExtraType::from_str("junk"), ExtraType::Other);
}

#[test]
fn destination_type_round_trips() {
    assert_eq!(DestinationType::from_str("ssh"), DestinationType::Ssh);
    assert_eq!(DestinationType::from_str("local"), DestinationType::Local);
    assert_eq!(DestinationType::from_str("other"), DestinationType::Local);
    assert_eq!(DestinationType::Ssh.as_str(), "ssh");
    assert_eq!(DestinationType::Local.as_str(), "local");
}

#[test]
fn defaults() {
    assert_eq!(GroupStatus::default(), GroupStatus::Scanned);
    assert_eq!(MediaType::default(), MediaType::Unknown);
    assert_eq!(FileCategory::default(), FileCategory::Episode);
    assert_eq!(DestinationType::default(), DestinationType::Local);
}
