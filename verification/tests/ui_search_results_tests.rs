use chords::data::models::{SearchResult, SongGroup, TabType};
use chords::ui::search_results::{
    group_row, group_subtitle, other_versions_text, rating_label, rating_text, version_title,
};

fn result(url: &str, tab_type: TabType, version: u32, rating_tenths: i64, votes: u32) -> SearchResult {
    SearchResult {
        artist_name: "Oasis".to_string(),
        song_name: "Wonderwall".to_string(),
        tab_url: url.to_string(),
        tab_type,
        version,
        rating_tenths,
        votes,
    }
}

#[test]
fn rating_text_like_float_display() {
    assert_eq!(rating_text(45), "4.5");
    assert_eq!(rating_text(40), "4");
    assert_eq!(rating_text(0), "0");
    assert_eq!(rating_text(1), "0.1");
    assert_eq!(rating_text(123), "12.3");
    assert_eq!(rating_text(-5), "-0.5");
    assert_eq!(rating_text(-30), "-3");
}

#[test]
fn rating_text_matches_f64_display() {
    for tenths in 0..=50i64 {
        let shown = format!("{}", ((tenths as f64 / 10.0) * 10.0).round() / 10.0);
        assert_eq!(rating_text(tenths), shown);
    }
}

#[test]
fn rating_label_only_with_votes() {
    assert_eq!(rating_label(&result("/a", TabType::Chords, 1, 47, 12)), Some("4.7".to_string()));
    assert_eq!(rating_label(&result("/a", TabType::Chords, 1, 47, 0)), None);
}

#[test]
fn version_title_shows_version_past_first() {
    assert_eq!(version_title(&result("/a", TabType::Chords, 1, 0, 0)), "Chords");
    assert_eq!(version_title(&result("/a", TabType::Chords, 3, 0, 0)), "Chords ver 3");
    assert_eq!(version_title(&result("/a", TabType::Tabs, 2, 0, 0)), "Tabs ver 2");
    assert_eq!(
        version_title(&result("/a", TabType::Other("Video".to_string()), 2, 0, 0)),
        "Video ver 2"
    );
}

#[test]
fn other_versions_text_plural() {
    assert_eq!(other_versions_text(1), "1 other version");
    assert_eq!(other_versions_text(2), "2 other versions");
    assert_eq!(other_versions_text(0), "0 other versions");
}

#[test]
fn group_subtitle_counts_other_versions() {
    let one = SongGroup {
        artist_name: "Oasis".to_string(),
        song_name: "Wonderwall".to_string(),
        versions: vec![result("/a", TabType::Chords, 1, 48, 10)],
    };
    assert_eq!(group_subtitle(&one), "Oasis");
    let three = SongGroup {
        artist_name: "Oasis".to_string(),
        song_name: "Wonderwall".to_string(),
        versions: vec![
            result("/a", TabType::Chords, 1, 48, 10),
            result("/b", TabType::Tabs, 1, 45, 3),
            result("/c", TabType::Chords, 2, 40, 0),
        ],
    };
    assert_eq!(group_subtitle(&three), "Oasis · 2 other versions");
    let two = SongGroup {
        artist_name: "Oasis".to_string(),
        song_name: "Wonderwall".to_string(),
        versions: vec![
            result("/a", TabType::Chords, 1, 48, 10),
            result("/b", TabType::Tabs, 1, 45, 3),
        ],
    };
    assert_eq!(group_subtitle(&two), "Oasis · 1 other version");
}

#[test]
fn group_row_single_and_several_versions() {
    let one = SongGroup {
        artist_name: "Oasis".to_string(),
        song_name: "Wonderwall".to_string(),
        versions: vec![result("/a", TabType::Chords, 1, 48, 10)],
    };
    let row = group_row(&one);
    assert_eq!(row.title, "Wonderwall");
    assert_eq!(row.subtitle, "Oasis");
    assert_eq!(row.open_url, "/a");
    assert_eq!(row.best_label.rating, Some("4.8".to_string()));
    assert_eq!(row.best_label.kind, "Chords");
    assert!(row.versions.is_empty());

    let two = SongGroup {
        artist_name: "Oasis".to_string(),
        song_name: "Wonderwall".to_string(),
        versions: vec![
            result("/a", TabType::Chords, 1, 48, 10),
            result("/b", TabType::Tabs, 2, 45, 0),
        ],
    };
    let row = group_row(&two);
    assert_eq!(row.subtitle, "Oasis · 1 other version");
    assert_eq!(row.open_url, "/a");
    assert_eq!(row.versions.len(), 2);
    assert_eq!(row.versions[0].title, "Chords");
    assert_eq!(row.versions[0].tab_url, "/a");
    assert_eq!(row.versions[1].title, "Tabs ver 2");
    assert_eq!(row.versions[1].label.rating, None);
    assert_eq!(row.versions[1].label.kind, "Tabs");
    assert_eq!(row.versions[1].tab_url, "/b");
}
