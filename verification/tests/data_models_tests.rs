use chords::data::json::{fld, get_member, str_val, u64_val, JsonNumber, JsonValue};
use chords::data::models::{ChordPosition, SearchResult, SongGroup, TabType};

fn result(artist: &str, song: &str, url: &str, rating_tenths: i64) -> SearchResult {
    SearchResult {
        artist_name: artist.to_string(),
        song_name: song.to_string(),
        tab_url: url.to_string(),
        tab_type: TabType::Chords,
        version: 1,
        rating_tenths,
        votes: 1,
    }
}

#[test]
fn tab_type_from_str_ignores_case() {
    assert_eq!(TabType::from_str("chords"), TabType::Chords);
    assert_eq!(TabType::from_str("Chords"), TabType::Chords);
    assert_eq!(TabType::from_str("TABS"), TabType::Tabs);
    assert_eq!(TabType::from_str("Bass Tabs"), TabType::Bass);
    assert_eq!(TabType::from_str("ukulele chords"), TabType::Ukulele);
    assert_eq!(TabType::from_str("Power"), TabType::Power);
    assert_eq!(TabType::from_str("Drum Tabs"), TabType::Drums);
    assert_eq!(TabType::from_str("Video"), TabType::Other("Video".to_string()));
    assert_eq!(TabType::from_str(""), TabType::Other(String::new()));
}

#[test]
fn tab_type_display_names() {
    assert_eq!(TabType::Chords.display_name(), "Chords");
    assert_eq!(TabType::Tabs.display_name(), "Tabs");
    assert_eq!(TabType::Bass.display_name(), "Bass");
    assert_eq!(TabType::Ukulele.display_name(), "Ukulele");
    assert_eq!(TabType::Power.display_name(), "Power");
    assert_eq!(TabType::Drums.display_name(), "Drums");
    assert_eq!(TabType::Other("Video".to_string()).display_name(), "Video");
}

#[test]
fn chord_display_with_and_without_bass() {
    let c = ChordPosition { column: 0, root: "A".to_string(), quality: "m7".to_string(), bass: Some("G".to_string()) };
    assert_eq!(c.display(), "Am7/G");
    let d = ChordPosition { column: 3, root: "F#".to_string(), quality: String::new(), bass: None };
    assert_eq!(d.display(), "F#");
}

#[test]
fn merge_groups_by_song_best_first() {
    let mut groups: Vec<SongGroup> = Vec::new();
    SongGroup::merge(
        &mut groups,
        vec![
            result("Oasis", "Wonderwall", "/a", 40),
            result("Oasis", "Wonderwall", "/b", 48),
            result("Oasis", "Champagne Supernova", "/c", 45),
            result("Oasis", "Wonderwall", "/a", 49),
        ],
    );
    assert_eq!(groups.len(), 2);
    assert_eq!(groups[0].song_name, "Wonderwall");
    let urls: Vec<&str> = groups[0].versions.iter().map(|v| v.tab_url.as_str()).collect();
    assert_eq!(urls, vec!["/b", "/a"]);
    assert_eq!(groups[0].best().tab_url, "/b");
    assert_eq!(groups[1].song_name, "Champagne Supernova");
    SongGroup::merge(&mut groups, vec![result("Oasis", "Wonderwall", "/d", 48)]);
    let urls: Vec<&str> = groups[0].versions.iter().map(|v| v.tab_url.as_str()).collect();
    assert_eq!(urls, vec!["/b", "/d", "/a"]);
}

#[test]
fn json_members() {
    let v = JsonValue::Object(vec![
        ("a".to_string(), JsonValue::Str("x".to_string())),
        (
            "n".to_string(),
            JsonValue::Number(JsonNumber { as_u64: Some(7), as_i64: Some(7), rounded_tenths: 70 }),
        ),
    ]);
    assert_eq!(str_val(get_member(&v, "a")), Some("x".to_string()));
    assert!(get_member(&v, "zz").is_none());
    assert_eq!(u64_val(fld(Some(&v), "n")), Some(7));
    assert!(fld(fld(Some(&v), "a"), "b").is_none());
    assert_eq!(str_val(fld(Some(&v), "n")), None);
}

fn group_shape(gs: &[SongGroup]) -> Vec<(String, String, Vec<(String, i64)>)> {
    gs.iter()
        .map(|g| {
            (
                g.artist_name.clone(),
                g.song_name.clone(),
                g.versions.iter().map(|v| (v.tab_url.clone(), v.rating_tenths)).collect(),
            )
        })
        .collect()
}

#[test]
fn merging_the_same_results_twice_changes_nothing() {
    let rs = vec![
        result("Oasis", "Wonderwall", "/a", 40),
        result("Oasis", "Wonderwall", "/b", 48),
        result("Oasis", "Champagne Supernova", "/c", 45),
        result("Oasis", "Wonderwall", "/a", 49),
    ];
    let mut groups: Vec<SongGroup> = Vec::new();
    SongGroup::merge(&mut groups, rs.clone());
    let once = group_shape(&groups);
    SongGroup::merge(&mut groups, rs);
    assert_eq!(group_shape(&groups), once);
}

#[test]
fn tab_type_labels_read_back() {
    for t in [TabType::Chords, TabType::Tabs, TabType::Power] {
        assert_eq!(TabType::from_str(t.display_name()), t);
    }
    assert_eq!(TabType::from_str(TabType::Bass.display_name()), TabType::Other("Bass".to_string()));
    assert_eq!(
        TabType::from_str(TabType::Ukulele.display_name()),
        TabType::Other("Ukulele".to_string())
    );
    assert_eq!(TabType::from_str(TabType::Drums.display_name()), TabType::Other("Drums".to_string()));
    let v = TabType::Other("Video".to_string());
    assert_eq!(TabType::from_str(v.display_name()), v);
}
