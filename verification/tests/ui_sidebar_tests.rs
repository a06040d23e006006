use chords::data::models::{SavedTabSummary, TabType};
use chords::ui::sidebar::{
    contains_chars, filter_key, first_match, group_by_artist, row_url, song_row_name,
    song_visible, text_less,
};

fn saved(artist: &str, song: &str, url: &str) -> SavedTabSummary {
    SavedTabSummary {
        tab_url: url.to_string(),
        artist_name: artist.to_string(),
        song_name: song.to_string(),
        tab_type: TabType::Chords,
        rating_tenths: 45,
        saved_at: 0,
    }
}

fn chars(s: &str) -> Vec<char> {
    s.chars().collect()
}

#[test]
fn row_names_round_trip() {
    assert_eq!(song_row_name("/tab/oasis/wonderwall"), "tab:/tab/oasis/wonderwall");
    assert_eq!(row_url("tab:/tab/oasis/wonderwall"), Some("/tab/oasis/wonderwall".to_string()));
    assert_eq!(row_url("tab:"), Some(String::new()));
    assert_eq!(row_url("Oasis"), None);
    assert_eq!(row_url("ta"), None);
}

#[test]
fn contains_like_str_contains() {
    for (h, n) in [("wonderwall", "wall"), ("wonderwall", "walls"), ("abc", ""), ("", ""), ("", "a"), ("aab", "ab")] {
        assert_eq!(contains_chars(&chars(h), &chars(n)), h.contains(n));
    }
}

#[test]
fn filter_matches_title_or_address() {
    let t = saved("Oasis", "Wonderwall", "/tab/oasis/wonderwall-chords-27596");
    assert!(song_visible("", &t));
    assert!(song_visible(&filter_key("WONDER"), &t));
    assert!(song_visible("27596", &t));
    assert!(song_visible("tab:/tab", &t));
    assert!(!song_visible("champagne", &t));
    assert_eq!(filter_key("ÄBC"), "äbc");
}

#[test]
fn text_order_is_string_order() {
    let words = ["", "a", "ab", "b", "B", "Ä", "abc", "ab "];
    for a in words {
        for b in words {
            assert_eq!(text_less(&chars(a), &chars(b)), a < b, "{:?} < {:?}", a, b);
        }
    }
}

#[test]
fn library_grouped_by_artist_then_title() {
    let tabs = vec![
        saved("Radiohead", "Karma Police", "/r/k"),
        saved("Oasis", "Wonderwall", "/o/w"),
        saved("Radiohead", "Creep", "/r/c"),
        saved("Oasis", "Champagne Supernova", "/o/c"),
        saved("Beatles", "Yesterday", "/b/y"),
        saved("Oasis", "Wonderwall", "/o/w2"),
    ];
    let groups = group_by_artist(&tabs);
    let artists: Vec<&str> = groups.iter().map(|g| g.artist.as_str()).collect();
    assert_eq!(artists, vec!["Beatles", "Oasis", "Radiohead"]);
    let oasis: Vec<&str> = groups[1].songs.iter().map(|s| s.tab_url.as_str()).collect();
    assert_eq!(oasis, vec!["/o/c", "/o/w", "/o/w2"]);
    let radiohead: Vec<&str> = groups[2].songs.iter().map(|s| s.song_name.as_str()).collect();
    assert_eq!(radiohead, vec!["Creep", "Karma Police"]);
    assert!(group_by_artist(&[]).is_empty());
}

#[test]
fn enter_opens_first_shown_song() {
    let tabs = vec![
        saved("Oasis", "Wonderwall", "/o/w"),
        saved("Beatles", "Yesterday", "/b/y"),
        saved("Oasis", "Champagne Supernova", "/o/c"),
    ];
    let groups = group_by_artist(&tabs);
    assert_eq!(first_match(&groups, ""), Some("/b/y".to_string()));
    assert_eq!(first_match(&groups, "w"), Some("/o/w".to_string()));
    assert_eq!(first_match(&groups, "nova"), Some("/o/c".to_string()));
    assert_eq!(first_match(&groups, "zzz"), None);
}
