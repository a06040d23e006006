use chords::data::models::{SearchResult, TabData, TabType, TuningInfo};
use chords::music::parser::parse_tab_content;
use chords::ui::tab_view::TabView;
use chords::ui::window::{
    can_go_back, capo_text, columns_choice, extract_unique_chords, is_search_query,
    load_failed_subtitle,
    print_text, search_failed_subtitle, search_subtitle, space_toggles_scroll, tab_subtitle,
    tab_title, transpose_down, transpose_up, zoom, PageOutcome, SearchPager,
};

fn tab(version: u32, tuning: Option<&str>, capo: Option<&str>) -> TabData {
    TabData {
        raw_content: String::new(),
        artist_name: "Oasis".to_string(),
        song_name: "Wonderwall".to_string(),
        version,
        tab_type: TabType::Chords,
        rating_tenths: 48,
        difficulty: String::new(),
        capo: capo.map(|c| c.to_string()),
        tuning: tuning.map(|n| TuningInfo { value: "E A D G B E".to_string(), name: n.to_string() }),
        tab_url: "/tab/oasis/wonderwall".to_string(),
        alternatives: Vec::new(),
        applicature: None,
    }
}

fn result(artist: &str, song: &str, url: &str, rating_tenths: i64) -> SearchResult {
    SearchResult {
        artist_name: artist.to_string(),
        song_name: song.to_string(),
        tab_url: url.to_string(),
        tab_type: TabType::Chords,
        version: 1,
        rating_tenths,
        votes: 1,
    }
}

#[test]
fn transposition_stops_at_eleven() {
    assert_eq!(transpose_up(0), 1);
    assert_eq!(transpose_up(10), 11);
    assert_eq!(transpose_up(11), 11);
    assert_eq!(transpose_down(0), -1);
    assert_eq!(transpose_down(-11), -11);
    let mut s = 0;
    for _ in 0..30 {
        s = transpose_up(s);
    }
    assert_eq!(s, 11);
    for _ in 0..30 {
        s = transpose_down(s);
    }
    assert_eq!(s, -11);
}

#[test]
fn zoom_stays_in_range() {
    let mut v = TabView::new();
    assert_eq!(zoom(&mut v, true), 15);
    assert_eq!(v.get_font_size(), 15);
    assert_eq!(zoom(&mut v, false), 14);
    for _ in 0..40 {
        zoom(&mut v, true);
    }
    assert_eq!(zoom(&mut v, true), 32);
    for _ in 0..40 {
        zoom(&mut v, false);
    }
    assert_eq!(zoom(&mut v, false), 8);
    assert_eq!(v.get_font_size(), 8);
}

#[test]
fn columns_choice_reads_numbers() {
    assert_eq!(columns_choice("3"), Some(3));
    assert_eq!(columns_choice("+2"), Some(2));
    assert_eq!(columns_choice("x"), None);
    assert_eq!(columns_choice(""), None);
    assert_eq!(columns_choice("99999999999"), None);
}

#[test]
fn keyboard_decisions() {
    assert!(space_toggles_scroll(false, false, true));
    assert!(!space_toggles_scroll(true, false, true));
    assert!(!space_toggles_scroll(false, true, true));
    assert!(!space_toggles_scroll(false, false, false));
    assert!(can_go_back(true, true));
    assert!(!can_go_back(false, true));
    assert!(!can_go_back(true, false));
}

#[test]
fn tab_header_texts() {
    assert_eq!(tab_title(&tab(1, None, None)), "Oasis \u{2013} Wonderwall");
    assert_eq!(tab_subtitle(&tab(1, None, None)), "");
    assert_eq!(tab_subtitle(&tab(2, None, None)), "ver 2");
    assert_eq!(tab_subtitle(&tab(1, Some("Standard"), None)), "");
    assert_eq!(tab_subtitle(&tab(1, Some("Drop D"), None)), "Drop D");
    assert_eq!(tab_subtitle(&tab(3, Some("Drop D"), None)), "ver 3 · Drop D");
    assert_eq!(tab_subtitle(&tab(3, Some("Standard"), None)), "ver 3");
    assert_eq!(capo_text(&tab(1, None, Some("2"))), Some("Capo 2".to_string()));
    assert_eq!(capo_text(&tab(1, None, Some("0"))), None);
    assert_eq!(capo_text(&tab(1, None, None)), None);
}

#[test]
fn unique_chords_in_order_of_first_appearance() {
    let lines = parse_tab_content("[ch]G[/ch] [ch]D[/ch]\nla\n[ch]Em[/ch] [ch]G[/ch] [ch]C[/ch]\n[ch]D[/ch]");
    assert_eq!(extract_unique_chords(&lines), vec!["G", "D", "Em", "C"]);
    assert!(extract_unique_chords(&parse_tab_content("no chords here")).is_empty());
}

#[test]
fn print_text_joins_lines() {
    let lines = parse_tab_content("[Intro]\n[ch]G[/ch]  [ch]D[/ch]\nHello");
    assert_eq!(print_text(&lines), "[Intro]\nG  D\nHello");
    assert_eq!(print_text(&[]), "");
}

#[test]
fn subtitles() {
    assert_eq!(search_subtitle(1, "wonderwall", false), "1 song for \"wonderwall\"");
    assert_eq!(search_subtitle(3, "wonderwall", true), "3 songs for \"wonderwall\"…");
    assert_eq!(search_subtitle(0, "x", false), "0 songs for \"x\"");
    assert_eq!(search_failed_subtitle("timeout"), "Search failed: timeout");
    assert_eq!(load_failed_subtitle("404"), "Failed to load: 404");
}

#[test]
fn pager_fetches_pages_in_order() {
    let mut p = SearchPager::new();
    assert_eq!(p.start_fetch(), None);
    p.begin("wonderwall");
    assert_eq!(p.query(), "wonderwall");
    assert_eq!(p.start_fetch(), Some(1));
    assert_eq!(p.start_fetch(), None);
    let outcome = p.page_loaded(
        1,
        vec![
            result("Oasis", "Wonderwall", "/a", 40),
            result("Oasis", "Wonderwall", "/b", 48),
            result("Ryan Adams", "Wonderwall", "/c", 45),
        ],
    );
    assert_eq!(outcome, PageOutcome::First);
    assert!(p.has_results());
    assert_eq!(p.result_count(), 2);
    assert_eq!(p.groups()[0].versions[0].tab_url, "/b");
    assert!(p.wants_more());
    assert_eq!(p.start_fetch(), Some(2));
    assert!(p.delay_done(2));
    let outcome = p.page_loaded(2, vec![result("Oasis", "Wonderwall", "/d", 50)]);
    assert_eq!(outcome, PageOutcome::More);
    assert_eq!(p.groups()[0].versions[0].tab_url, "/d");
    assert_eq!(p.groups()[0].versions.len(), 3);
    assert_eq!(p.start_fetch(), Some(3));
    assert_eq!(p.page_loaded(3, Vec::new()), PageOutcome::Exhausted);
    assert!(!p.wants_more());
    assert_eq!(p.start_fetch(), None);
    assert_eq!(p.back_subtitle(), Some("2 songs for \"wonderwall\"".to_string()));
    p.leave_results();
    assert_eq!(p.back_subtitle(), None);
}

#[test]
fn pager_new_search_cancels_waiting_page() {
    let mut p = SearchPager::new();
    p.begin("a");
    assert_eq!(p.start_fetch(), Some(1));
    p.page_loaded(1, vec![result("X", "Y", "/x", 10)]);
    assert_eq!(p.start_fetch(), Some(2));
    p.begin("b");
    assert!(!p.delay_done(2));
    assert!(p.groups().is_empty());
    assert_eq!(p.start_fetch(), Some(1));
    assert!(p.page_failed(1));
    assert!(!p.page_failed(2));
    assert_eq!(p.start_fetch(), Some(1));
}

#[test]
fn search_needs_more_than_white_space() {
    assert!(is_search_query("wonderwall"));
    assert!(is_search_query("  oasis "));
    assert!(!is_search_query(""));
    assert!(!is_search_query(" \t\n"));
    assert!(!is_search_query("\u{3000}"));
}
