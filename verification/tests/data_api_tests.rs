use chords::data::api::http_error;
use chords::data::api::{
    artist_picture_url, artist_search_url, extract_path, parse_applicature, parse_search_results,
    parse_tab_data, search_url, store_data, tab_page_url,
};
use chords::data::json::{JsonNumber, JsonValue};
use chords::data::models::TabType;

fn from_serde(v: &serde_json::Value) -> JsonValue {
    match v {
        serde_json::Value::Null => JsonValue::Null,
        serde_json::Value::Bool(b) => JsonValue::Bool(*b),
        serde_json::Value::Number(n) => JsonValue::Number(JsonNumber {
            as_u64: n.as_u64(),
            as_i64: n.as_i64(),
            rounded_tenths: (n.as_f64().unwrap_or(0.0) * 10.0).round() as i64,
        }),
        serde_json::Value::String(s) => JsonValue::Str(s.clone()),
        serde_json::Value::Array(a) => JsonValue::Array(a.iter().map(from_serde).collect()),
        serde_json::Value::Object(o) => {
            JsonValue::Object(o.iter().map(|(k, v)| (k.clone(), from_serde(v))).collect())
        }
    }
}

fn json(text: &str) -> JsonValue {
    from_serde(&serde_json::from_str::<serde_json::Value>(text).unwrap())
}

#[test]
fn search_url_encodes_query() {
    assert_eq!(
        search_url("wonderwall", 1),
        "https://proxy.freetar.de/search.php?page=1&search_type=title&value=wonderwall"
    );
    assert_eq!(
        search_url("don't look back in anger", 12),
        "https://proxy.freetar.de/search.php?page=12&search_type=title&value=don%27t%20look%20back%20in%20anger"
    );
    assert_eq!(
        search_url("café", 2),
        "https://proxy.freetar.de/search.php?page=2&search_type=title&value=caf%C3%A9"
    );
}

#[test]
fn artist_search_url_encodes_name() {
    assert_eq!(
        artist_search_url("Guns N' Roses"),
        "https://api.deezer.com/search/artist?q=Guns%20N%27%20Roses&limit=1"
    );
}

#[test]
fn tab_page_url_strips_leading_parts() {
    assert_eq!(
        tab_page_url("/tab/labi-siffre/bless-the-telephone-chords-1814395"),
        "https://tabs.proxy.freetar.de/tab/labi-siffre/bless-the-telephone-chords-1814395"
    );
    assert_eq!(tab_page_url("labi-siffre/x"), "https://tabs.proxy.freetar.de/tab/labi-siffre/x");
    assert_eq!(tab_page_url("//tab/tab/x"), "https://tabs.proxy.freetar.de/tab/x");
}

#[test]
fn extract_path_of_full_url_or_path() {
    assert_eq!(
        extract_path("https://tabs.ultimate-guitar.com/tab/oasis/wonderwall-chords-27596"),
        "/tab/oasis/wonderwall-chords-27596"
    );
    assert_eq!(extract_path("oasis/wonderwall"), "oasis/wonderwall");
    assert_eq!(extract_path(""), "");
}

#[test]
fn store_data_reads_attribute() {
    let html = r#"<html><body><div class="js-store" data-content="{&quot;a&quot;:1}"></div></body></html>"#;
    assert_eq!(store_data(html, false), Ok("{\"a\":1}".to_string()));
    let none = "<html><body><p>nothing</p></body></html>";
    assert_eq!(
        store_data(none, false),
        Err(format!("Could not find js-store div (response length: {} bytes)", none.len()))
    );
    assert_eq!(
        store_data(none, true),
        Err(format!(
            "Could not find js-store div in tab page (response length: {} bytes)",
            none.len()
        ))
    );
    let bare = r#"<div class="js-store"></div>"#;
    assert_eq!(store_data(bare, false), Err("No data-content attribute".to_string()));
}

#[test]
fn search_results_skip_pro_and_official() {
    let root = json(
        r#"{"store":{"page":{"data":{
            "results":[
              {"artist_name":"Oasis","song_name":"Wonderwall","tab_url":"https://tabs.ultimate-guitar.com/tab/oasis/wonderwall-chords-27596","type":"Chords","version":2,"rating":4.8312,"votes":120},
              {"artist_name":"Oasis","song_name":"Wonderwall","tab_url":"https://x/tab/pro","type":"Pro"},
              {"artist_name":"Oasis","song_name":"Wonderwall","tab_url":"https://x/tab/off","type":"Official"},
              {"artist_name":"Oasis","song_name":"Wonderwall","tab_url":"https://x/tab/none"},
              {"song_name":"Wonderwall","tab_url":"/rel","type":"Tabs"}
            ],
            "pagination":{"total":5,"current":2}}}}}"#,
    );
    let resp = parse_search_results(&root).unwrap();
    assert_eq!(resp.total_pages, 5);
    assert_eq!(resp.current_page, 2);
    assert_eq!(resp.results.len(), 2);
    let r = &resp.results[0];
    assert_eq!(r.artist_name, "Oasis");
    assert_eq!(r.tab_url, "/tab/oasis/wonderwall-chords-27596");
    assert_eq!(r.tab_type, TabType::Chords);
    assert_eq!(r.version, 2);
    assert_eq!(r.rating_tenths, 48);
    assert_eq!(r.votes, 120);
    let r = &resp.results[1];
    assert_eq!(r.artist_name, "");
    assert_eq!(r.tab_url, "/rel");
    assert_eq!(r.tab_type, TabType::Tabs);
    assert_eq!(r.version, 1);
    assert_eq!(r.rating_tenths, 0);
    assert_eq!(r.votes, 0);
}

#[test]
fn search_results_need_results_array() {
    let root = json(r#"{"store":{"page":{"data":{"results":{}}}}}"#);
    assert_eq!(parse_search_results(&root).err(), Some("No results array in JSON data".to_string()));
    let empty = json(r#"{"store":{"page":{"data":{"results":[]}}}}"#);
    let resp = parse_search_results(&empty).unwrap();
    assert!(resp.results.is_empty());
    assert_eq!(resp.total_pages, 1);
    assert_eq!(resp.current_page, 1);
}

#[test]
fn tab_data_reads_page() {
    let root = json(
        r#"{"store":{"page":{"data":{
            "tab":{"artist_name":"Labi Siffre","song_name":"Bless The Telephone","version":1,"type":"Chords","rating":4.86,"tab_url":"https://tabs.ultimate-guitar.com/tab/labi-siffre/bless-the-telephone-chords-1814395"},
            "tab_view":{
              "wiki_tab":{"content":"[ch]G[/ch] hello"},
              "ug_difficulty":"novice",
              "meta":{"capo":2,"tuning":{"value":"E A D G B E","name":"Standard"}},
              "versions":[
                {"type":"Official","tab_url":"https://x/tab/o"},
                {"type":"Tabs","tab_url":"https://x/tab/t","version":3,"rating":3.26,"votes":4}
              ],
              "applicature":{"G":[{"frets":[3,2,0,0,0,3],"fingers":[2,1,0,0,0,3]}],"X":[{"frets":[]}]}
            }}}}}"#,
    );
    let t = parse_tab_data(&root).unwrap();
    assert_eq!(t.raw_content, "[ch]G[/ch] hello");
    assert_eq!(t.artist_name, "Labi Siffre");
    assert_eq!(t.song_name, "Bless The Telephone");
    assert_eq!(t.version, 1);
    assert_eq!(t.tab_type, TabType::Chords);
    assert_eq!(t.rating_tenths, 49);
    assert_eq!(t.difficulty, "novice");
    assert_eq!(t.capo, Some("2".to_string()));
    let tuning = t.tuning.as_ref().unwrap();
    assert_eq!(tuning.name, "Standard");
    assert_eq!(tuning.value, "E A D G B E");
    assert_eq!(t.tab_url, "/tab/labi-siffre/bless-the-telephone-chords-1814395");
    assert_eq!(t.alternatives.len(), 1);
    assert_eq!(t.alternatives[0].artist_name, "Labi Siffre");
    assert_eq!(t.alternatives[0].tab_url, "/tab/t");
    assert_eq!(t.alternatives[0].version, 3);
    assert_eq!(t.alternatives[0].rating_tenths, 33);
    let app = t.applicature.as_ref().unwrap();
    assert_eq!(app.len(), 1);
    assert_eq!(app[0].0, "G");
    assert_eq!(app[0].1[0].frets, vec![3, 2, 0, 0, 0, 3]);
    assert_eq!(app[0].1[0].fingers, vec![2, 1, 0, 0, 0, 3]);
}

#[test]
fn tab_data_defaults_and_errors() {
    let missing = json(r#"{"store":{"page":{"data":{"tab":{},"tab_view":{}}}}}"#);
    assert_eq!(parse_tab_data(&missing).err(), Some("No tab content".to_string()));
    let bare = json(r#"{"store":{"page":{"data":{"tab_view":{"wiki_tab":{"content":""},"meta":{"capo":"0"}}}}}}"#);
    let t = parse_tab_data(&bare).unwrap();
    assert_eq!(t.artist_name, "Unknown");
    assert_eq!(t.song_name, "Unknown");
    assert_eq!(t.tab_type, TabType::Chords);
    assert_eq!(t.version, 1);
    assert_eq!(t.capo, None);
    assert!(t.tuning.is_none());
    assert!(t.applicature.is_none());
    assert_eq!(t.tab_url, "");
    let text_capo = json(r#"{"store":{"page":{"data":{"tab_view":{"wiki_tab":{"content":"x"},"meta":{"capo":"3"}}}}}}"#);
    assert_eq!(parse_tab_data(&text_capo).unwrap().capo, Some("3".to_string()));
    let zero_capo = json(r#"{"store":{"page":{"data":{"tab_view":{"wiki_tab":{"content":"x"},"meta":{"capo":0}}}}}}"#);
    assert_eq!(parse_tab_data(&zero_capo).unwrap().capo, None);
}

#[test]
fn applicature_defaults_and_skips() {
    let v = json(r#"{"Am":[{"frets":[0,"x",2],"fingers":[1,"y"]},{"frets":[]}],"D":[],"E":[{"frets":[0,2,2,1,0,0]}]}"#);
    let a = parse_applicature(Some(&v)).unwrap();
    assert_eq!(a.len(), 2);
    assert_eq!(a[0].0, "Am");
    assert_eq!(a[0].1.len(), 1);
    assert_eq!(a[0].1[0].frets, vec![0, -1, 2]);
    assert_eq!(a[0].1[0].fingers, vec![1, 0]);
    assert_eq!(a[1].0, "E");
    assert!(a[1].1[0].fingers.is_empty());
    let not_array = json(r#"{"Am":{"frets":[0]}}"#);
    assert!(parse_applicature(Some(&not_array)).is_none());
    assert!(parse_applicature(Some(&json("[]"))).is_none());
    assert!(parse_applicature(None).is_none());
    assert!(parse_applicature(Some(&json("{}"))).is_none());
}

#[test]
fn artist_picture() {
    let ok = json(r#"{"data":[{"picture_small":"https://img/1.jpg"},{"picture_small":"https://img/2.jpg"}]}"#);
    assert_eq!(artist_picture_url(&ok), Ok("https://img/1.jpg".to_string()));
    for bad in [r#"{"data":[]}"#, r#"{"data":[{}]}"#, r#"{}"#, r#"{"data":{"picture_small":"x"}}"#] {
        assert_eq!(artist_picture_url(&json(bad)), Err("No artist image found on Deezer".to_string()));
    }
}

#[test]
fn http_error_keeps_start_of_body() {
    assert_eq!(
        http_error("Search", "404 Not Found", "missing"),
        "Search returned HTTP 404 Not Found: missing"
    );
    let long: String = std::iter::repeat('a').take(250).collect();
    let msg = http_error("Tab fetch", "500 Internal Server Error", &long);
    assert_eq!(msg, format!("Tab fetch returned HTTP 500 Internal Server Error: {}", &long[..200]));
    let mixed = format!("{}é{}", "b".repeat(198), "c".repeat(10));
    assert_eq!(
        http_error("Search", "502 Bad Gateway", &mixed),
        format!("Search returned HTTP 502 Bad Gateway: {}", &mixed[..200])
    );
}
