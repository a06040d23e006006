use vstd::prelude::*;

use crate::data::json::{
    arr_val, as_array, as_i64, as_str, as_tenths, as_u64, fld, field, i64_val, is_object, opt_json,
    str_val, tenths_val, u64_val, JsonValue,
};
use crate::data::models::{
    applicature_view, copy_result, fingering_view, fingering_views, result_views, tab_type_of,
    ChordFingering, ResultView, SearchResponse, SearchResult, TabData, TabDataView, TabType,
    TuningInfo,
};
use crate::music::transpose::{byte_slice, byte_slice_chars, char_index};
use crate::text::{
    chars_of, decimal, push_all, push_str, string_from_chars, u64_to_decimal, utf8_len,
    utf8_len_checked,
};

verus! {

pub const SEARCH_PROXY: &'static str = "https://proxy.freetar.de/search.php";
pub const TAB_PROXY: &'static str = "https://tabs.proxy.freetar.de/tab/";
pub const USER_AGENT: &'static str = "python-requests/2.31.0";
pub const DEEZER_SEARCH: &'static str = "https://api.deezer.com/search/artist";

// ---------------------------------------------------------------------------
// Percent-encoding of query values
// ---------------------------------------------------------------------------

/// Bytes left as they are: ASCII letters and digits, '-', '.', '_' and '~'.
pub open spec fn is_unreserved(b: u8) -> bool {
    (48 <= b <= 57) || (65 <= b <= 90) || (97 <= b <= 122) || b == 45 || b == 46 || b == 95
        || b == 126
}

/// Upper-case hexadecimal digit for `d < 16`.
pub open spec fn hex_digit(d: u8) -> char {
    if d < 10 {
        ((48 + d) as u8) as char
    } else {
        ((55 + d) as u8) as char
    }
}

/// Every byte but the unreserved ones written as '%' and two upper-case hex digits.
pub open spec fn percent_encode(bs: Seq<u8>) -> Seq<char>
    decreases bs.len(),
{
    if bs.len() == 0 {
        Seq::empty()
    } else {
        let b = bs.last();
        percent_encode(bs.drop_last()) + if is_unreserved(b) {
            seq![b as char]
        } else {
            seq!['%', hex_digit(b / 16), hex_digit(b % 16)]
        }
    }
}

/// `urlencoding::encode`: percent-encodes every byte of the UTF-8 encoding except
/// ASCII alphanumerics and `-`, `_`, `.`, `~`, with upper-case hex digits.
#[verifier::external_body]
fn url_encode(s: &str) -> (r: String)
    ensures
        r@ == percent_encode(vstd::utf8::encode_utf8(s@)),
{
    urlencoding::encode(s).into_owned()
}

// ---------------------------------------------------------------------------
// URLs
// ---------------------------------------------------------------------------

pub const PAGE_PARAM: &'static str = "?page=";
pub const VALUE_PARAM: &'static str = "&search_type=title&value=";
pub const ARTIST_PARAM: &'static str = "?q=";
pub const LIMIT_PARAM: &'static str = "&limit=1";

/// Address of one page of search results for `query`.
pub open spec fn search_url_spec(query: &str, page: u32) -> Seq<char> {
    SEARCH_PROXY@ + PAGE_PARAM@ + decimal(page as nat) + VALUE_PARAM@ + percent_encode(
        vstd::utf8::encode_utf8(query@),
    )
}

/// Address of one page of search results for `query`.
pub fn search_url(query: &str, page: u32) -> (r: String)
    ensures
        r@ == search_url_spec(query, page),
{
    let mut v = chars_of(SEARCH_PROXY);
    push_all(&mut v, &chars_of(PAGE_PARAM));
    push_all(&mut v, &u64_to_decimal(page as u64));
    push_all(&mut v, &chars_of(VALUE_PARAM));
    let enc = url_encode(query);
    push_all(&mut v, &chars_of(enc.as_str()));
    string_from_chars(&v)
}

/// Address of the artist search for `artist_name`.
pub open spec fn artist_search_url_spec(artist_name: &str) -> Seq<char> {
    DEEZER_SEARCH@ + ARTIST_PARAM@ + percent_encode(vstd::utf8::encode_utf8(artist_name@)) + LIMIT_PARAM@
}

/// Address of the artist search for `artist_name`.
pub fn artist_search_url(artist_name: &str) -> (r: String)
    ensures
        r@ == artist_search_url_spec(artist_name),
{
    let mut v = chars_of(DEEZER_SEARCH);
    push_all(&mut v, &chars_of(ARTIST_PARAM));
    let enc = url_encode(artist_name);
    push_all(&mut v, &chars_of(enc.as_str()));
    push_all(&mut v, &chars_of(LIMIT_PARAM));
    string_from_chars(&v)
}

/// `s` without any number of leading copies of `p` (`str::trim_start_matches`).
pub open spec fn strip_prefixes(s: Seq<char>, p: Seq<char>) -> Seq<char>
    decreases s.len(),
{
    if p.len() > 0 && p.len() <= s.len() && s.subrange(0, p.len() as int) == p {
        strip_prefixes(s.subrange(p.len() as int, s.len() as int), p)
    } else {
        s
    }
}

/// A tab path with leading '/' characters and then leading "tab/" prefixes removed.
pub open spec fn clean_tab_path(url_path: Seq<char>) -> Seq<char> {
    strip_prefixes(strip_prefixes(url_path, seq!['/']), seq!['t', 'a', 'b', '/'])
}

fn strip_prefixes_exec(s: &[char], p: &[char]) -> (r: Vec<char>)
    ensures
        r@ == strip_prefixes(s@, p@),
{
    let n = s.len();
    let m = p.len();
    let mut i: usize = 0;
    proof {
        assert(s@.subrange(0, n as int) =~= s@);
    }
    while m > 0 && m <= n - i && crate::music::parser::has_at_exec(s, i, p)
        invariant
            n == s@.len(),
            m == p@.len(),
            i <= n,
            strip_prefixes(s@, p@) == strip_prefixes(s@.subrange(i as int, n as int), p@),
        decreases n - i,
    {
        proof {
            let t = s@.subrange(i as int, n as int);
            assert(t.subrange(0, m as int) =~= s@.subrange(i as int, i + m));
            assert(t.subrange(m as int, t.len() as int) =~= s@.subrange(i + m, n as int));
        }
        i = i + m;
    }
    proof {
        let t = s@.subrange(i as int, n as int);
        if m > 0 && m <= n - i {
            assert(t.subrange(0, m as int) =~= s@.subrange(i as int, i + m));
        }
    }
    crate::text::sub_chars(s, i, n)
}

/// Address of the page of the tab at `url_path` (like "artist/song-chords-123" or
/// "/tab/artist/song-chords-123").
pub fn tab_page_url(url_path: &str) -> (r: String)
    ensures
        r@ == TAB_PROXY@ + clean_tab_path(url_path@),
{
    let s = chars_of(url_path);
    let slash: [char; 1] = ['/'];
    let tab: [char; 4] = ['t', 'a', 'b', '/'];
    assert(slash@ =~= seq!['/']);
    assert(tab@ =~= seq!['t', 'a', 'b', '/']);
    let a = strip_prefixes_exec(&s, &slash);
    let b = strip_prefixes_exec(&a, &tab);
    let mut v = chars_of(TAB_PROXY);
    push_all(&mut v, &b);
    string_from_chars(&v)
}

// ---------------------------------------------------------------------------
// Paths of URLs
// ---------------------------------------------------------------------------

/// The path of `s` read as an absolute URL (`url::Url::parse(s)` then `path()`),
/// `None` where `s` is not one.
pub uninterp spec fn url_path(s: Seq<char>) -> Option<Seq<char>>;

/// `url::Url::parse(s)` and, where it succeeds, the parsed URL's `path()`.
#[verifier::external_body]
fn parsed_url_path(s: &str) -> (r: Option<String>)
    ensures
        match r {
            Some(p) => url_path(s@) == Some(p@),
            None => url_path(s@) is None,
        },
{
    url::Url::parse(s).ok().map(|u| u.path().to_string())
}

/// The path of a full URL, or the text itself if it is not one (already a path).
pub open spec fn path_of(s: Seq<char>) -> Seq<char> {
    match url_path(s) {
        Some(p) => p,
        None => s,
    }
}

/// Extract just the path from a full URL.
pub fn extract_path(url_str: &str) -> (r: String)
    ensures
        r@ == path_of(url_str@),
{
    match parsed_url_path(url_str) {
        Some(p) => p,
        None => url_str.to_owned(),
    }
}

// ---------------------------------------------------------------------------
// The data embedded in a page
// ---------------------------------------------------------------------------

/// For the HTML document `html`: `None` if it has no `div` element of class
/// `js-store`; else the `data-content` attribute of the first such element, if any.
pub uninterp spec fn js_store(html: Seq<char>) -> Option<Option<Seq<char>>>;

/// `scraper`: parses `html` as a document, selects `div.js-store`, and reads the
/// `data-content` attribute of the first match.
#[verifier::external_body]
fn js_store_content(html: &str) -> (r: Option<Option<String>>)
    ensures
        match r {
            None => js_store(html@) is None,
            Some(None) => js_store(html@) == Some(None::<Seq<char>>),
            Some(Some(a)) => js_store(html@) == Some(Some(a@)),
        },
{
    let document = scraper::Html::parse_document(html);
    let selector = scraper::Selector::parse("div.js-store").ok()?;
    let found = document.select(&selector).next();
    found.map(|div| div.value().attr("data-content").map(|a| a.to_string()))
}

pub const NO_STORE: &'static str = "Could not find js-store div (response length: ";
pub const NO_STORE_IN_TAB: &'static str =
    "Could not find js-store div in tab page (response length: ";
pub const BYTES_SUFFIX: &'static str = " bytes)";
pub const NO_DATA_CONTENT: &'static str = "No data-content attribute";

/// The JSON text a page embeds, or the message of what is missing.
pub open spec fn store_data_spec(html: &str, tab_page: bool) -> Result<Seq<char>, Seq<char>> {
    match js_store(html@) {
        None => Err(
            (if tab_page {
                NO_STORE_IN_TAB@
            } else {
                NO_STORE@
            }) + decimal(html.len() as nat) + BYTES_SUFFIX@,
        ),
        Some(None) => Err(NO_DATA_CONTENT@),
        Some(Some(a)) => Ok(a),
    }
}

/// The JSON text a page embeds in the `data-content` attribute of its `div.js-store`.
pub fn store_data(html: &str, tab_page: bool) -> (r: Result<String, String>)
    ensures
        match r {
            Ok(a) => store_data_spec(html, tab_page) == Ok::<Seq<char>, Seq<char>>(a@),
            Err(e) => store_data_spec(html, tab_page) == Err::<Seq<char>, Seq<char>>(e@),
        },
{
    match js_store_content(html) {
        None => {
            let mut v = if tab_page {
                chars_of(NO_STORE_IN_TAB)
            } else {
                chars_of(NO_STORE)
            };
            push_all(&mut v, &u64_to_decimal(html.len() as u64));
            push_all(&mut v, &chars_of(BYTES_SUFFIX));
            Err(string_from_chars(&v))
        },
        Some(None) => Err(NO_DATA_CONTENT.to_owned()),
        Some(Some(a)) => Ok(a),
    }
}


// ---------------------------------------------------------------------------
// Failed requests
// ---------------------------------------------------------------------------

/// At most the first 200 bytes of a response body.
pub open spec fn body_start(body: Seq<char>) -> Seq<char> {
    if utf8_len(body) <= 200 {
        body
    } else {
        byte_slice(body, 0, 200)
    }
}

/// The message of a request answered with an error status: what was asked, the
/// status, and the start of the body.
pub open spec fn http_error_spec(what: Seq<char>, status: Seq<char>, body: Seq<char>) -> Seq<char> {
    what + " returned HTTP "@ + status + ": "@ + body_start(body)
}

/// The message of a request (`what`: "Search" or "Tab fetch") answered with the
/// error status `status`.
pub fn http_error(what: &str, status: &str, body: &str) -> (r: String)
    requires
        utf8_len(body@) <= 200 || char_index(body@, 200) is Some,
    ensures
        r@ == http_error_spec(what@, status@, body@),
{
    let c = chars_of(body);
    let whole = match utf8_len_checked(&c) {
        Some(n) => n <= 200,
        None => false,
    };
    let start = if whole {
        c
    } else {
        byte_slice_chars(&c, 0, 200)
    };
    let mut v: Vec<char> = Vec::new();
    push_str(&mut v, what);
    push_str(&mut v, " returned HTTP ");
    push_str(&mut v, status);
    push_str(&mut v, ": ");
    push_all(&mut v, &start);
    string_from_chars(&v)
}

// ---------------------------------------------------------------------------
// Reading the embedded JSON
// ---------------------------------------------------------------------------

/// The string `v` holds, or `d`.
pub open spec fn str_or(v: JsonValue, d: Seq<char>) -> Seq<char> {
    match as_str(v) {
        Some(s) => s,
        None => d,
    }
}

/// The unsigned integer `v` holds, or `d`.
pub open spec fn u64_or(v: JsonValue, d: u64) -> u64 {
    match as_u64(v) {
        Some(n) => n,
        None => d,
    }
}

/// The number `v` holds rounded to tenths, or `d`.
pub open spec fn tenths_or(v: JsonValue, d: i64) -> i64 {
    match as_tenths(v) {
        Some(n) => n,
        None => d,
    }
}

/// `root["store"]["page"]["data"]`.
pub open spec fn page_data(root: JsonValue) -> JsonValue {
    field(field(field(root, "store"@), "page"@), "data"@)
}

/// A search result as the site lists it.
pub open spec fn result_of(item: JsonValue) -> ResultView {
    ResultView {
        artist_name: str_or(field(item, "artist_name"@), Seq::empty()),
        song_name: str_or(field(item, "song_name"@), Seq::empty()),
        tab_url: path_of(str_or(field(item, "tab_url"@), Seq::empty())),
        tab_type: tab_type_of(str_or(field(item, "type"@), Seq::empty())),
        version: u64_or(field(item, "version"@), 1) as u32,
        rating_tenths: tenths_or(field(item, "rating"@), 0),
        votes: u64_or(field(item, "votes"@), 0) as u32,
    }
}

/// Results of type "Pro" or "Official", or without a type, are left out.
pub open spec fn is_listed(item: JsonValue) -> bool {
    let t = str_or(field(item, "type"@), Seq::empty());
    !(t == "Pro"@ || t == "Official"@ || t.len() == 0)
}

pub open spec fn listed_results(items: Seq<JsonValue>) -> Seq<ResultView>
    decreases items.len(),
{
    if items.len() == 0 {
        Seq::empty()
    } else {
        let r = listed_results(items.drop_last());
        if is_listed(items.last()) {
            r.push(result_of(items.last()))
        } else {
            r
        }
    }
}

pub const NO_RESULTS: &'static str = "No results array in JSON data";

/// A page of search results: the listed results, the number of pages and the
/// current page (1 when missing).
pub open spec fn search_response_spec(root: JsonValue) -> Result<(Seq<ResultView>, u32, u32), Seq<char>> {
    let d = page_data(root);
    match as_array(field(d, "results"@)) {
        None => Err(NO_RESULTS@),
        Some(items) => Ok(
            (
                listed_results(items),
                u64_or(field(field(d, "pagination"@), "total"@), 1) as u32,
                u64_or(field(field(d, "pagination"@), "current"@), 1) as u32,
            ),
        ),
    }
}

fn str_or_exec(v: Option<&JsonValue>, d: &str) -> (r: String)
    ensures
        r@ == str_or(opt_json(v), d@),
{
    match str_val(v) {
        Some(s) => s,
        None => d.to_owned(),
    }
}

fn u64_or_exec(v: Option<&JsonValue>, d: u64) -> (r: u64)
    ensures
        r == u64_or(opt_json(v), d),
{
    match u64_val(v) {
        Some(n) => n,
        None => d,
    }
}

fn tenths_or_exec(v: Option<&JsonValue>, d: i64) -> (r: i64)
    ensures
        r == tenths_or(opt_json(v), d),
{
    match tenths_val(v) {
        Some(n) => n,
        None => d,
    }
}

fn page_data_exec(root: &JsonValue) -> (r: Option<&JsonValue>)
    ensures
        opt_json(r) == page_data(*root),
{
    fld(fld(fld(Some(root), "store"), "page"), "data")
}

fn result_from(item: &JsonValue) -> (r: SearchResult)
    ensures
        r@ == result_of(*item),
{
    proof {
        reveal_strlit("");
        assert(""@ =~= Seq::<char>::empty());
    }
    let it = Some(item);
    let type_str = str_or_exec(fld(it, "type"), "");
    SearchResult {
        artist_name: str_or_exec(fld(it, "artist_name"), ""),
        song_name: str_or_exec(fld(it, "song_name"), ""),
        tab_url: extract_path(str_or_exec(fld(it, "tab_url"), "").as_str()),
        tab_type: TabType::from_str(type_str.as_str()),
        version: u64_or_exec(fld(it, "version"), 1) as u32,
        rating_tenths: tenths_or_exec(fld(it, "rating"), 0),
        votes: u64_or_exec(fld(it, "votes"), 0) as u32,
    }
}

fn is_listed_exec(item: &JsonValue) -> (r: bool)
    ensures
        r == is_listed(*item),
{
    proof {
        reveal_strlit("");
        assert(""@ =~= Seq::<char>::empty());
    }
    let t = str_or_exec(fld(Some(item), "type"), "");
    let pro = "Pro".to_owned();
    let official = "Official".to_owned();
    !(t == pro || t == official || t.as_str().is_empty())
}

/// The search results a page of the site embeds.
pub fn parse_search_results(root: &JsonValue) -> (r: Result<SearchResponse, String>)
    ensures
        match r {
            Ok(resp) => search_response_spec(*root) == Ok::<(Seq<ResultView>, u32, u32), Seq<char>>(
                (result_views(resp.results@), resp.total_pages, resp.current_page),
            ),
            Err(e) => search_response_spec(*root) == Err::<(Seq<ResultView>, u32, u32), Seq<char>>(
                e@,
            ),
        },
{
    let d = page_data_exec(root);
    let items = match arr_val(fld(d, "results")) {
        Some(a) => a,
        None => {
            return Err(NO_RESULTS.to_owned());
        },
    };
    let mut results: Vec<SearchResult> = Vec::new();
    let mut i: usize = 0;
    proof {
        assert(items@.take(0) =~= Seq::<JsonValue>::empty());
        assert(result_views(results@) =~= Seq::<ResultView>::empty());
    }
    while i < items.len()
        invariant
            i <= items@.len(),
            result_views(results@) == listed_results(items@.take(i as int)),
        decreases items@.len() - i,
    {
        proof {
            let t = items@.take(i + 1);
            assert(t.drop_last() =~= items@.take(i as int));
            assert(t.last() == items@[i as int]);
        }
        if is_listed_exec(&items[i]) {
            let r = result_from(&items[i]);
            proof {
                assert(result_views(results@.push(r)) =~= result_views(results@).push(r@));
            }
            results.push(r);
        }
        i = i + 1;
    }
    assert(items@.take(items@.len() as int) =~= items@);
    let pagination = fld(d, "pagination");
    let total_pages = u64_or_exec(fld(pagination, "total"), 1) as u32;
    let current_page = u64_or_exec(fld(pagination, "current"), 1) as u32;
    Ok(SearchResponse { results, total_pages, current_page })
}

// ---------------------------------------------------------------------------
// A tab page
// ---------------------------------------------------------------------------

/// The capo position: a positive number, or a text other than "0" and "".
pub open spec fn capo_of(meta: JsonValue) -> Option<Seq<char>> {
    if !is_object(meta) {
        None
    } else {
        let c = field(meta, "capo"@);
        if as_u64(c) matches Some(n) && n > 0 {
            Some(decimal(as_u64(c)->0 as nat))
        } else {
            match as_str(c) {
                Some(s) => if s == seq!['0'] || s.len() == 0 {
                    None
                } else {
                    Some(s)
                },
                None => None,
            }
        }
    }
}

/// The tuning's value and name, when the tuning has both as texts.
pub open spec fn tuning_of(meta: JsonValue) -> Option<(Seq<char>, Seq<char>)> {
    if !is_object(meta) {
        None
    } else {
        let t = field(meta, "tuning"@);
        match (as_str(field(t, "value"@)), as_str(field(t, "name"@))) {
            (Some(v), Some(n)) => Some((v, n)),
            _ => None,
        }
    }
}

/// Another version of the tab; artist and song default to the tab's own.
pub open spec fn alternative_of(alt: JsonValue, artist: Seq<char>, song: Seq<char>) -> ResultView {
    ResultView {
        artist_name: str_or(field(alt, "artist_name"@), artist),
        song_name: str_or(field(alt, "song_name"@), song),
        tab_url: path_of(str_or(field(alt, "tab_url"@), Seq::empty())),
        tab_type: tab_type_of(str_or(field(alt, "type"@), Seq::empty())),
        version: u64_or(field(alt, "version"@), 1) as u32,
        rating_tenths: tenths_or(field(alt, "rating"@), 0),
        votes: u64_or(field(alt, "votes"@), 0) as u32,
    }
}

/// The other versions, "Official" ones left out.
pub open spec fn alternatives_of(vs: Seq<JsonValue>, artist: Seq<char>, song: Seq<char>) -> Seq<
    ResultView,
>
    decreases vs.len(),
{
    if vs.len() == 0 {
        Seq::empty()
    } else {
        let r = alternatives_of(vs.drop_last(), artist, song);
        if str_or(field(vs.last(), "type"@), Seq::empty()) == "Official"@ {
            r
        } else {
            r.push(alternative_of(vs.last(), artist, song))
        }
    }
}

/// Integers of a JSON array, `d` for the entries that are not integers, each
/// truncated to 32 bits.
pub open spec fn ints_or(vs: Seq<JsonValue>, d: i64) -> Seq<i32> {
    vs.map_values(
        |v: JsonValue|
            (match as_i64(v) {
                Some(x) => x,
                None => d,
            }) as i32,
    )
}

/// Frets (-1 where unreadable) and fingers (0 where unreadable) of one variant.
pub open spec fn fingering_of(variant: JsonValue) -> (Seq<i32>, Seq<i32>) {
    (
        match as_array(field(variant, "frets"@)) {
            Some(a) => ints_or(a, -1i64),
            None => Seq::empty(),
        },
        match as_array(field(variant, "fingers"@)) {
            Some(a) => ints_or(a, 0),
            None => Seq::empty(),
        },
    )
}

/// The fingerings of the variants that have frets.
pub open spec fn fingerings_of(vs: Seq<JsonValue>) -> Seq<(Seq<i32>, Seq<i32>)>
    decreases vs.len(),
{
    if vs.len() == 0 {
        Seq::empty()
    } else {
        let r = fingerings_of(vs.drop_last());
        let f = fingering_of(vs.last());
        if f.0.len() > 0 {
            r.push(f)
        } else {
            r
        }
    }
}

/// First index of the chord named `k`.
pub open spec fn chord_index(m: Seq<(Seq<char>, Seq<(Seq<i32>, Seq<i32>)>)>, k: Seq<char>, i: int) -> Option<int>
    decreases m.len() - i,
{
    if i < 0 || i >= m.len() {
        None
    } else if m[i].0 == k {
        Some(i)
    } else {
        chord_index(m, k, i + 1)
    }
}

/// `m` with chord `k` mapped to `f` (in place if `k` is already there).
pub open spec fn chord_insert(
    m: Seq<(Seq<char>, Seq<(Seq<i32>, Seq<i32>)>)>,
    k: Seq<char>,
    f: Seq<(Seq<i32>, Seq<i32>)>,
) -> Seq<(Seq<char>, Seq<(Seq<i32>, Seq<i32>)>)> {
    match chord_index(m, k, 0) {
        Some(i) => m.update(i, (k, f)),
        None => m.push((k, f)),
    }
}

/// Chords of the members read so far; `None` once a member is not an array.
pub open spec fn applicature_fold(es: Seq<(String, JsonValue)>) -> Option<
    Seq<(Seq<char>, Seq<(Seq<i32>, Seq<i32>)>)>,
>
    decreases es.len(),
{
    if es.len() == 0 {
        Some(Seq::empty())
    } else {
        match applicature_fold(es.drop_last()) {
            None => None,
            Some(m) => match as_array(es.last().1) {
                None => None,
                Some(vs) => {
                    let f = fingerings_of(vs);
                    if f.len() > 0 {
                        Some(chord_insert(m, es.last().0@, f))
                    } else {
                        Some(m)
                    }
                },
            },
        }
    }
}

/// Chord fingerings of a tab: from an object of chord names to arrays of variants;
/// `None` if it is not such an object or no chord has a fingering.
pub open spec fn applicature_spec(v: JsonValue) -> Option<Seq<(Seq<char>, Seq<(Seq<i32>, Seq<i32>)>)>> {
    match v {
        JsonValue::Object(es) => match applicature_fold(es@) {
            Some(m) => if m.len() == 0 {
                None
            } else {
                Some(m)
            },
            None => None,
        },
        _ => None,
    }
}

pub const NO_TAB_CONTENT: &'static str = "No tab content";
pub const UNKNOWN: &'static str = "Unknown";
pub const CHORDS_TYPE: &'static str = "Chords";

/// The tab a tab page embeds.
pub open spec fn tab_data_spec(root: JsonValue) -> Result<TabDataView, Seq<char>> {
    let d = page_data(root);
    let tab = field(d, "tab"@);
    let tv = field(d, "tab_view"@);
    match as_str(field(field(tv, "wiki_tab"@), "content"@)) {
        None => Err(NO_TAB_CONTENT@),
        Some(raw) => {
            let artist = str_or(field(tab, "artist_name"@), UNKNOWN@);
            let song = str_or(field(tab, "song_name"@), UNKNOWN@);
            Ok(
                TabDataView {
                    raw_content: raw,
                    artist_name: artist,
                    song_name: song,
                    version: u64_or(field(tab, "version"@), 1) as u32,
                    tab_type: tab_type_of(str_or(field(tab, "type"@), CHORDS_TYPE@)),
                    rating_tenths: tenths_or(field(tab, "rating"@), 0),
                    difficulty: str_or(field(tv, "ug_difficulty"@), Seq::empty()),
                    capo: capo_of(field(tv, "meta"@)),
                    tuning: tuning_of(field(tv, "meta"@)),
                    tab_url: path_of(str_or(field(tab, "tab_url"@), Seq::empty())),
                    alternatives: match as_array(field(tv, "versions"@)) {
                        Some(vs) => alternatives_of(vs, artist, song),
                        None => Seq::empty(),
                    },
                    applicature: applicature_spec(field(tv, "applicature"@)),
                },
            )
        },
    }
}

fn capo_from(meta: Option<&JsonValue>) -> (r: Option<String>)
    ensures
        match r {
            Some(c) => capo_of(opt_json(meta)) == Some(c@),
            None => capo_of(opt_json(meta)) is None,
        },
{
    match meta {
        Some(JsonValue::Object(_)) => {},
        _ => {
            return None;
        },
    }
    let c = fld(meta, "capo");
    assert(is_object(opt_json(meta)));
    match u64_val(c) {
        Some(n) => {
            if n > 0 {
                return Some(string_from_chars(&u64_to_decimal(n)));
            }
        },
        None => {},
    }
    match str_val(c) {
        Some(s) => {
            let zero = "0".to_owned();
            proof {
                reveal_strlit("0");
                assert("0"@ =~= seq!['0']);
            }
            if s == zero || s.as_str().is_empty() {
                None
            } else {
                Some(s)
            }
        },
        None => None,
    }
}

fn tuning_from(meta: Option<&JsonValue>) -> (r: Option<TuningInfo>)
    ensures
        match r {
            Some(t) => tuning_of(opt_json(meta)) == Some((t.value@, t.name@)),
            None => tuning_of(opt_json(meta)) is None,
        },
{
    match meta {
        Some(JsonValue::Object(_)) => {},
        _ => {
            return None;
        },
    }
    let t = fld(meta, "tuning");
    match (str_val(fld(t, "value")), str_val(fld(t, "name"))) {
        (Some(value), Some(name)) => Some(TuningInfo { value, name }),
        _ => None,
    }
}

fn alternative_from(alt: &JsonValue, artist: &String, song: &String) -> (r: SearchResult)
    ensures
        r@ == alternative_of(*alt, artist@, song@),
{
    proof {
        reveal_strlit("");
        assert(""@ =~= Seq::<char>::empty());
    }
    let a = Some(alt);
    let type_str = str_or_exec(fld(a, "type"), "");
    SearchResult {
        artist_name: str_or_exec(fld(a, "artist_name"), artist.as_str()),
        song_name: str_or_exec(fld(a, "song_name"), song.as_str()),
        tab_url: extract_path(str_or_exec(fld(a, "tab_url"), "").as_str()),
        tab_type: TabType::from_str(type_str.as_str()),
        version: u64_or_exec(fld(a, "version"), 1) as u32,
        rating_tenths: tenths_or_exec(fld(a, "rating"), 0),
        votes: u64_or_exec(fld(a, "votes"), 0) as u32,
    }
}

fn alternatives_from(vs: &Vec<JsonValue>, artist: &String, song: &String) -> (r: Vec<SearchResult>)
    ensures
        result_views(r@) == alternatives_of(vs@, artist@, song@),
{
    let mut r: Vec<SearchResult> = Vec::new();
    let mut i: usize = 0;
    let official = "Official".to_owned();
    proof {
        reveal_strlit("");
        assert(""@ =~= Seq::<char>::empty());
        assert(vs@.take(0) =~= Seq::<JsonValue>::empty());
        assert(result_views(r@) =~= Seq::<ResultView>::empty());
    }
    while i < vs.len()
        invariant
            i <= vs@.len(),
            official@ == "Official"@,
            result_views(r@) == alternatives_of(vs@.take(i as int), artist@, song@),
        decreases vs@.len() - i,
    {
        proof {
            let t = vs@.take(i + 1);
            assert(t.drop_last() =~= vs@.take(i as int));
            assert(t.last() == vs@[i as int]);
        }
        proof {
            reveal_strlit("");
            assert(""@ =~= Seq::<char>::empty());
        }
        let t = str_or_exec(fld(Some(&vs[i]), "type"), "");
        if !(t == official) {
            let a = alternative_from(&vs[i], artist, song);
            proof {
                assert(result_views(r@.push(a)) =~= result_views(r@).push(a@));
            }
            r.push(a);
        }
        i = i + 1;
    }
    assert(vs@.take(vs@.len() as int) =~= vs@);
    r
}

fn ints_from(vs: &Vec<JsonValue>, d: i64) -> (r: Vec<i32>)
    ensures
        r@ == ints_or(vs@, d),
{
    let mut r: Vec<i32> = Vec::new();
    let mut i: usize = 0;
    while i < vs.len()
        invariant
            i <= vs@.len(),
            r@ == ints_or(vs@.take(i as int), d),
        decreases vs@.len() - i,
    {
        let x = match i64_val(Some(&vs[i])) {
            Some(x) => x,
            None => d,
        };
        r.push(x as i32);
        i = i + 1;
        assert(r@ =~= ints_or(vs@.take(i as int), d));
    }
    assert(vs@.take(vs@.len() as int) =~= vs@);
    r
}

fn fingering_from(variant: &JsonValue) -> (r: ChordFingering)
    ensures
        fingering_view(r) == fingering_of(*variant),
{
    let v = Some(variant);
    let frets = match arr_val(fld(v, "frets")) {
        Some(a) => ints_from(a, -1),
        None => Vec::new(),
    };
    let fingers = match arr_val(fld(v, "fingers")) {
        Some(a) => ints_from(a, 0),
        None => Vec::new(),
    };
    let r = ChordFingering { frets, fingers };
    assert(fingering_view(r) =~= fingering_of(*variant));
    r
}

fn fingerings_from(vs: &Vec<JsonValue>) -> (r: Vec<ChordFingering>)
    ensures
        fingering_views(r@) == fingerings_of(vs@),
{
    let mut r: Vec<ChordFingering> = Vec::new();
    let mut i: usize = 0;
    proof {
        assert(vs@.take(0) =~= Seq::<JsonValue>::empty());
        assert(fingering_views(r@) =~= Seq::<(Seq<i32>, Seq<i32>)>::empty());
    }
    while i < vs.len()
        invariant
            i <= vs@.len(),
            fingering_views(r@) == fingerings_of(vs@.take(i as int)),
        decreases vs@.len() - i,
    {
        proof {
            let t = vs@.take(i + 1);
            assert(t.drop_last() =~= vs@.take(i as int));
            assert(t.last() == vs@[i as int]);
        }
        let f = fingering_from(&vs[i]);
        if f.frets.len() > 0 {
            proof {
                assert(fingering_views(r@.push(f)) =~= fingering_views(r@).push(fingering_view(f)));
            }
            r.push(f);
        }
        i = i + 1;
    }
    assert(vs@.take(vs@.len() as int) =~= vs@);
    r
}

fn chord_insert_exec(m: &mut Vec<(String, Vec<ChordFingering>)>, k: String, f: Vec<ChordFingering>)
    ensures
        applicature_view(final(m)@) == chord_insert(applicature_view(old(m)@), k@, fingering_views(
            f@,
        )),
{
    let ghost mv = applicature_view(m@);
    let mut i: usize = 0;
    while i < m.len()
        invariant
            i <= m@.len(),
            mv == applicature_view(m@),
            mv == applicature_view(old(m)@),
            chord_index(mv, k@, 0) == chord_index(mv, k@, i as int),
        decreases m@.len() - i,
    {
        if m[i].0 == k {
            assert(mv[i as int].0 == k@);
            assert(chord_index(mv, k@, 0) == Some(i as int));
            let ghost e = (k@, fingering_views(f@));
            m.set(i, (k, f));
            assert(applicature_view(m@) =~= mv.update(i as int, e));
            return;
        }
        i = i + 1;
    }
    let ghost e = (k@, fingering_views(f@));
    m.push((k, f));
    assert(applicature_view(m@) =~= mv.push(e));
}

/// Chord fingering data of a tab.
pub fn parse_applicature(value: Option<&JsonValue>) -> (r: Option<Vec<(String, Vec<ChordFingering>)>>)
    ensures
        match r {
            Some(m) => applicature_spec(opt_json(value)) == Some(applicature_view(m@)),
            None => applicature_spec(opt_json(value)) is None,
        },
{
    let es = match value {
        Some(JsonValue::Object(es)) => es,
        _ => {
            return None;
        },
    };
    let mut m: Vec<(String, Vec<ChordFingering>)> = Vec::new();
    let mut i: usize = 0;
    proof {
        assert(es@.take(0) =~= Seq::<(String, JsonValue)>::empty());
        assert(applicature_view(m@) =~= Seq::<(Seq<char>, Seq<(Seq<i32>, Seq<i32>)>)>::empty());
    }
    while i < es.len()
        invariant
            i <= es@.len(),
            applicature_fold(es@.take(i as int)) == Some(applicature_view(m@)),
            opt_json(value) == JsonValue::Object(*es),
        decreases es@.len() - i,
    {
        proof {
            let t = es@.take(i + 1);
            assert(t.drop_last() =~= es@.take(i as int));
            assert(t.last() == es@[i as int]);
        }
        let variants = match arr_val(Some(&es[i].1)) {
            Some(a) => a,
            None => {
                proof {
                    lemma_applicature_none(es@, i + 1);
                }
                return None;
            },
        };
        let f = fingerings_from(variants);
        if f.len() > 0 {
            chord_insert_exec(&mut m, es[i].0.clone(), f);
        }
        i = i + 1;
    }
    assert(es@.take(es@.len() as int) =~= es@);
    if m.len() == 0 {
        None
    } else {
        Some(m)
    }
}

/// Once a member is not an array, the fold stays `None`.
proof fn lemma_applicature_none(es: Seq<(String, JsonValue)>, k: int)
    requires
        0 < k <= es.len(),
        applicature_fold(es.take(k)) is None,
    ensures
        applicature_fold(es) is None,
    decreases es.len() - k,
{
    if k < es.len() {
        let t = es.take(k + 1);
        assert(t.drop_last() =~= es.take(k));
        lemma_applicature_none(es, k + 1);
    } else {
        assert(es.take(k) =~= es);
    }
}

/// The tab a tab page embeds.
pub fn parse_tab_data(root: &JsonValue) -> (r: Result<TabData, String>)
    ensures
        match r {
            Ok(t) => tab_data_spec(*root) == Ok::<TabDataView, Seq<char>>(t@),
            Err(e) => tab_data_spec(*root) == Err::<TabDataView, Seq<char>>(e@),
        },
{
    let d = page_data_exec(root);
    let tab = fld(d, "tab");
    let tv = fld(d, "tab_view");
    let raw_content = match str_val(fld(fld(tv, "wiki_tab"), "content")) {
        Some(s) => s,
        None => {
            return Err(NO_TAB_CONTENT.to_owned());
        },
    };
    proof {
        reveal_strlit("");
        assert(""@ =~= Seq::<char>::empty());
    }
    let artist_name = str_or_exec(fld(tab, "artist_name"), UNKNOWN);
    let song_name = str_or_exec(fld(tab, "song_name"), UNKNOWN);
    let version = u64_or_exec(fld(tab, "version"), 1) as u32;
    let type_str = str_or_exec(fld(tab, "type"), CHORDS_TYPE);
    let tab_type = TabType::from_str(type_str.as_str());
    let rating_tenths = tenths_or_exec(fld(tab, "rating"), 0);
    let difficulty = str_or_exec(fld(tv, "ug_difficulty"), "");
    let meta = fld(tv, "meta");
    let capo = capo_from(meta);
    let tuning = tuning_from(meta);
    let tab_url = extract_path(str_or_exec(fld(tab, "tab_url"), "").as_str());
    let alternatives = match arr_val(fld(tv, "versions")) {
        Some(vs) => alternatives_from(vs, &artist_name, &song_name),
        None => {
            let v: Vec<SearchResult> = Vec::new();
            assert(result_views(v@) =~= Seq::<ResultView>::empty());
            v
        },
    };
    let applicature = parse_applicature(fld(tv, "applicature"));
    Ok(
        TabData {
            raw_content,
            artist_name,
            song_name,
            version,
            tab_type,
            rating_tenths,
            difficulty,
            capo,
            tuning,
            tab_url,
            alternatives,
            applicature,
        },
    )
}

pub const NO_ARTIST_IMAGE: &'static str = "No artist image found on Deezer";

/// Address of the small picture of the first artist an artist search found.
pub open spec fn artist_picture_spec(root: JsonValue) -> Result<Seq<char>, Seq<char>> {
    match as_array(field(root, "data"@)) {
        Some(a) => if a.len() > 0 {
            match as_str(field(a[0], "picture_small"@)) {
                Some(u) => Ok(u),
                None => Err(NO_ARTIST_IMAGE@),
            }
        } else {
            Err(NO_ARTIST_IMAGE@)
        },
        None => Err(NO_ARTIST_IMAGE@),
    }
}

/// Address of the small picture of the first artist an artist search found.
pub fn artist_picture_url(root: &JsonValue) -> (r: Result<String, String>)
    ensures
        match r {
            Ok(u) => artist_picture_spec(*root) == Ok::<Seq<char>, Seq<char>>(u@),
            Err(e) => artist_picture_spec(*root) == Err::<Seq<char>, Seq<char>>(e@),
        },
{
    match arr_val(fld(Some(root), "data")) {
        Some(a) => {
            if a.len() > 0 {
                match str_val(fld(Some(&a[0]), "picture_small")) {
                    Some(u) => Ok(u),
                    None => Err(NO_ARTIST_IMAGE.to_owned()),
                }
            } else {
                Err(NO_ARTIST_IMAGE.to_owned())
            }
        },
        None => Err(NO_ARTIST_IMAGE.to_owned()),
    }
}

/// A version that a tab page lists besides the tab, other than an "Official" one.
pub open spec fn other_version(v: JsonValue) -> bool {
    str_or(field(v, "type"@), Seq::empty()) != "Official"@
}

/// The versions of `vs` that are listed as other versions, in order.
pub open spec fn other_versions(vs: Seq<JsonValue>) -> Seq<JsonValue> {
    vs.filter(|v: JsonValue| other_version(v))
}

/// The alternative `a` is read from the version `v`: its type and address are
/// the version's own, its artist and song default to the tab's.
pub open spec fn read_from_version(a: ResultView, v: JsonValue, artist: Seq<char>, song: Seq<char>) -> bool {
    &&& a.tab_type == tab_type_of(str_or(field(v, "type"@), Seq::empty()))
    &&& a.tab_url == path_of(str_or(field(v, "tab_url"@), Seq::empty()))
    &&& a.artist_name == str_or(field(v, "artist_name"@), artist)
    &&& a.song_name == str_or(field(v, "song_name"@), song)
}

proof fn lemma_alternatives_follow(vs: Seq<JsonValue>, artist: Seq<char>, song: Seq<char>)
    ensures
        alternatives_of(vs, artist, song).len() == other_versions(vs).len(),
        forall|j: int|
            0 <= j < alternatives_of(vs, artist, song).len() ==> read_from_version(
                #[trigger] alternatives_of(vs, artist, song)[j],
                other_versions(vs)[j],
                artist,
                song,
            ),
    decreases vs.len(),
{
    reveal(Seq::filter);
    if vs.len() > 0 {
        lemma_alternatives_follow(vs.drop_last(), artist, song);
        let a = alternatives_of(vs, artist, song);
        let p = alternatives_of(vs.drop_last(), artist, song);
        let k = other_versions(vs);
        let kp = other_versions(vs.drop_last());
        assert(k == if other_version(vs.last()) {
            kp.push(vs.last())
        } else {
            kp
        });
        assert forall|j: int| 0 <= j < a.len() implies read_from_version(#[trigger] a[j], k[j], artist, song) by {
            if j < p.len() {
                assert(a[j] == p[j]);
                assert(k[j] == kp[j]);
            }
        }
    }
}

/// The other versions of a tab are read, in order, from the versions its page lists,
/// leaving out the "Official" ones: there is one per such version, carrying that
/// version's own type and address (and its artist and song, the tab's by default).
pub proof fn law_alternatives_carry_their_versions(root: JsonValue)
    ensures
        tab_data_spec(root) matches Ok(t) ==> {
            let vs = match as_array(field(field(page_data(root), "tab_view"@), "versions"@)) {
                Some(vs) => vs,
                None => Seq::empty(),
            };
            &&& t.alternatives.len() == other_versions(vs).len()
            &&& forall|j: int|
                0 <= j < t.alternatives.len() ==> read_from_version(
                    #[trigger] t.alternatives[j],
                    other_versions(vs)[j],
                    t.artist_name,
                    t.song_name,
                )
        },
{
    reveal(Seq::filter);
    let tv = field(page_data(root), "tab_view"@);
    let tab = field(page_data(root), "tab"@);
    let artist = str_or(field(tab, "artist_name"@), UNKNOWN@);
    let song = str_or(field(tab, "song_name"@), UNKNOWN@);
    match as_array(field(tv, "versions"@)) {
        Some(vs) => lemma_alternatives_follow(vs, artist, song),
        None => {
            assert(other_versions(Seq::<JsonValue>::empty()) =~= Seq::<JsonValue>::empty());
        },
    }
}

} // verus!
