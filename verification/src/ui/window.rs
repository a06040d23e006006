use vstd::prelude::*;

use crate::data::models::{
    chord_display, group_views, groups_wf, law_merge_keeps_groups_well_formed, line_views,
    merge_all, result_views, ChordView, GroupView, LineView, ParsedLine, ResultView, SearchResult,
    SongGroup, TabData, TabDataView,
};
use crate::music::chord_db::{parse_i32, parse_i32_chars};
use crate::text::{
    chars_eq, chars_of, decimal, push_all, push_decimal, push_str, string_from_chars, trim,
    trim_chars,
};
use crate::ui::tab_view::{clamp, TabView, TabViewState};

verus! {

// ---------------------------------------------------------------------------
// Transposition
// ---------------------------------------------------------------------------

/// One half step up, unless already eleven up.
pub open spec fn step_up(steps: int) -> int {
    if steps < 11 {
        steps + 1
    } else {
        steps
    }
}

/// One half step down, unless already eleven down.
pub open spec fn step_down(steps: int) -> int {
    if steps > -11 {
        steps - 1
    } else {
        steps
    }
}

/// The transposition after pressing the up (`true`) and down (`false`) buttons in turn.
pub open spec fn after_presses(steps: int, presses: Seq<bool>) -> int
    decreases presses.len(),
{
    if presses.len() == 0 {
        steps
    } else {
        let s = after_presses(steps, presses.drop_last());
        if presses.last() {
            step_up(s)
        } else {
            step_down(s)
        }
    }
}

/// The transposition after the up button.
pub fn transpose_up(steps: i32) -> (r: i32)
    ensures
        r == step_up(steps as int),
{
    if steps < 11 {
        steps + 1
    } else {
        steps
    }
}

/// The transposition after the down button.
pub fn transpose_down(steps: i32) -> (r: i32)
    ensures
        r == step_down(steps as int),
{
    if steps > -11 {
        steps - 1
    } else {
        steps
    }
}

/// From any transposition within an octave (a new tab, or a reset, starts at 0), no
/// sequence of presses of the up and down buttons leaves -11..=11.
pub proof fn law_transposition_stays_within_an_octave(steps: int, presses: Seq<bool>)
    requires
        -11 <= steps <= 11,
    ensures
        -11 <= after_presses(steps, presses) <= 11,
    decreases presses.len(),
{
    if presses.len() > 0 {
        law_transposition_stays_within_an_octave(steps, presses.drop_last());
    }
}

// ---------------------------------------------------------------------------
// Font size and columns
// ---------------------------------------------------------------------------

/// Zoom in (`larger`) or out by one point (Ctrl+plus / Ctrl+minus). The view keeps the
/// size within 8..=32; the returned size, which is the one saved, is the same.
pub fn zoom(view: &mut TabView, larger: bool) -> (saved: i32)
    ensures
        final(view)@ == (TabViewState {
            font_size: clamp(
                if larger {
                    old(view)@.font_size + 1
                } else {
                    old(view)@.font_size - 1
                },
                8,
                32,
            ) as i32,
            ..old(view)@
        }),
        saved == final(view)@.font_size,
{
    let size = view.get_font_size();
    let new_size = if larger {
        size + 1
    } else {
        size - 1
    };
    view.set_font_size(new_size);
    if new_size < 8 {
        8
    } else if new_size > 32 {
        32
    } else {
        new_size
    }
}

/// The number of columns chosen in the menu, if its value reads as a number.
pub fn columns_choice(value: &str) -> (r: Option<i32>)
    ensures
        r == parse_i32(value@),
{
    parse_i32_chars(&chars_of(value))
}

// ---------------------------------------------------------------------------
// Keyboard decisions
// ---------------------------------------------------------------------------

/// The space bar toggles auto-scroll only while a tab is shown and neither the search
/// bar nor the library filter has the keyboard; otherwise it goes on to the widget.
pub fn space_toggles_scroll(search_open: bool, filter_focused: bool, showing_tab: bool) -> (r: bool)
    ensures
        r == (!search_open && !filter_focused && showing_tab),
{
    !search_open && !filter_focused && showing_tab
}

/// A search is made for what was typed only if it is more than white space.
pub fn is_search_query(text: &str) -> (r: bool)
    ensures
        r == (trim(text@).len() > 0),
{
    let t = trim_chars(&chars_of(text));
    t.len() > 0
}

/// Alt+Left goes back to the search results only from a tab opened from them.
pub fn can_go_back(has_results: bool, showing_tab: bool) -> (r: bool)
    ensures
        r == (has_results && showing_tab),
{
    has_results && showing_tab
}

// ---------------------------------------------------------------------------
// The header of a tab
// ---------------------------------------------------------------------------

/// "Artist – Song".
pub open spec fn tab_title_spec(t: TabDataView) -> Seq<char> {
    t.artist_name + seq![' ', '\u{2013}', ' '] + t.song_name
}

/// The parts of a tab's subtitle: its version past the first, and its tuning unless
/// standard.
pub open spec fn subtitle_parts(t: TabDataView) -> Seq<Seq<char>> {
    let v = if t.version > 1 {
        seq![seq!['v', 'e', 'r', ' '] + decimal(t.version as nat)]
    } else {
        Seq::empty()
    };
    let u = match t.tuning {
        Some((_, name)) => if name != seq!['S', 't', 'a', 'n', 'd', 'a', 'r', 'd'] {
            seq![name]
        } else {
            Seq::empty()
        },
        None => Seq::empty(),
    };
    v + u
}

/// The parts joined with " · ".
pub open spec fn join_dots(parts: Seq<Seq<char>>) -> Seq<char>
    decreases parts.len(),
{
    if parts.len() == 0 {
        Seq::empty()
    } else if parts.len() == 1 {
        parts[0]
    } else {
        join_dots(parts.drop_last()) + seq![' ', '·', ' '] + parts.last()
    }
}

/// The window title while a tab is shown.
pub fn tab_title(tab: &TabData) -> (r: String)
    ensures
        r@ == tab_title_spec(tab@),
{
    let mut v: Vec<char> = Vec::new();
    push_str(&mut v, tab.artist_name.as_str());
    v.push(' ');
    v.push('\u{2013}');
    v.push(' ');
    push_str(&mut v, tab.song_name.as_str());
    assert(v@ =~= tab_title_spec(tab@));
    string_from_chars(&v)
}

/// The window subtitle while a tab is shown.
pub fn tab_subtitle(tab: &TabData) -> (r: String)
    ensures
        r@ == join_dots(subtitle_parts(tab@)),
{
    let ghost t = tab@;
    let ghost p = subtitle_parts(t);
    let mut ver: Vec<char> = Vec::new();
    let has_ver = tab.version > 1;
    if has_ver {
        ver.push('v');
        ver.push('e');
        ver.push('r');
        ver.push(' ');
        push_decimal(&mut ver, tab.version as u64);
    }
    let standard: [char; 8] = ['S', 't', 'a', 'n', 'd', 'a', 'r', 'd'];
    assert(standard@ =~= seq!['S', 't', 'a', 'n', 'd', 'a', 'r', 'd']);
    let (has_tuning, name) = match &tab.tuning {
        Some(tuning) => {
            let name = chars_of(tuning.name.as_str());
            (!chars_eq(&name, &standard), name)
        },
        None => (false, Vec::new()),
    };
    proof {
        if has_ver {
            assert(ver@ =~= seq!['v', 'e', 'r', ' '] + decimal(t.version as nat));
        }
        if has_ver && has_tuning {
            assert(p =~= seq![ver@, name@]);
            assert(p.drop_last() =~= seq![ver@]);
        } else if has_ver {
            assert(p =~= seq![ver@]);
        } else if has_tuning {
            assert(p =~= seq![name@]);
        } else {
            assert(p =~= Seq::<Seq<char>>::empty());
        }
    }
    let mut v: Vec<char> = Vec::new();
    if has_ver {
        push_all(&mut v, &ver);
        if has_tuning {
            v.push(' ');
            v.push('·');
            v.push(' ');
        }
    }
    if has_tuning {
        push_all(&mut v, &name);
    }
    proof {
        if has_ver && has_tuning {
            assert(join_dots(p.drop_last()) == ver@);
            assert(v@ =~= join_dots(p));
        } else {
            assert(v@ =~= join_dots(p));
        }
    }
    string_from_chars(&v)
}

/// The capo badge: "Capo n" when the tab names a capo other than "0".
pub open spec fn capo_text_spec(t: TabDataView) -> Option<Seq<char>> {
    match t.capo {
        Some(c) => if c != seq!['0'] {
            Some(seq!['C', 'a', 'p', 'o', ' '] + c)
        } else {
            None
        },
        None => None,
    }
}

pub fn capo_text(tab: &TabData) -> (r: Option<String>)
    ensures
        match r {
            Some(s) => capo_text_spec(tab@) == Some(s@),
            None => capo_text_spec(tab@) is None,
        },
{
    match &tab.capo {
        Some(c) => {
            let cs = chars_of(c.as_str());
            let zero: [char; 1] = ['0'];
            assert(zero@ =~= seq!['0']);
            if chars_eq(&cs, &zero) {
                None
            } else {
                let mut v: Vec<char> = Vec::new();
                v.push('C');
                v.push('a');
                v.push('p');
                v.push('o');
                v.push(' ');
                push_str(&mut v, c.as_str());
                assert(v@ =~= seq!['C', 'a', 'p', 'o', ' '] + c@);
                Some(string_from_chars(&v))
            }
        },
        None => None,
    }
}

// ---------------------------------------------------------------------------
// Chords of a tab
// ---------------------------------------------------------------------------

/// The names of all chords of the lines, line after line.
pub open spec fn chord_names(ls: Seq<LineView>) -> Seq<Seq<char>>
    decreases ls.len(),
{
    if ls.len() == 0 {
        Seq::empty()
    } else {
        chord_names(ls.drop_last()) + ls.last().chords.map_values(|c: ChordView| chord_display(c))
    }
}

/// Each name once, where it first appears.
pub open spec fn first_appearances(ns: Seq<Seq<char>>) -> Seq<Seq<char>>
    decreases ns.len(),
{
    if ns.len() == 0 {
        Seq::empty()
    } else {
        let r = first_appearances(ns.drop_last());
        if r.contains(ns.last()) {
            r
        } else {
            r.push(ns.last())
        }
    }
}

fn contains_name(v: &Vec<String>, name: &String) -> (r: bool)
    ensures
        r == v@.map_values(|s: String| s@).contains(name@),
{
    let ghost vs = v@.map_values(|s: String| s@);
    let n = chars_of(name.as_str());
    let mut i: usize = 0;
    while i < v.len()
        invariant
            vs == v@.map_values(|s: String| s@),
            n@ == name@,
            i <= v@.len(),
            forall|j: int| 0 <= j < i ==> vs[j] != name@,
        decreases v@.len() - i,
    {
        if chars_eq(&chars_of(v[i].as_str()), &n) {
            assert(vs[i as int] == name@);
            return true;
        }
        i = i + 1;
    }
    proof {
        if vs.contains(name@) {
            let j = choose|j: int| 0 <= j < vs.len() && vs[j] == name@;
            assert(vs[j] != name@);
        }
    }
    false
}

/// The chords of a tab for the diagram panel: each chord name once, in the order of
/// its first appearance.
pub fn extract_unique_chords(lines: &[ParsedLine]) -> (r: Vec<String>)
    ensures
        r@.map_values(|s: String| s@) == first_appearances(chord_names(line_views(lines@))),
{
    let ghost lv = line_views(lines@);
    let mut result: Vec<String> = Vec::new();
    let mut i: usize = 0;
    proof {
        assert(lv.take(0) =~= Seq::<LineView>::empty());
        assert(result@.map_values(|s: String| s@) =~= Seq::<Seq<char>>::empty());
    }
    while i < lines.len()
        invariant
            lv == line_views(lines@),
            i <= lines@.len(),
            result@.map_values(|s: String| s@) == first_appearances(chord_names(lv.take(i as int))),
        decreases lines@.len() - i,
    {
        let line = &lines[i];
        let ghost before = chord_names(lv.take(i as int));
        let ghost cs = line@.chords.map_values(|c: ChordView| chord_display(c));
        proof {
            let u = lv.take(i + 1);
            assert(u.drop_last() =~= lv.take(i as int));
            assert(u.last() == line@);
        }
        let mut k: usize = 0;
        proof {
            assert(before + cs.take(0) =~= before);
        }
        while k < line.chords.len()
            invariant
                k <= line.chords@.len(),
                cs == line@.chords.map_values(|c: ChordView| chord_display(c)),
                result@.map_values(|s: String| s@) == first_appearances(before + cs.take(k as int)),
            decreases line.chords@.len() - k,
        {
            let name = line.chords[k].display();
            proof {
                assert(cs[k as int] == name@);
                let w = before + cs.take(k + 1);
                assert(w.drop_last() =~= before + cs.take(k as int));
                assert(w.last() == name@);
            }
            if !contains_name(&result, &name) {
                proof {
                    assert(result@.push(name).map_values(|s: String| s@) =~= result@.map_values(
                        |s: String| s@,
                    ).push(name@));
                }
                result.push(name);
            }
            k = k + 1;
        }
        proof {
            assert(cs.take(line.chords@.len() as int) =~= cs);
            assert(line@.chords.len() == line.chords@.len());
        }
        i = i + 1;
    }
    assert(lv.take(lines@.len() as int) =~= lv);
    result
}

proof fn lemma_push_contains(s: Seq<Seq<char>>, x: Seq<char>, n: Seq<char>)
    ensures
        s.push(x).contains(n) <==> (s.contains(n) || n == x),
{
    if s.contains(n) {
        let j = choose|j: int| 0 <= j < s.len() && s[j] == n;
        assert(s.push(x)[j] == n);
    }
    if n == x {
        assert(s.push(x)[s.len() as int] == n);
    }
    if s.push(x).contains(n) {
        let j = choose|j: int| 0 <= j < s.push(x).len() && s.push(x)[j] == n;
        if j < s.len() {
            assert(s[j] == n);
        }
    }
}

/// The chord panel lists every chord of the tab exactly once.
pub proof fn law_unique_chords(ns: Seq<Seq<char>>)
    ensures
        first_appearances(ns).no_duplicates(),
        forall|n: Seq<char>| #[trigger] first_appearances(ns).contains(n) <==> ns.contains(n),
    decreases ns.len(),
{
    if ns.len() > 0 {
        let d = ns.drop_last();
        let x = ns.last();
        law_unique_chords(d);
        let r = first_appearances(d);
        assert(ns =~= d.push(x));
        assert forall|n: Seq<char>| #[trigger] first_appearances(ns).contains(n) <==> ns.contains(n) by {
            lemma_push_contains(d, x, n);
            lemma_push_contains(r, x, n);
        }
    }
}

// ---------------------------------------------------------------------------
// Printing
// ---------------------------------------------------------------------------

/// The lines' text joined with line breaks.
pub open spec fn print_text_spec(ls: Seq<LineView>) -> Seq<char>
    decreases ls.len(),
{
    if ls.len() == 0 {
        Seq::empty()
    } else if ls.len() == 1 {
        ls[0].content
    } else {
        print_text_spec(ls.drop_last()) + seq!['\n'] + ls.last().content
    }
}

/// The text that is printed: the shown lines, one per row.
pub fn print_text(lines: &[ParsedLine]) -> (r: String)
    ensures
        r@ == print_text_spec(line_views(lines@)),
{
    let ghost lv = line_views(lines@);
    let mut v: Vec<char> = Vec::new();
    let mut i: usize = 0;
    proof {
        assert(lv.take(0) =~= Seq::<LineView>::empty());
    }
    while i < lines.len()
        invariant
            lv == line_views(lines@),
            i <= lines@.len(),
            v@ == print_text_spec(lv.take(i as int)),
        decreases lines@.len() - i,
    {
        proof {
            let u = lv.take(i + 1);
            assert(u.drop_last() =~= lv.take(i as int));
            assert(u.last() == lines@[i as int]@);
            if i == 0 {
                assert(u[0] == lines@[0]@);
            }
        }
        if i > 0 {
            v.push('\n');
        }
        push_str(&mut v, lines[i].content.as_str());
        proof {
            if i == 0 {
                assert(v@ =~= print_text_spec(lv.take(1)));
            }
        }
        i = i + 1;
    }
    assert(lv.take(lines@.len() as int) =~= lv);
    string_from_chars(&v)
}

// ---------------------------------------------------------------------------
// Paging through search results
// ---------------------------------------------------------------------------

/// "n song(s) for "query"", with a trailing "…" while more pages may come.
pub open spec fn search_subtitle_spec(count: nat, query: Seq<char>, more: bool) -> Seq<char> {
    decimal(count) + seq![' ', 's', 'o', 'n', 'g'] + (if count == 1 {
        Seq::<char>::empty()
    } else {
        seq!['s']
    }) + seq![' ', 'f', 'o', 'r', ' ', '"'] + query + seq!['"'] + (if more {
        seq!['…']
    } else {
        Seq::<char>::empty()
    })
}

/// The window subtitle over the search results.
pub fn search_subtitle(count: usize, query: &str, more: bool) -> (r: String)
    ensures
        r@ == search_subtitle_spec(count as nat, query@, more),
{
    let mut v: Vec<char> = Vec::new();
    push_decimal(&mut v, count as u64);
    v.push(' ');
    v.push('s');
    v.push('o');
    v.push('n');
    v.push('g');
    if count != 1 {
        v.push('s');
    }
    v.push(' ');
    v.push('f');
    v.push('o');
    v.push('r');
    v.push(' ');
    v.push('"');
    push_str(&mut v, query);
    v.push('"');
    if more {
        v.push('…');
    }
    assert(v@ =~= search_subtitle_spec(count as nat, query@, more));
    string_from_chars(&v)
}

/// The subtitle after the first page of a search failed.
pub fn search_failed_subtitle(message: &str) -> (r: String)
    ensures
        r@ == "Search failed: "@ + message@,
{
    let mut v: Vec<char> = Vec::new();
    push_str(&mut v, "Search failed: ");
    push_str(&mut v, message);
    string_from_chars(&v)
}

/// The subtitle after a tab could not be fetched.
pub fn load_failed_subtitle(message: &str) -> (r: String)
    ensures
        r@ == "Failed to load: "@ + message@,
{
    let mut v: Vec<char> = Vec::new();
    push_str(&mut v, "Failed to load: ");
    push_str(&mut v, message);
    string_from_chars(&v)
}

/// Abstract state of the search results' paging.
pub struct SearchState {
    pub query: Seq<char>,
    /// The page to fetch next; 0 once a page came back empty.
    pub next_page: u32,
    pub fetching: bool,
    pub groups: Seq<GroupView>,
    pub result_count: usize,
    pub has_results: bool,
}

/// A new search: paging starts again at page 1 with no groups.
pub open spec fn begin_spec(s: SearchState, query: Seq<char>) -> SearchState {
    SearchState {
        query,
        next_page: 1,
        fetching: false,
        groups: Seq::empty(),
        has_results: false,
        ..s
    }
}

/// Asking for the next page: none while a page is on its way or after the last one;
/// otherwise the page to fetch, which is then on its way.
pub open spec fn start_fetch_spec(s: SearchState) -> (SearchState, Option<u32>) {
    if s.fetching || s.next_page == 0 {
        (s, None)
    } else {
        (SearchState { fetching: true, ..s }, Some(s.next_page))
    }
}

/// After the courtesy wait before page `page`: the fetch goes on only if no new search
/// has started meanwhile.
pub open spec fn delay_done_spec(s: SearchState, page: u32) -> (SearchState, bool) {
    if s.next_page != page {
        (SearchState { fetching: false, ..s }, false)
    } else {
        (s, true)
    }
}

/// What the window does after a page came back.
#[derive(Debug, Clone, Copy, PartialEq, Eq, Structural)]
pub enum PageOutcome {
    /// The page was empty: there are no more pages.
    Exhausted,
    /// The first page: the results are shown.
    First,
    /// A later page: the shown results are updated.
    More,
}

/// Page `page` came back with `results`: an empty page ends the paging; otherwise the
/// results are merged into the groups and the next page is the one after.
pub open spec fn page_loaded_spec(s: SearchState, page: u32, results: Seq<ResultView>) -> (
    SearchState,
    PageOutcome,
) {
    if results.len() == 0 {
        (SearchState { next_page: 0, fetching: false, ..s }, PageOutcome::Exhausted)
    } else {
        let g = merge_all(s.groups, results);
        (
            SearchState {
                groups: g,
                result_count: g.len() as usize,
                next_page: (page + 1) as u32,
                fetching: false,
                has_results: s.has_results || page == 1,
                ..s
            },
            if page == 1 {
                PageOutcome::First
            } else {
                PageOutcome::More
            },
        )
    }
}

/// Page `page` could not be fetched: paging may be tried again; a failed first page
/// leaves nothing to show.
pub open spec fn page_failed_spec(s: SearchState, page: u32) -> (SearchState, bool) {
    (SearchState { fetching: false, ..s }, page == 1)
}

/// The paging of search results (`perform_search`, `load_next_search_page`,
/// `try_load_more_if_needed`, `go_back_to_results`): which page to fetch, when, and what
/// the results are so far.
pub struct SearchPager {
    query: String,
    next_page: u32,
    fetching: bool,
    groups: Vec<SongGroup>,
    result_count: usize,
    has_results: bool,
}

impl View for SearchPager {
    type V = SearchState;

    closed spec fn view(&self) -> SearchState {
        SearchState {
            query: self.query@,
            next_page: self.next_page,
            fetching: self.fetching,
            groups: group_views(self.groups@),
            result_count: self.result_count,
            has_results: self.has_results,
        }
    }
}

impl SearchPager {
    /// The groups shown are always well formed.
    #[verifier::type_invariant]
    spec fn groups_ok(self) -> bool {
        groups_wf(group_views(self.groups@))
    }

    /// No search yet.
    pub fn new() -> (p: SearchPager)
        ensures
            p@.query.len() == 0,
            p@.next_page == 0,
            !p@.fetching,
            p@.groups.len() == 0,
            p@.result_count == 0,
            !p@.has_results,
    {
        let p = SearchPager {
            query: String::new(),
            next_page: 0,
            fetching: false,
            groups: Vec::new(),
            result_count: 0,
            has_results: false,
        };
        assert(group_views(p.groups@) =~= Seq::<GroupView>::empty());
        p
    }

    /// Starts a new search for `query`.
    pub fn begin(&mut self, query: &str)
        ensures
            final(self)@ == begin_spec(old(self)@, query@),
    {
        proof {
            use_type_invariant(&*self);
        }
        self.groups = Vec::new();
        self.query = query.to_owned();
        self.next_page = 1;
        self.fetching = false;
        self.has_results = false;
        assert(group_views(self.groups@) =~= Seq::<GroupView>::empty());
    }

    /// The page to fetch now, if any.
    pub fn start_fetch(&mut self) -> (page: Option<u32>)
        ensures
            (final(self)@, page) == start_fetch_spec(old(self)@),
    {
        proof {
            use_type_invariant(&*self);
        }
        if self.fetching || self.next_page == 0 {
            None
        } else {
            self.fetching = true;
            Some(self.next_page)
        }
    }

    /// Whether to go on fetching `page` after the courtesy wait.
    pub fn delay_done(&mut self, page: u32) -> (go_on: bool)
        ensures
            (final(self)@, go_on) == delay_done_spec(old(self)@, page),
    {
        proof {
            use_type_invariant(&*self);
        }
        if self.next_page != page {
            self.fetching = false;
            false
        } else {
            true
        }
    }

    /// Takes in page `page` of results.
    pub fn page_loaded(&mut self, page: u32, results: Vec<SearchResult>) -> (outcome: PageOutcome)
        requires
            results@.len() > 0 ==> page < u32::MAX,
        ensures
            (final(self)@, outcome) == page_loaded_spec(old(self)@, page, result_views(results@)),
    {
        proof {
            use_type_invariant(&*self);
        }
        if results.len() == 0 {
            self.next_page = 0;
            self.fetching = false;
            return PageOutcome::Exhausted;
        }
        let ghost rs = result_views(results@);
        proof {
            law_merge_keeps_groups_well_formed(group_views(self.groups@), rs);
        }
        let mut groups = Vec::new();
        std::mem::swap(&mut groups, &mut self.groups);
        SongGroup::merge(&mut groups, results);
        self.groups = groups;
        self.result_count = self.groups.len();
        self.next_page = page + 1;
        self.fetching = false;
        if page == 1 {
            self.has_results = true;
            PageOutcome::First
        } else {
            PageOutcome::More
        }
    }

    /// Notes that page `page` failed; says whether the window is left with nothing to show.
    pub fn page_failed(&mut self, page: u32) -> (nothing_shown: bool)
        ensures
            (final(self)@, nothing_shown) == page_failed_spec(old(self)@, page),
    {
        proof {
            use_type_invariant(&*self);
        }
        self.fetching = false;
        page == 1
    }

    /// More pages may come and none is on its way (the list can ask for another page
    /// when it does not fill the window).
    pub fn wants_more(&self) -> (r: bool)
        ensures
            r == (self@.next_page > 0 && !self@.fetching),
    {
        self.next_page > 0 && !self.fetching
    }

    /// Leaves the search results for a saved tab: Back no longer leads to them.
    pub fn leave_results(&mut self)
        ensures
            final(self)@ == (SearchState { has_results: false, ..old(self)@ }),
    {
        proof {
            use_type_invariant(&*self);
        }
        self.has_results = false;
    }

    /// The subtitle on going back to the results, if there are results to go back to.
    pub fn back_subtitle(&self) -> (r: Option<String>)
        ensures
            match r {
                Some(t) => self@.has_results && t@ == search_subtitle_spec(
                    self@.result_count as nat,
                    self@.query,
                    false,
                ),
                None => !self@.has_results,
            },
    {
        if !self.has_results {
            None
        } else {
            Some(search_subtitle(self.result_count, self.query.as_str(), false))
        }
    }

    pub fn groups(&self) -> (r: &Vec<SongGroup>)
        ensures
            group_views(r@) == self@.groups,
            groups_wf(self@.groups),
    {
        proof {
            use_type_invariant(self);
        }
        &self.groups
    }

    pub fn query(&self) -> (r: &str)
        ensures
            r@ == self@.query,
    {
        self.query.as_str()
    }

    pub fn result_count(&self) -> (n: usize)
        ensures
            n == self@.result_count,
    {
        self.result_count
    }

    pub fn has_results(&self) -> (b: bool)
        ensures
            b == self@.has_results,
    {
        self.has_results
    }
}

/// Only one page is on its way at a time: right after a page is asked for, asking
/// again gives nothing.
pub proof fn law_one_page_at_a_time(s: SearchState)
    ensures
        start_fetch_spec(s).1 is Some ==> start_fetch_spec(start_fetch_spec(s).0).1 is None,
{
}

/// Pages come in order: after page `p` brought results, the next page asked for is
/// `p + 1`; after an empty page, no page is asked for until a new search begins, which
/// asks for page 1.
pub proof fn law_pages_in_order(s: SearchState, p: u32, results: Seq<ResultView>, query: Seq<char>)
    requires
        p < u32::MAX,
    ensures
        results.len() > 0 ==> start_fetch_spec(page_loaded_spec(s, p, results).0).1 == Some(
            (p + 1) as u32,
        ),
        results.len() == 0 ==> start_fetch_spec(page_loaded_spec(s, p, results).0).1 is None,
        start_fetch_spec(begin_spec(s, query)).1 == Some(1u32),
{
}

/// Merging pages keeps the shown groups well formed (see the law on merging).
pub proof fn law_paging_keeps_groups_well_formed(s: SearchState, p: u32, results: Seq<ResultView>)
    requires
        groups_wf(s.groups),
    ensures
        groups_wf(page_loaded_spec(s, p, results).0.groups),
{
    law_merge_keeps_groups_well_formed(s.groups, results);
}

} // verus!
