use vstd::prelude::*;

use crate::text::{
    all_ascii, ascii_lower, chars_eq, chars_of, lowercase, push_all, string_from_chars, to_lowercase,
};

verus! {

// ---------------------------------------------------------------------------
// Tab types
// ---------------------------------------------------------------------------

/// The type of tab content.
#[derive(Debug, Clone, PartialEq, Eq)]
pub enum TabType {
    Chords,
    Tabs,
    Bass,
    Ukulele,
    Power,
    Drums,
    Other(String),
}

/// Abstract value of a `TabType`.
pub enum TabTypeView {
    Chords,
    Tabs,
    Bass,
    Ukulele,
    Power,
    Drums,
    Other(Seq<char>),
}

impl View for TabType {
    type V = TabTypeView;

    open spec fn view(&self) -> TabTypeView {
        match self {
            TabType::Chords => TabTypeView::Chords,
            TabType::Tabs => TabTypeView::Tabs,
            TabType::Bass => TabTypeView::Bass,
            TabType::Ukulele => TabTypeView::Ukulele,
            TabType::Power => TabTypeView::Power,
            TabType::Drums => TabTypeView::Drums,
            TabType::Other(s) => TabTypeView::Other(s@),
        }
    }
}

pub open spec fn chords_word() -> Seq<char> {
    seq!['c', 'h', 'o', 'r', 'd', 's']
}

pub open spec fn tabs_word() -> Seq<char> {
    seq!['t', 'a', 'b', 's']
}

pub open spec fn bass_tabs_word() -> Seq<char> {
    seq!['b', 'a', 's', 's', ' ', 't', 'a', 'b', 's']
}

pub open spec fn ukulele_chords_word() -> Seq<char> {
    seq!['u', 'k', 'u', 'l', 'e', 'l', 'e', ' ', 'c', 'h', 'o', 'r', 'd', 's']
}

pub open spec fn power_word() -> Seq<char> {
    seq!['p', 'o', 'w', 'e', 'r']
}

pub open spec fn drum_tabs_word() -> Seq<char> {
    seq!['d', 'r', 'u', 'm', ' ', 't', 'a', 'b', 's']
}

/// The tab type named by a label whose lower-case form is `l`; anything else is kept
/// verbatim (`s`) as `Other`.
pub open spec fn tab_type_of_lower(l: Seq<char>, s: Seq<char>) -> TabTypeView {
    if l == chords_word() {
        TabTypeView::Chords
    } else if l == tabs_word() {
        TabTypeView::Tabs
    } else if l == bass_tabs_word() {
        TabTypeView::Bass
    } else if l == ukulele_chords_word() {
        TabTypeView::Ukulele
    } else if l == power_word() {
        TabTypeView::Power
    } else if l == drum_tabs_word() {
        TabTypeView::Drums
    } else {
        TabTypeView::Other(s)
    }
}

/// The tab type a label names: recognised case-insensitively (by its lower-case
/// form, which for ASCII text is `ascii_lower`), anything else kept verbatim as
/// `Other`.
pub open spec fn tab_type_of(s: Seq<char>) -> TabTypeView {
    if all_ascii(s) {
        tab_type_of_lower(ascii_lower(s), s)
    } else {
        tab_type_of_lower(lowercase(s), s)
    }
}

/// The label shown for a tab type.
pub open spec fn tab_type_name(t: TabTypeView) -> Seq<char> {
    match t {
        TabTypeView::Chords => seq!['C', 'h', 'o', 'r', 'd', 's'],
        TabTypeView::Tabs => seq!['T', 'a', 'b', 's'],
        TabTypeView::Bass => seq!['B', 'a', 's', 's'],
        TabTypeView::Ukulele => seq!['U', 'k', 'u', 'l', 'e', 'l', 'e'],
        TabTypeView::Power => seq!['P', 'o', 'w', 'e', 'r'],
        TabTypeView::Drums => seq!['D', 'r', 'u', 'm', 's'],
        TabTypeView::Other(s) => s,
    }
}

impl TabType {
    pub fn from_str(s: &str) -> (r: TabType)
        ensures
            r@ == tab_type_of(s@),
    {
        let lower = to_lowercase(s);
        let l = chars_of(lower.as_str());
        if chars_eq(&l, &['c', 'h', 'o', 'r', 'd', 's']) {
            TabType::Chords
        } else if chars_eq(&l, &['t', 'a', 'b', 's']) {
            TabType::Tabs
        } else if chars_eq(&l, &['b', 'a', 's', 's', ' ', 't', 'a', 'b', 's']) {
            TabType::Bass
        } else if chars_eq(
            &l,
            &['u', 'k', 'u', 'l', 'e', 'l', 'e', ' ', 'c', 'h', 'o', 'r', 'd', 's'],
        ) {
            TabType::Ukulele
        } else if chars_eq(&l, &['p', 'o', 'w', 'e', 'r']) {
            TabType::Power
        } else if chars_eq(&l, &['d', 'r', 'u', 'm', ' ', 't', 'a', 'b', 's']) {
            TabType::Drums
        } else {
            TabType::Other(s.to_owned())
        }
    }

    pub fn display_name(&self) -> (r: &str)
        ensures
            r@ == tab_type_name(self@),
    {
        match self {
            TabType::Chords => {
                proof {
                    reveal_strlit("Chords");
                }
                "Chords"
            },
            TabType::Tabs => {
                proof {
                    reveal_strlit("Tabs");
                }
                "Tabs"
            },
            TabType::Bass => {
                proof {
                    reveal_strlit("Bass");
                }
                "Bass"
            },
            TabType::Ukulele => {
                proof {
                    reveal_strlit("Ukulele");
                }
                "Ukulele"
            },
            TabType::Power => {
                proof {
                    reveal_strlit("Power");
                }
                "Power"
            },
            TabType::Drums => {
                proof {
                    reveal_strlit("Drums");
                }
                "Drums"
            },
            TabType::Other(s) => s.as_str(),
        }
    }
}

/// What reading back the label of `t` gives: "Bass", "Ukulele" and "Drums" are not
/// labels that are recognised (those are "Bass Tabs", "Ukulele Chords" and "Drum
/// Tabs"), so they come back as `Other`; every other type comes back as itself.
pub open spec fn label_read_back(t: TabTypeView) -> TabTypeView {
    match t {
        TabTypeView::Bass => TabTypeView::Other(seq!['B', 'a', 's', 's']),
        TabTypeView::Ukulele => TabTypeView::Other(seq!['U', 'k', 'u', 'l', 'e', 'l', 'e']),
        TabTypeView::Drums => TabTypeView::Other(seq!['D', 'r', 'u', 'm', 's']),
        _ => t,
    }
}

/// Reading back the label shown for a tab type (`from_str` of `display_name`): the
/// six named types are read back as `label_read_back` says; an `Other` label comes
/// back as itself unless it names one of the recognised types.
pub proof fn law_tab_type_label_read_back(t: TabTypeView)
    ensures
        !(t is Other) ==> tab_type_of(tab_type_name(t)) == label_read_back(t),
        t matches TabTypeView::Other(s) && tab_type_of(s) is Other ==> tab_type_of(
            tab_type_name(t),
        ) == t,
{
    let n = tab_type_name(t);
    if !(t is Other) {
        let l = ascii_lower(n);
        assert(all_ascii(n));
        match t {
            TabTypeView::Chords => assert(l =~= chords_word()),
            TabTypeView::Tabs => assert(l =~= tabs_word()),
            TabTypeView::Power => assert(l =~= power_word()),
            TabTypeView::Bass => {
                assert(l =~= seq!['b', 'a', 's', 's']);
                assert(l.len() != bass_tabs_word().len());
            },
            TabTypeView::Ukulele => {
                assert(l =~= seq!['u', 'k', 'u', 'l', 'e', 'l', 'e']);
                assert(l.len() != ukulele_chords_word().len());
            },
            TabTypeView::Drums => {
                assert(l =~= seq!['d', 'r', 'u', 'm', 's']);
                assert(l.len() != drum_tabs_word().len());
                assert(l[0] != power_word()[0]);
            },
            _ => {},
        }
    }
}

// ---------------------------------------------------------------------------
// Parsed lines
// ---------------------------------------------------------------------------

/// A parsed chord with its position (a byte offset) in a line.
#[derive(Debug, Clone)]
pub struct ChordPosition {
    pub column: usize,
    pub root: String,
    pub quality: String,
    pub bass: Option<String>,
}

/// Abstract value of a `ChordPosition`.
pub struct ChordView {
    pub column: int,
    pub root: Seq<char>,
    pub quality: Seq<char>,
    pub bass: Option<Seq<char>>,
}

impl View for ChordPosition {
    type V = ChordView;

    open spec fn view(&self) -> ChordView {
        ChordView {
            column: self.column as int,
            root: self.root@,
            quality: self.quality@,
            bass: match self.bass {
                Some(b) => Some(b@),
                None => None,
            },
        }
    }
}

/// Full name of a chord: root, quality, then `/` and the bass note if there is one.
pub open spec fn chord_display(c: ChordView) -> Seq<char> {
    match c.bass {
        Some(b) => c.root + c.quality + seq!['/'] + b,
        None => c.root + c.quality,
    }
}

impl ChordPosition {
    /// Full display name of the chord, e.g. "Am7/G".
    pub fn display(&self) -> (r: String)
        ensures
            r@ == chord_display(self@),
    {
        let v = self.display_chars();
        string_from_chars(&v)
    }

    /// The display name as characters.
    pub fn display_chars(&self) -> (r: Vec<char>)
        ensures
            r@ == chord_display(self@),
    {
        let mut v = chars_of(self.root.as_str());
        let q = chars_of(self.quality.as_str());
        push_all(&mut v, &q);
        match &self.bass {
            Some(b) => {
                v.push('/');
                let bc = chars_of(b.as_str());
                push_all(&mut v, &bc);
            },
            None => {},
        }
        v
    }
}

/// The kind of a parsed line.
#[derive(Debug, Clone, Copy, PartialEq, Eq, Structural)]
pub enum LineKind {
    ChordLine,
    LyricLine,
    SectionHeader,
    Empty,
}

/// A single parsed line from tab content.
#[derive(Debug, Clone)]
pub struct ParsedLine {
    pub kind: LineKind,
    pub content: String,
    pub chords: Vec<ChordPosition>,
}

/// Abstract value of a `ParsedLine`.
pub struct LineView {
    pub kind: LineKind,
    pub content: Seq<char>,
    pub chords: Seq<ChordView>,
}

pub open spec fn chord_views(cs: Seq<ChordPosition>) -> Seq<ChordView> {
    cs.map_values(|c: ChordPosition| c@)
}

impl View for ParsedLine {
    type V = LineView;

    open spec fn view(&self) -> LineView {
        LineView { kind: self.kind, content: self.content@, chords: chord_views(self.chords@) }
    }
}

/// Abstract values of a sequence of lines.
pub open spec fn line_views(ls: Seq<ParsedLine>) -> Seq<LineView> {
    ls.map_values(|l: ParsedLine| l@)
}


// ---------------------------------------------------------------------------
// Search results and tab data
// ---------------------------------------------------------------------------

/// Tuning information.
#[derive(Debug, Clone)]
pub struct TuningInfo {
    pub value: String,
    pub name: String,
}

/// Chord fingering data for a single chord variant.
#[derive(Debug, Clone)]
pub struct ChordFingering {
    pub frets: Vec<i32>,
    pub fingers: Vec<i32>,
}

/// A single search result from Ultimate Guitar. The rating is kept in tenths
/// (the site's rating rounded to one decimal place, times ten).
#[derive(Debug, Clone)]
pub struct SearchResult {
    pub artist_name: String,
    pub song_name: String,
    pub tab_url: String,
    pub tab_type: TabType,
    pub version: u32,
    pub rating_tenths: i64,
    pub votes: u32,
}

/// Abstract value of a `SearchResult`.
pub struct ResultView {
    pub artist_name: Seq<char>,
    pub song_name: Seq<char>,
    pub tab_url: Seq<char>,
    pub tab_type: TabTypeView,
    pub version: u32,
    pub rating_tenths: i64,
    pub votes: u32,
}

impl View for SearchResult {
    type V = ResultView;

    open spec fn view(&self) -> ResultView {
        ResultView {
            artist_name: self.artist_name@,
            song_name: self.song_name@,
            tab_url: self.tab_url@,
            tab_type: self.tab_type@,
            version: self.version,
            rating_tenths: self.rating_tenths,
            votes: self.votes,
        }
    }
}

pub open spec fn result_views(rs: Seq<SearchResult>) -> Seq<ResultView> {
    rs.map_values(|r: SearchResult| r@)
}

/// Complete data for a single tab/chord page.
#[derive(Debug, Clone)]
pub struct TabData {
    pub raw_content: String,
    pub artist_name: String,
    pub song_name: String,
    pub version: u32,
    pub tab_type: TabType,
    pub rating_tenths: i64,
    pub difficulty: String,
    pub capo: Option<String>,
    pub tuning: Option<TuningInfo>,
    pub tab_url: String,
    pub alternatives: Vec<SearchResult>,
    pub applicature: Option<Vec<(String, Vec<ChordFingering>)>>,
}

/// Search response with pagination.
#[derive(Debug, Clone)]
pub struct SearchResponse {
    pub results: Vec<SearchResult>,
    pub total_pages: u32,
    pub current_page: u32,
}

/// Summary info for a saved tab (sidebar display).
#[derive(Debug, Clone)]
pub struct SavedTabSummary {
    pub tab_url: String,
    pub artist_name: String,
    pub song_name: String,
    pub tab_type: TabType,
    pub rating_tenths: i64,
    pub saved_at: i64,
}

/// Abstract value of a `SavedTabSummary`.
pub struct SummaryView {
    pub tab_url: Seq<char>,
    pub artist_name: Seq<char>,
    pub song_name: Seq<char>,
    pub tab_type: TabTypeView,
    pub rating_tenths: i64,
    pub saved_at: i64,
}

impl View for SavedTabSummary {
    type V = SummaryView;

    open spec fn view(&self) -> SummaryView {
        SummaryView {
            tab_url: self.tab_url@,
            artist_name: self.artist_name@,
            song_name: self.song_name@,
            tab_type: self.tab_type@,
            rating_tenths: self.rating_tenths,
            saved_at: self.saved_at,
        }
    }
}

pub open spec fn summary_views(ts: Seq<SavedTabSummary>) -> Seq<SummaryView> {
    ts.map_values(|t: SavedTabSummary| t@)
}

pub fn copy_tab_type(t: &TabType) -> (r: TabType)
    ensures
        r@ == t@,
{
    match t {
        TabType::Chords => TabType::Chords,
        TabType::Tabs => TabType::Tabs,
        TabType::Bass => TabType::Bass,
        TabType::Ukulele => TabType::Ukulele,
        TabType::Power => TabType::Power,
        TabType::Drums => TabType::Drums,
        TabType::Other(s) => TabType::Other(s.clone()),
    }
}

pub fn copy_result(r: &SearchResult) -> (c: SearchResult)
    ensures
        c@ == r@,
{
    SearchResult {
        artist_name: r.artist_name.clone(),
        song_name: r.song_name.clone(),
        tab_url: r.tab_url.clone(),
        tab_type: copy_tab_type(&r.tab_type),
        version: r.version,
        rating_tenths: r.rating_tenths,
        votes: r.votes,
    }
}

pub fn copy_summary(t: &SavedTabSummary) -> (c: SavedTabSummary)
    ensures
        c@ == t@,
{
    SavedTabSummary {
        tab_url: t.tab_url.clone(),
        artist_name: t.artist_name.clone(),
        song_name: t.song_name.clone(),
        tab_type: copy_tab_type(&t.tab_type),
        rating_tenths: t.rating_tenths,
        saved_at: t.saved_at,
    }
}

// ---------------------------------------------------------------------------
// Song groups
// ---------------------------------------------------------------------------

/// A group of search results for the same song, with multiple versions/types.
#[derive(Debug, Clone)]
pub struct SongGroup {
    pub artist_name: String,
    pub song_name: String,
    /// All versions, sorted best-rated first.
    pub versions: Vec<SearchResult>,
}

/// Abstract value of a `SongGroup`.
pub struct GroupView {
    pub artist_name: Seq<char>,
    pub song_name: Seq<char>,
    pub versions: Seq<ResultView>,
}

impl View for SongGroup {
    type V = GroupView;

    open spec fn view(&self) -> GroupView {
        GroupView {
            artist_name: self.artist_name@,
            song_name: self.song_name@,
            versions: result_views(self.versions@),
        }
    }
}

pub open spec fn group_views(gs: Seq<SongGroup>) -> Seq<GroupView> {
    gs.map_values(|g: SongGroup| g@)
}

/// Number of leading entries of `vs` rated at least `rating`.
pub open spec fn rated_at_least(vs: Seq<ResultView>, rating: i64) -> nat
    decreases vs.len(),
{
    if vs.len() > 0 && vs[0].rating_tenths >= rating {
        1 + rated_at_least(vs.drop_first(), rating)
    } else {
        0
    }
}

/// `r` put into the best-first list `vs` after every entry rated at least as well.
pub open spec fn insert_by_rating(vs: Seq<ResultView>, r: ResultView) -> Seq<ResultView> {
    let p = rated_at_least(vs, r.rating_tenths) as int;
    vs.take(p).push(r) + vs.skip(p)
}

/// `vs` ordered best-rated first, equally rated entries keeping their order (a stable
/// sort by descending rating).
pub open spec fn sort_by_rating(vs: Seq<ResultView>) -> Seq<ResultView>
    decreases vs.len(),
{
    if vs.len() == 0 {
        vs
    } else {
        insert_by_rating(sort_by_rating(vs.drop_last()), vs.last())
    }
}

/// Index of the first group for the given artist and song.
pub open spec fn find_group(gs: Seq<GroupView>, artist: Seq<char>, song: Seq<char>, i: int) -> Option<int>
    decreases gs.len() - i,
{
    if i < 0 || i >= gs.len() {
        None
    } else if gs[i].artist_name == artist && gs[i].song_name == song {
        Some(i)
    } else {
        find_group(gs, artist, song, i + 1)
    }
}

/// Some version in `vs` has the URL `url`.
pub open spec fn has_url(vs: Seq<ResultView>, url: Seq<char>) -> bool {
    exists|j: int| 0 <= j < vs.len() && (#[trigger] vs[j]).tab_url == url
}

/// One result merged in: a new version of a known song (unless that URL is already
/// there), or a new group.
pub open spec fn merge_one(gs: Seq<GroupView>, r: ResultView) -> Seq<GroupView> {
    match find_group(gs, r.artist_name, r.song_name, 0) {
        Some(i) => if has_url(gs[i].versions, r.tab_url) {
            gs
        } else {
            gs.update(
                i,
                GroupView {
                    artist_name: gs[i].artist_name,
                    song_name: gs[i].song_name,
                    versions: sort_by_rating(gs[i].versions.push(r)),
                },
            )
        },
        None => gs.push(
            GroupView { artist_name: r.artist_name, song_name: r.song_name, versions: seq![r] },
        ),
    }
}

/// The results merged in one after the other.
pub open spec fn merge_all(gs: Seq<GroupView>, rs: Seq<ResultView>) -> Seq<GroupView>
    decreases rs.len(),
{
    if rs.len() == 0 {
        gs
    } else {
        merge_one(merge_all(gs, rs.drop_last()), rs.last())
    }
}

/// Position at which `r` goes into the best-first list `vs`.
fn rating_position(vs: &Vec<SearchResult>, rating: i64) -> (p: usize)
    ensures
        p == rated_at_least(result_views(vs@), rating),
{
    let mut p: usize = 0;
    assert(result_views(vs@).skip(0) =~= result_views(vs@));
    while p < vs.len() && vs[p].rating_tenths >= rating
        invariant
            p <= vs@.len(),
            rated_at_least(result_views(vs@), rating) == p + rated_at_least(
                result_views(vs@).skip(p as int),
                rating,
            ),
        decreases vs@.len() - p,
    {
        proof {
            let rest = result_views(vs@).skip(p as int);
            assert(rest.drop_first() =~= result_views(vs@).skip(p + 1));
        }
        p = p + 1;
    }
    proof {
        let rest = result_views(vs@).skip(p as int);
        if p < vs@.len() {
            assert(rest[0] == vs@[p as int]@);
        }
    }
    p
}

/// A stable sort of `vs` by descending rating.
fn sorted_by_rating(vs: &Vec<SearchResult>) -> (r: Vec<SearchResult>)
    ensures
        result_views(r@) == sort_by_rating(result_views(vs@)),
{
    let mut r: Vec<SearchResult> = Vec::new();
    let mut i: usize = 0;
    proof {
        assert(result_views(vs@).take(0) =~= Seq::<ResultView>::empty());
        assert(result_views(r@) =~= Seq::<ResultView>::empty());
    }
    while i < vs.len()
        invariant
            i <= vs@.len(),
            result_views(r@) == sort_by_rating(result_views(vs@).take(i as int)),
        decreases vs@.len() - i,
    {
        let x = copy_result(&vs[i]);
        let p = rating_position(&r, x.rating_tenths);
        proof {
            lemma_rated_at_least_bound(result_views(r@), x.rating_tenths);
        }
        let ghost before = result_views(r@);
        let mut next: Vec<SearchResult> = Vec::new();
        let mut j: usize = 0;
        while j < r.len()
            invariant
                j <= r@.len(),
                p <= r@.len(),
                result_views(next@) == (if j <= p {
                    result_views(r@).take(j as int)
                } else {
                    result_views(r@).take(p as int).push(x@) + result_views(r@).subrange(p as int, j as int)
                }),
            decreases r@.len() - j,
        {
            if j == p {
                let y = copy_result(&x);
                proof {
                    assert(result_views(next@.push(y)) =~= result_views(next@).push(y@));
                }
                next.push(y);
            }
            let z = copy_result(&r[j]);
            proof {
                assert(result_views(next@.push(z)) =~= result_views(next@).push(z@));
                assert(result_views(r@).take(j + 1) =~= result_views(r@).take(j as int).push(r@[j as int]@));
                if j >= p {
                    assert(result_views(r@).take(p as int).push(x@) + result_views(r@).subrange(p as int, j + 1)
                        =~= (result_views(r@).take(p as int).push(x@) + result_views(r@).subrange(p as int, j as int)).push(r@[j as int]@));
                }
                if j == p {
                    assert(result_views(r@).subrange(p as int, j as int) =~= Seq::<ResultView>::empty());
                    assert(result_views(r@).take(j as int).push(x@) + Seq::<ResultView>::empty() =~= result_views(r@).take(j as int).push(x@));
                }
            }
            next.push(z);
            j = j + 1;
        }
        if p == r.len() {
            let y = copy_result(&x);
            proof {
                assert(result_views(next@.push(y)) =~= result_views(next@).push(y@));
            }
            next.push(y);
        }
        proof {
            let vs_i = result_views(vs@).take(i + 1);
            assert(vs_i.drop_last() =~= result_views(vs@).take(i as int));
            assert(vs_i.last() == x@);
            if p == r@.len() {
                assert(before.skip(p as int) =~= Seq::<ResultView>::empty());
                assert(before.take(p as int) =~= before);
                assert(result_views(next@) =~= before.take(p as int).push(x@) + before.skip(p as int));
            } else {
                assert(before.subrange(p as int, r@.len() as int) =~= before.skip(p as int));
            }
        }
        r = next;
        i = i + 1;
    }
    assert(result_views(vs@).take(vs@.len() as int) =~= result_views(vs@));
    r
}

impl SongGroup {
    /// The best version to show as the primary (first after sorting).
    pub fn best(&self) -> (r: &SearchResult)
        requires
            self.versions@.len() > 0,
        ensures
            r@ == self@.versions[0],
    {
        &self.versions[0]
    }

    /// Index of the group for this artist and song.
    fn find(groups: &Vec<SongGroup>, artist: &String, song: &String) -> (r: Option<usize>)
        ensures
            match r {
                Some(i) => find_group(group_views(groups@), artist@, song@, 0) == Some(i as int),
                None => find_group(group_views(groups@), artist@, song@, 0) is None,
            },
    {
        let mut i: usize = 0;
        while i < groups.len()
            invariant
                i <= groups@.len(),
                find_group(group_views(groups@), artist@, song@, 0) == find_group(
                    group_views(groups@),
                    artist@,
                    song@,
                    i as int,
                ),
            decreases groups@.len() - i,
        {
            if groups[i].artist_name == *artist && groups[i].song_name == *song {
                return Some(i);
            }
            i = i + 1;
        }
        None
    }

    /// Whether some version has this URL.
    fn has_version_url(versions: &Vec<SearchResult>, url: &String) -> (r: bool)
        ensures
            r == has_url(result_views(versions@), url@),
    {
        let mut j: usize = 0;
        while j < versions.len()
            invariant
                j <= versions@.len(),
                forall|k: int| 0 <= k < j ==> versions@[k].tab_url@ != url@,
            decreases versions@.len() - j,
        {
            if versions[j].tab_url == *url {
                assert(result_views(versions@)[j as int].tab_url == url@);
                return true;
            }
            j = j + 1;
        }
        proof {
            assert forall|k: int| 0 <= k < versions@.len() implies (#[trigger] result_views(
                versions@,
            )[k]).tab_url != url@ by {
                assert(result_views(versions@)[k] == versions@[k]@);
            }
        }
        false
    }

    /// Merge one result into the groups.
    fn merge_result(groups: &mut Vec<SongGroup>, result: &SearchResult)
        ensures
            group_views(final(groups)@) == merge_one(group_views(old(groups)@), result@),
    {
        proof {
            lemma_find_group_in_range(group_views(groups@), result@.artist_name, result@.song_name, 0);
        }
        match Self::find(groups, &result.artist_name, &result.song_name) {
            Some(i) => {
                if !Self::has_version_url(&groups[i].versions, &result.tab_url) {
                    let mut vs: Vec<SearchResult> = Vec::new();
                    let mut j: usize = 0;
                    while j < groups[i].versions.len()
                        invariant
                            i < groups@.len(),
                            j <= groups@[i as int].versions@.len(),
                            result_views(vs@) == result_views(groups@[i as int].versions@).take(j as int),
                        decreases groups@[i as int].versions@.len() - j,
                    {
                        let c = copy_result(&groups[i].versions[j]);
                        proof {
                            assert(result_views(vs@.push(c)) =~= result_views(vs@).push(c@));
                            assert(result_views(groups@[i as int].versions@).take(j + 1) =~= result_views(
                                groups@[i as int].versions@,
                            ).take(j as int).push(groups@[i as int].versions@[j as int]@));
                        }
                        vs.push(c);
                        j = j + 1;
                    }
                    let c = copy_result(result);
                    proof {
                        assert(result_views(groups@[i as int].versions@).take(j as int) =~= result_views(
                            groups@[i as int].versions@,
                        ));
                        assert(result_views(vs@.push(c)) =~= result_views(vs@).push(c@));
                    }
                    vs.push(c);
                    let sorted = sorted_by_rating(&vs);
                    let g = SongGroup {
                        artist_name: groups[i].artist_name.clone(),
                        song_name: groups[i].song_name.clone(),
                        versions: sorted,
                    };
                    let ghost gv = g@;
                    groups.set(i, g);
                    proof {
                        assert(group_views(groups@) =~= group_views(old(groups)@).update(i as int, gv));
                    }
                }
            },
            None => {
                let c = copy_result(result);
                let mut vs: Vec<SearchResult> = Vec::new();
                vs.push(c);
                let g = SongGroup {
                    artist_name: result.artist_name.clone(),
                    song_name: result.song_name.clone(),
                    versions: vs,
                };
                proof {
                    assert(result_views(g.versions@) =~= seq![result@]);
                }
                let ghost gv = g@;
                groups.push(g);
                proof {
                    assert(group_views(groups@) =~= group_views(old(groups)@).push(gv));
                }
            },
        }
    }

    /// Merge new results into an existing list of groups.
    pub fn merge(groups: &mut Vec<SongGroup>, new_results: Vec<SearchResult>)
        ensures
            group_views(final(groups)@) == merge_all(group_views(old(groups)@), result_views(
                new_results@,
            )),
    {
        let mut i: usize = 0;
        proof {
            assert(result_views(new_results@).take(0) =~= Seq::<ResultView>::empty());
        }
        while i < new_results.len()
            invariant
                i <= new_results@.len(),
                group_views(groups@) == merge_all(
                    group_views(old(groups)@),
                    result_views(new_results@).take(i as int),
                ),
            decreases new_results@.len() - i,
        {
            Self::merge_result(groups, &new_results[i]);
            proof {
                let t = result_views(new_results@).take(i + 1);
                assert(t.drop_last() =~= result_views(new_results@).take(i as int));
                assert(t.last() == new_results@[i as int]@);
            }
            i = i + 1;
        }
        assert(result_views(new_results@).take(new_results@.len() as int) =~= result_views(
            new_results@,
        ));
    }
}

proof fn lemma_rated_at_least_bound(vs: Seq<ResultView>, rating: i64)
    ensures
        rated_at_least(vs, rating) <= vs.len(),
    decreases vs.len(),
{
    if vs.len() > 0 && vs[0].rating_tenths >= rating {
        lemma_rated_at_least_bound(vs.drop_first(), rating);
    }
}

proof fn lemma_find_group_in_range(gs: Seq<GroupView>, a: Seq<char>, s: Seq<char>, i: int)
    ensures
        find_group(gs, a, s, i) matches Some(j) ==> 0 <= j < gs.len() && gs[j].artist_name == a
            && gs[j].song_name == s,
    decreases gs.len() - i,
{
    if 0 <= i < gs.len() && !(gs[i].artist_name == a && gs[i].song_name == s) {
        lemma_find_group_in_range(gs, a, s, i + 1);
    }
}


// ---------------------------------------------------------------------------
// What merging keeps true of the groups
// ---------------------------------------------------------------------------

/// Best-rated first.
pub open spec fn sorted_by_rating_desc(vs: Seq<ResultView>) -> bool {
    forall|i: int, j: int| 0 <= i < j < vs.len() ==> #[trigger] vs[i].rating_tenths >= #[trigger] vs[j].rating_tenths
}

/// No two versions share a URL.
pub open spec fn urls_unique(vs: Seq<ResultView>) -> bool {
    forall|i: int, j: int| 0 <= i < j < vs.len() ==> #[trigger] vs[i].tab_url != #[trigger] vs[j].tab_url
}

/// A group holds at least one version, best-rated first, no URL twice, all of its
/// own artist and song.
pub open spec fn group_wf(g: GroupView) -> bool {
    &&& g.versions.len() > 0
    &&& sorted_by_rating_desc(g.versions)
    &&& urls_unique(g.versions)
    &&& forall|k: int|
        0 <= k < g.versions.len() ==> (#[trigger] g.versions[k]).artist_name == g.artist_name
            && g.versions[k].song_name == g.song_name
}

/// Every group is well formed and no two groups are for the same song.
pub open spec fn groups_wf(gs: Seq<GroupView>) -> bool {
    &&& forall|i: int| 0 <= i < gs.len() ==> group_wf(#[trigger] gs[i])
    &&& forall|i: int, j: int|
        0 <= i < j < gs.len() ==> !(#[trigger] gs[i].artist_name == #[trigger] gs[j].artist_name
            && gs[i].song_name == gs[j].song_name)
}

proof fn lemma_rated_prefix(vs: Seq<ResultView>, rating: i64)
    requires
        sorted_by_rating_desc(vs),
    ensures
        forall|k: int| 0 <= k < rated_at_least(vs, rating) ==> (#[trigger] vs[k]).rating_tenths >= rating,
        forall|k: int|
            rated_at_least(vs, rating) <= k < vs.len() ==> (#[trigger] vs[k]).rating_tenths < rating,
        rated_at_least(vs, rating) <= vs.len(),
    decreases vs.len(),
{
    lemma_rated_at_least_bound(vs, rating);
    if vs.len() > 0 && vs[0].rating_tenths >= rating {
        let t = vs.drop_first();
        assert forall|i: int, j: int| 0 <= i < j < t.len() implies #[trigger] t[i].rating_tenths
            >= #[trigger] t[j].rating_tenths by {
            assert(t[i] == vs[i + 1] && t[j] == vs[j + 1]);
        }
        lemma_rated_prefix(t, rating);
        assert forall|k: int| 0 <= k < rated_at_least(vs, rating) implies (#[trigger] vs[k]).rating_tenths
            >= rating by {
            if k > 0 {
                assert(vs[k] == t[k - 1]);
            }
        }
        assert forall|k: int| rated_at_least(vs, rating) <= k < vs.len() implies (
        #[trigger] vs[k]).rating_tenths < rating by {
            assert(vs[k] == t[k - 1]);
        }
    } else if vs.len() > 0 {
        assert forall|k: int| rated_at_least(vs, rating) <= k < vs.len() implies (
        #[trigger] vs[k]).rating_tenths < rating by {
            if k > 0 {
                assert(vs[0].rating_tenths >= vs[k].rating_tenths);
            }
        }
    }
}

/// A best-first list is its own stable sort.
proof fn lemma_sorted_is_fixed(vs: Seq<ResultView>)
    requires
        sorted_by_rating_desc(vs),
    ensures
        sort_by_rating(vs) == vs,
    decreases vs.len(),
{
    if vs.len() > 0 {
        let p = vs.drop_last();
        lemma_sorted_is_fixed(p);
        lemma_rated_prefix(p, vs.last().rating_tenths);
        if rated_at_least(p, vs.last().rating_tenths) < p.len() {
            let k = rated_at_least(p, vs.last().rating_tenths) as int;
            assert(p[k] == vs[k]);
            assert(vs[k].rating_tenths >= vs[vs.len() - 1].rating_tenths);
        }
        assert(p.take(p.len() as int) =~= p);
        assert(p.skip(p.len() as int) =~= Seq::<ResultView>::empty());
        assert(p.push(vs.last()) + Seq::<ResultView>::empty() =~= vs);
    }
}

proof fn lemma_inserted_index(vs: Seq<ResultView>, r: ResultView, p: int)
    requires
        0 <= p <= vs.len(),
    ensures
        ({
            let n = vs.take(p).push(r) + vs.skip(p);
            &&& n.len() == vs.len() + 1
            &&& forall|k: int| 0 <= k < p ==> #[trigger] n[k] == vs[k]
            &&& n[p] == r
            &&& forall|k: int| p < k < n.len() ==> #[trigger] n[k] == vs[k - 1]
        }),
{
}

proof fn lemma_inserted_sorted(vs: Seq<ResultView>, r: ResultView, p: int)
    requires
        sorted_by_rating_desc(vs),
        p == rated_at_least(vs, r.rating_tenths),
    ensures
        sorted_by_rating_desc(vs.take(p).push(r) + vs.skip(p)),
{
    lemma_rated_prefix(vs, r.rating_tenths);
    lemma_inserted_index(vs, r, p);
    let n = vs.take(p).push(r) + vs.skip(p);
    assert forall|i: int, j: int| 0 <= i < j < n.len() implies #[trigger] n[i].rating_tenths
        >= #[trigger] n[j].rating_tenths by {
        if i < p {
            assert(n[i] == vs[i]);
            if j < p {
                assert(n[j] == vs[j]);
            } else if j > p {
                assert(n[j] == vs[j - 1]);
            }
        } else if i == p {
            assert(n[j] == vs[j - 1]);
        } else {
            assert(n[i] == vs[i - 1] && n[j] == vs[j - 1]);
        }
    }
}

proof fn lemma_inserted_unique(vs: Seq<ResultView>, r: ResultView, p: int)
    requires
        urls_unique(vs),
        !has_url(vs, r.tab_url),
        0 <= p <= vs.len(),
    ensures
        urls_unique(vs.take(p).push(r) + vs.skip(p)),
{
    lemma_inserted_index(vs, r, p);
    let n = vs.take(p).push(r) + vs.skip(p);
    assert forall|i: int, j: int| 0 <= i < j < n.len() implies #[trigger] n[i].tab_url
        != #[trigger] n[j].tab_url by {
        if i == p {
            assert(n[j] == vs[j - 1]);
            if vs[j - 1].tab_url == r.tab_url {
                assert(has_url(vs, r.tab_url));
            }
        } else if j == p {
            assert(n[i] == vs[i]);
            if vs[i].tab_url == r.tab_url {
                assert(has_url(vs, r.tab_url));
            }
        } else {
            let a = if i < p {
                i
            } else {
                i - 1
            };
            let b = if j < p {
                j
            } else {
                j - 1
            };
            assert(n[i] == vs[a] && n[j] == vs[b]);
        }
    }
}

proof fn lemma_inserted_same_song(vs: Seq<ResultView>, r: ResultView, p: int, a: Seq<char>, s: Seq<char>)
    requires
        forall|k: int| 0 <= k < vs.len() ==> (#[trigger] vs[k]).artist_name == a && vs[k].song_name == s,
        r.artist_name == a,
        r.song_name == s,
        0 <= p <= vs.len(),
    ensures
        ({
            let n = vs.take(p).push(r) + vs.skip(p);
            forall|k: int| 0 <= k < n.len() ==> (#[trigger] n[k]).artist_name == a && n[k].song_name == s
        }),
{
    lemma_inserted_index(vs, r, p);
    let n = vs.take(p).push(r) + vs.skip(p);
    assert forall|k: int| 0 <= k < n.len() implies (#[trigger] n[k]).artist_name == a && n[k].song_name
        == s by {
        if k < p {
            assert(n[k] == vs[k]);
        } else if k > p {
            assert(n[k] == vs[k - 1]);
        }
    }
}

/// Inserting a version with a new URL into a well formed group keeps it well formed.
proof fn lemma_insert_wf(g: GroupView, r: ResultView)
    requires
        group_wf(g),
        r.artist_name == g.artist_name,
        r.song_name == g.song_name,
        !has_url(g.versions, r.tab_url),
    ensures
        group_wf(
            GroupView {
                artist_name: g.artist_name,
                song_name: g.song_name,
                versions: sort_by_rating(g.versions.push(r)),
            },
        ),
{
    let vs = g.versions;
    lemma_sorted_is_fixed(vs);
    assert(vs.push(r).drop_last() =~= vs);
    let p = rated_at_least(vs, r.rating_tenths) as int;
    lemma_rated_at_least_bound(vs, r.rating_tenths);
    assert(sort_by_rating(vs.push(r)) == vs.take(p).push(r) + vs.skip(p));
    lemma_inserted_index(vs, r, p);
    lemma_inserted_sorted(vs, r, p);
    lemma_inserted_unique(vs, r, p);
    lemma_inserted_same_song(vs, r, p, g.artist_name, g.song_name);
}

proof fn lemma_merge_one_wf(gs: Seq<GroupView>, r: ResultView)
    requires
        groups_wf(gs),
    ensures
        groups_wf(merge_one(gs, r)),
{
    lemma_find_group_in_range(gs, r.artist_name, r.song_name, 0);
    lemma_find_group_none(gs, r.artist_name, r.song_name, 0);
    match find_group(gs, r.artist_name, r.song_name, 0) {
        Some(i) => {
            if !has_url(gs[i].versions, r.tab_url) {
                lemma_insert_wf(gs[i], r);
                let ng = merge_one(gs, r);
                assert forall|a: int, b: int| 0 <= a < b < ng.len() implies !(
                #[trigger] ng[a].artist_name == #[trigger] ng[b].artist_name && ng[a].song_name
                    == ng[b].song_name) by {
                    assert(ng[a].artist_name == gs[a].artist_name && ng[a].song_name == gs[a].song_name);
                    assert(ng[b].artist_name == gs[b].artist_name && ng[b].song_name == gs[b].song_name);
                }
                assert forall|a: int| 0 <= a < ng.len() implies group_wf(#[trigger] ng[a]) by {
                    if a != i {
                        assert(ng[a] == gs[a]);
                    }
                }
            }
        },
        None => {
            let ng = merge_one(gs, r);
            let g = ng[gs.len() as int];
            assert(g.versions =~= seq![r]);
            assert(group_wf(g));
            assert forall|a: int| 0 <= a < ng.len() implies group_wf(#[trigger] ng[a]) by {
                if a < gs.len() {
                    assert(ng[a] == gs[a]);
                }
            }
            assert forall|a: int, b: int| 0 <= a < b < ng.len() implies !(
            #[trigger] ng[a].artist_name == #[trigger] ng[b].artist_name && ng[a].song_name
                == ng[b].song_name) by {
                if b == gs.len() {
                    assert(ng[a] == gs[a]);
                } else {
                    assert(ng[a] == gs[a] && ng[b] == gs[b]);
                }
            }
        },
    }
}

proof fn lemma_find_group_none(gs: Seq<GroupView>, a: Seq<char>, s: Seq<char>, i: int)
    requires
        0 <= i,
    ensures
        find_group(gs, a, s, i) is None ==> forall|j: int|
            i <= j < gs.len() ==> !(#[trigger] gs[j].artist_name == a && gs[j].song_name == s),
    decreases gs.len() - i,
{
    if 0 <= i < gs.len() && !(gs[i].artist_name == a && gs[i].song_name == s) {
        lemma_find_group_none(gs, a, s, i + 1);
    }
}

/// Merging results into well formed groups keeps them well formed: each group keeps
/// its versions best-rated first, never holds one URL twice, and only holds versions of
/// its own song; no two groups are for the same song.
pub proof fn law_merge_keeps_groups_well_formed(gs: Seq<GroupView>, rs: Seq<ResultView>)
    requires
        groups_wf(gs),
    ensures
        groups_wf(merge_all(gs, rs)),
    decreases rs.len(),
{
    if rs.len() > 0 {
        law_merge_keeps_groups_well_formed(gs, rs.drop_last());
        lemma_merge_one_wf(merge_all(gs, rs.drop_last()), rs.last());
    }
}


/// `r` is already merged into `gs`: the group found for its song holds its URL.
pub open spec fn merged_in(gs: Seq<GroupView>, r: ResultView) -> bool {
    match find_group(gs, r.artist_name, r.song_name, 0) {
        Some(i) => has_url(gs[i].versions, r.tab_url),
        None => false,
    }
}

proof fn lemma_find_group_same_names(gs: Seq<GroupView>, hs: Seq<GroupView>, a: Seq<char>, s: Seq<char>, i: int)
    requires
        gs.len() == hs.len(),
        forall|j: int| 0 <= j < gs.len() ==> (#[trigger] gs[j]).artist_name == hs[j].artist_name
            && gs[j].song_name == hs[j].song_name,
    ensures
        find_group(gs, a, s, i) == find_group(hs, a, s, i),
    decreases gs.len() - i,
{
    if 0 <= i < gs.len() {
        assert(gs[i].artist_name == hs[i].artist_name && gs[i].song_name == hs[i].song_name);
        lemma_find_group_same_names(gs, hs, a, s, i + 1);
    }
}

proof fn lemma_find_group_push(gs: Seq<GroupView>, g: GroupView, a: Seq<char>, s: Seq<char>, i: int)
    requires
        0 <= i <= gs.len(),
    ensures
        find_group(gs, a, s, i) is Some ==> find_group(gs.push(g), a, s, i) == find_group(gs, a, s, i),
        find_group(gs, a, s, i) is None && g.artist_name == a && g.song_name == s ==> find_group(
            gs.push(g),
            a,
            s,
            i,
        ) == Some(gs.len() as int),
    decreases gs.len() - i,
{
    let hs = gs.push(g);
    if i < gs.len() {
        assert(hs[i] == gs[i]);
        lemma_find_group_push(gs, g, a, s, i + 1);
    } else {
        assert(hs[i] == g);
    }
}

proof fn lemma_insert_contains(vs: Seq<ResultView>, r: ResultView, x: ResultView)
    ensures
        insert_by_rating(vs, r).contains(x) <==> vs.contains(x) || x == r,
{
    let p = rated_at_least(vs, r.rating_tenths) as int;
    lemma_rated_at_least_bound(vs, r.rating_tenths);
    lemma_inserted_index(vs, r, p);
    let n = insert_by_rating(vs, r);
    if vs.contains(x) {
        let j = choose|j: int| 0 <= j < vs.len() && vs[j] == x;
        if j < p {
            assert(n[j] == x);
        } else {
            assert(n[j + 1] == x);
        }
    }
    if x == r {
        assert(n[p] == x);
    }
    if n.contains(x) {
        let j = choose|j: int| 0 <= j < n.len() && n[j] == x;
        if j < p {
            assert(vs[j] == x);
        } else if j > p {
            assert(vs[j - 1] == x);
        }
    }
}

proof fn lemma_sort_contains(vs: Seq<ResultView>, x: ResultView)
    ensures
        sort_by_rating(vs).contains(x) <==> vs.contains(x),
    decreases vs.len(),
{
    if vs.len() > 0 {
        let d = vs.drop_last();
        lemma_sort_contains(d, x);
        lemma_insert_contains(sort_by_rating(d), vs.last(), x);
        if vs.contains(x) {
            let j = choose|j: int| 0 <= j < vs.len() && vs[j] == x;
            if j < d.len() {
                assert(d[j] == x);
            }
        }
        if d.contains(x) {
            let j = choose|j: int| 0 <= j < d.len() && d[j] == x;
            assert(vs[j] == x);
        }
    }
}

/// A version kept when `r` is added and the versions re-sorted keeps its URL there.
proof fn lemma_sorted_push_has_url(vs: Seq<ResultView>, r: ResultView, u: Seq<char>)
    ensures
        has_url(vs, u) || r.tab_url == u ==> has_url(sort_by_rating(vs.push(r)), u),
{
    let n = sort_by_rating(vs.push(r));
    if has_url(vs, u) || r.tab_url == u {
        let x = if has_url(vs, u) {
            let j = choose|j: int| 0 <= j < vs.len() && (#[trigger] vs[j]).tab_url == u;
            assert(vs.push(r)[j] == vs[j]);
            vs[j]
        } else {
            assert(vs.push(r)[vs.len() as int] == r);
            r
        };
        assert(vs.push(r).contains(x));
        lemma_sort_contains(vs.push(r), x);
        let k = choose|k: int| 0 <= k < n.len() && n[k] == x;
        assert(n[k].tab_url == u);
    }
}

/// Merging `r` in leaves it merged in, and leaves merged in every result that already
/// was.
proof fn lemma_merge_one_keeps(gs: Seq<GroupView>, r: ResultView, x: ResultView)
    ensures
        merged_in(merge_one(gs, r), r),
        merged_in(gs, x) ==> merged_in(merge_one(gs, r), x),
{
    let ng = merge_one(gs, r);
    lemma_find_group_in_range(gs, r.artist_name, r.song_name, 0);
    lemma_find_group_in_range(gs, x.artist_name, x.song_name, 0);
    match find_group(gs, r.artist_name, r.song_name, 0) {
        Some(i) => {
            if !has_url(gs[i].versions, r.tab_url) {
                assert forall|j: int| 0 <= j < gs.len() implies (#[trigger] gs[j]).artist_name
                    == ng[j].artist_name && gs[j].song_name == ng[j].song_name by {}
                lemma_find_group_same_names(gs, ng, r.artist_name, r.song_name, 0);
                lemma_find_group_same_names(gs, ng, x.artist_name, x.song_name, 0);
                lemma_sorted_push_has_url(gs[i].versions, r, r.tab_url);
                if merged_in(gs, x) {
                    let ix = find_group(gs, x.artist_name, x.song_name, 0)->0;
                    if ix == i {
                        lemma_sorted_push_has_url(gs[i].versions, r, x.tab_url);
                    } else {
                        assert(ng[ix] == gs[ix]);
                    }
                }
            }
        },
        None => {
            let g = GroupView { artist_name: r.artist_name, song_name: r.song_name, versions: seq![r] };
            lemma_find_group_push(gs, g, r.artist_name, r.song_name, 0);
            lemma_find_group_push(gs, g, x.artist_name, x.song_name, 0);
            assert(ng[gs.len() as int] == g);
            assert(g.versions[0].tab_url == r.tab_url);
            if merged_in(gs, x) {
                let ix = find_group(gs, x.artist_name, x.song_name, 0)->0;
                assert(ng[ix] == gs[ix]);
            }
        },
    }
}

/// After merging `rs`, every one of them is merged in, and so is every result that
/// already was.
proof fn lemma_merge_all_merged_in(gs: Seq<GroupView>, rs: Seq<ResultView>, x: ResultView)
    ensures
        forall|j: int| 0 <= j < rs.len() ==> merged_in(merge_all(gs, rs), #[trigger] rs[j]),
        merged_in(gs, x) ==> merged_in(merge_all(gs, rs), x),
    decreases rs.len(),
{
    if rs.len() > 0 {
        let d = rs.drop_last();
        let m = merge_all(gs, d);
        lemma_merge_all_merged_in(gs, d, x);
        lemma_merge_one_keeps(m, rs.last(), x);
        assert forall|j: int| 0 <= j < rs.len() implies merged_in(merge_all(gs, rs), #[trigger] rs[j]) by {
            if j < d.len() {
                assert(d[j] == rs[j]);
                lemma_merge_all_merged_in(gs, d, rs[j]);
                lemma_merge_one_keeps(m, rs.last(), rs[j]);
            }
        }
    }
}

/// Merging results that are all merged in already changes nothing.
proof fn lemma_merge_all_present(gs: Seq<GroupView>, rs: Seq<ResultView>)
    requires
        forall|j: int| 0 <= j < rs.len() ==> merged_in(gs, #[trigger] rs[j]),
    ensures
        merge_all(gs, rs) == gs,
    decreases rs.len(),
{
    if rs.len() > 0 {
        let d = rs.drop_last();
        assert forall|j: int| 0 <= j < d.len() implies merged_in(gs, #[trigger] d[j]) by {
            assert(d[j] == rs[j]);
        }
        lemma_merge_all_present(gs, d);
        assert(merged_in(gs, rs[rs.len() - 1]));
    }
}

/// Merging the same results a second time changes nothing.
pub proof fn law_merge_twice_changes_nothing(gs: Seq<GroupView>, rs: Seq<ResultView>)
    ensures
        merge_all(merge_all(gs, rs), rs) == merge_all(gs, rs),
{
    lemma_merge_all_merged_in(gs, rs, rs.first());
    lemma_merge_all_present(merge_all(gs, rs), rs);
}

// ---------------------------------------------------------------------------
// Abstract values of tab data
// ---------------------------------------------------------------------------

/// Abstract value of a `ChordFingering`: frets, then fingers.
pub open spec fn fingering_view(f: ChordFingering) -> (Seq<i32>, Seq<i32>) {
    (f.frets@, f.fingers@)
}

pub open spec fn fingering_views(fs: Seq<ChordFingering>) -> Seq<(Seq<i32>, Seq<i32>)> {
    fs.map_values(|f: ChordFingering| fingering_view(f))
}

/// Abstract value of the chord fingerings of a tab: chord names with their fingerings.
pub open spec fn applicature_view(a: Seq<(String, Vec<ChordFingering>)>) -> Seq<
    (Seq<char>, Seq<(Seq<i32>, Seq<i32>)>),
> {
    a.map_values(|e: (String, Vec<ChordFingering>)| (e.0@, fingering_views(e.1@)))
}

/// Abstract value of a `TabData`.
pub struct TabDataView {
    pub raw_content: Seq<char>,
    pub artist_name: Seq<char>,
    pub song_name: Seq<char>,
    pub version: u32,
    pub tab_type: TabTypeView,
    pub rating_tenths: i64,
    pub difficulty: Seq<char>,
    pub capo: Option<Seq<char>>,
    pub tuning: Option<(Seq<char>, Seq<char>)>,
    pub tab_url: Seq<char>,
    pub alternatives: Seq<ResultView>,
    pub applicature: Option<Seq<(Seq<char>, Seq<(Seq<i32>, Seq<i32>)>)>>,
}

impl View for TabData {
    type V = TabDataView;

    open spec fn view(&self) -> TabDataView {
        TabDataView {
            raw_content: self.raw_content@,
            artist_name: self.artist_name@,
            song_name: self.song_name@,
            version: self.version,
            tab_type: self.tab_type@,
            rating_tenths: self.rating_tenths,
            difficulty: self.difficulty@,
            capo: match self.capo {
                Some(c) => Some(c@),
                None => None,
            },
            tuning: match self.tuning {
                Some(t) => Some((t.value@, t.name@)),
                None => None,
            },
            tab_url: self.tab_url@,
            alternatives: result_views(self.alternatives@),
            applicature: match self.applicature {
                Some(a) => Some(applicature_view(a@)),
                None => None,
            },
        }
    }
}

} // verus!
