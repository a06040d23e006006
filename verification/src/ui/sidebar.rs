use vstd::prelude::*;

use crate::data::models::{copy_summary, summary_views, SavedTabSummary, SummaryView};
use crate::text::{chars_eq, chars_of, lowercase, push_str, string_from_chars, sub_chars, to_lowercase};

verus! {

// ---------------------------------------------------------------------------
// Row names
// ---------------------------------------------------------------------------

/// The prefix of a song row's name; the tab's address follows it.
pub open spec fn song_prefix() -> Seq<char> {
    seq!['t', 'a', 'b', ':']
}

/// The name of the row of a saved song.
pub fn song_row_name(tab_url: &str) -> (r: String)
    ensures
        r@ == song_prefix() + tab_url@,
{
    let mut v: Vec<char> = Vec::new();
    v.push('t');
    v.push('a');
    v.push('b');
    v.push(':');
    push_str(&mut v, tab_url);
    assert(v@ =~= song_prefix() + tab_url@);
    string_from_chars(&v)
}

/// The tab's address of a row, if the row is a song row.
pub fn row_url(name: &str) -> (r: Option<String>)
    ensures
        match r {
            Some(u) => name@.len() >= 4 && name@.take(4) == song_prefix() && u@ == name@.skip(4),
            None => !(name@.len() >= 4 && name@.take(4) == song_prefix()),
        },
{
    let c = chars_of(name);
    let n = c.len();
    if n >= 4 && c[0] == 't' && c[1] == 'a' && c[2] == 'b' && c[3] == ':' {
        assert(c@.take(4) =~= song_prefix());
        let rest = sub_chars(&c, 4, n);
        assert(rest@ =~= name@.skip(4));
        Some(string_from_chars(&rest))
    } else {
        proof {
            if n >= 4 && c@.take(4) == song_prefix() {
                assert(c@.take(4)[0] == 't' && c@.take(4)[1] == 'a');
                assert(c@.take(4)[2] == 'b' && c@.take(4)[3] == ':');
            }
        }
        None
    }
}

// ---------------------------------------------------------------------------
// Filtering
// ---------------------------------------------------------------------------

/// `h` holds `n` at some place (`str::contains`).
pub open spec fn has_substring(h: Seq<char>, n: Seq<char>) -> bool {
    exists|i: int| 0 <= i && i + n.len() <= h.len() && #[trigger] h.subrange(i, i + n.len()) == n
}

fn matches_at(h: &[char], n: &[char], i: usize) -> (r: bool)
    requires
        i + n@.len() <= h@.len(),
    ensures
        r == (h@.subrange(i as int, i + n@.len()) == n@),
{
    let _hl = h.len();
    let mut k: usize = 0;
    while k < n.len()
        invariant
            _hl == h@.len(),
            i + n@.len() <= h@.len(),
            k <= n@.len(),
            forall|j: int| 0 <= j < k ==> h@[i + j] == n@[j],
        decreases n@.len() - k,
    {
        if h[i + k] != n[k] {
            assert(h@.subrange(i as int, i + n@.len())[k as int] != n@[k as int]);
            return false;
        }
        k = k + 1;
    }
    assert(h@.subrange(i as int, i + n@.len()) =~= n@);
    true
}

/// Whether `h` contains `n`.
pub fn contains_chars(h: &[char], n: &[char]) -> (r: bool)
    ensures
        r == has_substring(h@, n@),
{
    let hl = h.len();
    let nl = n.len();
    if nl > hl {
        return false;
    }
    let last = hl - nl;
    let mut i: usize = 0;
    loop
        invariant
            hl == h@.len(),
            nl == n@.len(),
            last == hl - nl,
            i <= last,
            forall|j: int| 0 <= j < i ==> #[trigger] h@.subrange(j, j + nl) != n@,
        decreases last - i,
    {
        if matches_at(h, n, i) {
            return true;
        }
        if i == last {
            return false;
        }
        i = i + 1;
    }
}

/// The filter key of what was typed in the filter entry: its lower-case form.
pub fn filter_key(text: &str) -> (r: String)
    ensures
        r@ == lowercase(text@),
{
    to_lowercase(text)
}

/// A song row is shown for the filter key `f` when `f` is empty, or when the song's
/// title or the row's name (which holds the tab's address), lower-cased, contains it.
pub open spec fn song_shown(f: Seq<char>, t: SummaryView) -> bool {
    ||| f.len() == 0
    ||| has_substring(lowercase(t.song_name), f)
    ||| has_substring(lowercase(song_prefix() + t.tab_url), f)
}

/// Whether the row of `tab` is shown for the filter key `filter`.
pub fn song_visible(filter: &str, tab: &SavedTabSummary) -> (r: bool)
    ensures
        r == song_shown(filter@, tab@),
{
    let f = chars_of(filter);
    if f.len() == 0 {
        return true;
    }
    let title = chars_of(to_lowercase(tab.song_name.as_str()).as_str());
    if contains_chars(&title, &f) {
        return true;
    }
    let name = song_row_name(tab.tab_url.as_str());
    let lname = chars_of(to_lowercase(name.as_str()).as_str());
    contains_chars(&lname, &f)
}

// ---------------------------------------------------------------------------
// Order of names
// ---------------------------------------------------------------------------

/// `a` sorts before `b`: the order of `String` (by code point, a prefix first).
pub open spec fn text_lt(a: Seq<char>, b: Seq<char>) -> bool
    decreases a.len(),
{
    if a.len() == 0 {
        b.len() > 0
    } else if b.len() == 0 {
        false
    } else if a[0] != b[0] {
        (a[0] as int) < (b[0] as int)
    } else {
        text_lt(a.drop_first(), b.drop_first())
    }
}

/// Whether `a` sorts before `b`.
pub fn text_less(a: &[char], b: &[char]) -> (r: bool)
    ensures
        r == text_lt(a@, b@),
{
    let mut i: usize = 0;
    proof {
        assert(a@.skip(0) =~= a@);
        assert(b@.skip(0) =~= b@);
    }
    while i < a.len() && i < b.len()
        invariant
            i <= a@.len(),
            i <= b@.len(),
            text_lt(a@, b@) == text_lt(a@.skip(i as int), b@.skip(i as int)),
        decreases a@.len() - i,
    {
        if a[i] != b[i] {
            return a[i] < b[i];
        }
        proof {
            assert(a@.skip(i as int).drop_first() =~= a@.skip(i + 1));
            assert(b@.skip(i as int).drop_first() =~= b@.skip(i + 1));
        }
        i = i + 1;
    }
    a.len() - i < b.len() - i
}

// ---------------------------------------------------------------------------
// Grouping saved songs by artist
// ---------------------------------------------------------------------------

/// The saved songs of one artist, as the library lists them.
pub struct ArtistGroup {
    pub artist: String,
    pub songs: Vec<SavedTabSummary>,
}

/// Abstract value of an `ArtistGroup`.
pub struct ArtistGroupView {
    pub artist: Seq<char>,
    pub songs: Seq<SummaryView>,
}

impl View for ArtistGroup {
    type V = ArtistGroupView;

    open spec fn view(&self) -> ArtistGroupView {
        ArtistGroupView { artist: self.artist@, songs: summary_views(self.songs@) }
    }
}

pub open spec fn artist_group_views(gs: Seq<ArtistGroup>) -> Seq<ArtistGroupView> {
    gs.map_values(|g: ArtistGroup| g@)
}

/// Number of leading songs whose title sorts no later than `name`.
pub open spec fn songs_up_to(songs: Seq<SummaryView>, name: Seq<char>) -> nat
    decreases songs.len(),
{
    if songs.len() > 0 && !text_lt(name, songs[0].song_name) {
        1 + songs_up_to(songs.drop_first(), name)
    } else {
        0
    }
}

/// `t` placed after every leading song whose title sorts no later than its own: one
/// step of a stable sort by title.
pub open spec fn insert_song(songs: Seq<SummaryView>, t: SummaryView) -> Seq<SummaryView> {
    let k = songs_up_to(songs, t.song_name) as int;
    songs.take(k) + seq![t] + songs.skip(k)
}

/// Number of leading groups whose artist sorts before `artist`.
pub open spec fn groups_before(gs: Seq<ArtistGroupView>, artist: Seq<char>) -> nat
    decreases gs.len(),
{
    if gs.len() > 0 && text_lt(gs[0].artist, artist) {
        1 + groups_before(gs.drop_first(), artist)
    } else {
        0
    }
}

/// The groups with one more saved song: it joins its artist's group, or a new group
/// is made for its artist at its place in the order of artists.
pub open spec fn add_tab(gs: Seq<ArtistGroupView>, t: SummaryView) -> Seq<ArtistGroupView> {
    let p = groups_before(gs, t.artist_name) as int;
    if p < gs.len() && gs[p].artist == t.artist_name {
        gs.update(p, ArtistGroupView { artist: gs[p].artist, songs: insert_song(gs[p].songs, t) })
    } else {
        gs.take(p) + seq![ArtistGroupView { artist: t.artist_name, songs: seq![t] }] + gs.skip(p)
    }
}

/// The library's groups: one per artist, artists in order, each artist's songs by
/// title, songs with the same title in the order they came.
pub open spec fn artist_groups(ts: Seq<SummaryView>) -> Seq<ArtistGroupView>
    decreases ts.len(),
{
    if ts.len() == 0 {
        Seq::empty()
    } else {
        add_tab(artist_groups(ts.drop_last()), ts.last())
    }
}

proof fn lemma_songs_up_to_len(songs: Seq<SummaryView>, name: Seq<char>)
    ensures
        songs_up_to(songs, name) <= songs.len(),
    decreases songs.len(),
{
    if songs.len() > 0 {
        lemma_songs_up_to_len(songs.drop_first(), name);
    }
}

proof fn lemma_groups_before_len(gs: Seq<ArtistGroupView>, artist: Seq<char>)
    ensures
        groups_before(gs, artist) <= gs.len(),
    decreases gs.len(),
{
    if gs.len() > 0 {
        lemma_groups_before_len(gs.drop_first(), artist);
    }
}

fn song_position(songs: &Vec<SavedTabSummary>, name: &[char]) -> (k: usize)
    ensures
        k == songs_up_to(summary_views(songs@), name@),
{
    let ghost sv = summary_views(songs@);
    let mut k: usize = 0;
    proof {
        assert(sv.skip(0) =~= sv);
    }
    while k < songs.len() && !text_less(name, &chars_of(songs[k].song_name.as_str()))
        invariant
            sv == summary_views(songs@),
            k <= songs@.len(),
            songs_up_to(sv, name@) == k + songs_up_to(sv.skip(k as int), name@),
        decreases songs@.len() - k,
    {
        proof {
            assert(sv.skip(k as int)[0] == songs@[k as int]@);
            assert(sv.skip(k as int).drop_first() =~= sv.skip(k + 1));
        }
        k = k + 1;
    }
    proof {
        if k < songs@.len() {
            assert(sv.skip(k as int)[0] == songs@[k as int]@);
        }
    }
    k
}

fn group_position(gs: &Vec<ArtistGroup>, artist: &[char]) -> (p: usize)
    ensures
        p == groups_before(artist_group_views(gs@), artist@),
{
    let ghost gv = artist_group_views(gs@);
    let mut p: usize = 0;
    proof {
        assert(gv.skip(0) =~= gv);
    }
    while p < gs.len() && text_less(&chars_of(gs[p].artist.as_str()), artist)
        invariant
            gv == artist_group_views(gs@),
            p <= gs@.len(),
            groups_before(gv, artist@) == p + groups_before(gv.skip(p as int), artist@),
        decreases gs@.len() - p,
    {
        proof {
            assert(gv.skip(p as int)[0] == gs@[p as int]@);
            assert(gv.skip(p as int).drop_first() =~= gv.skip(p + 1));
        }
        p = p + 1;
    }
    proof {
        if p < gs@.len() {
            assert(gv.skip(p as int)[0] == gs@[p as int]@);
        }
    }
    p
}

fn add_tab_to(gs: &mut Vec<ArtistGroup>, t: &SavedTabSummary)
    ensures
        artist_group_views(final(gs)@) == add_tab(artist_group_views(old(gs)@), t@),
{
    let ghost gv = artist_group_views(gs@);
    let artist = chars_of(t.artist_name.as_str());
    let p = group_position(gs, &artist);
    proof {
        lemma_groups_before_len(gv, artist@);
    }
    if p < gs.len() && chars_eq(&chars_of(gs[p].artist.as_str()), &artist) {
        assert(gv[p as int] == gs@[p as int]@);
        let mut g = gs.remove(p);
        let name = chars_of(t.song_name.as_str());
        let k = song_position(&g.songs, &name);
        proof {
            lemma_songs_up_to_len(summary_views(g.songs@), name@);
        }
        let ghost before = summary_views(g.songs@);
        let c = copy_summary(t);
        g.songs.insert(k, c);
        proof {
            assert(summary_views(g.songs@) =~= before.take(k as int) + seq![t@] + before.skip(k as int));
        }
        gs.insert(p, g);
        proof {
            assert(artist_group_views(gs@) =~= add_tab(gv, t@));
        }
    } else {
        let mut songs: Vec<SavedTabSummary> = Vec::new();
        songs.push(copy_summary(t));
        let g = ArtistGroup { artist: t.artist_name.clone(), songs };
        proof {
            assert(summary_views(g.songs@) =~= seq![t@]);
        }
        gs.insert(p, g);
        proof {
            assert(artist_group_views(gs@) =~= add_tab(gv, t@));
        }
    }
}

/// The saved songs grouped by artist for the library (`refresh`).
pub fn group_by_artist(tabs: &[SavedTabSummary]) -> (r: Vec<ArtistGroup>)
    ensures
        artist_group_views(r@) == artist_groups(summary_views(tabs@)),
{
    let ghost tv = summary_views(tabs@);
    let mut gs: Vec<ArtistGroup> = Vec::new();
    let mut i: usize = 0;
    proof {
        assert(tv.take(0) =~= Seq::<SummaryView>::empty());
        assert(artist_group_views(gs@) =~= Seq::<ArtistGroupView>::empty());
    }
    while i < tabs.len()
        invariant
            tv == summary_views(tabs@),
            i <= tabs@.len(),
            artist_group_views(gs@) == artist_groups(tv.take(i as int)),
        decreases tabs@.len() - i,
    {
        proof {
            let u = tv.take(i + 1);
            assert(u.drop_last() =~= tv.take(i as int));
            assert(u.last() == tabs@[i as int]@);
        }
        add_tab_to(&mut gs, &tabs[i]);
        i = i + 1;
    }
    assert(tv.take(tabs@.len() as int) =~= tv);
    gs
}

/// The address of the first song, in the order of the list, whose row the filter
/// key `f` shows.
pub open spec fn first_shown(songs: Seq<SummaryView>, f: Seq<char>) -> Option<Seq<char>>
    decreases songs.len(),
{
    if songs.len() == 0 {
        None
    } else if song_shown(f, songs[0]) {
        Some(songs[0].tab_url)
    } else {
        first_shown(songs.drop_first(), f)
    }
}

/// The address of the first shown song of the library, group after group.
pub open spec fn first_shown_in_groups(gs: Seq<ArtistGroupView>, f: Seq<char>) -> Option<Seq<char>>
    decreases gs.len(),
{
    if gs.len() == 0 {
        None
    } else {
        match first_shown(gs[0].songs, f) {
            Some(u) => Some(u),
            None => first_shown_in_groups(gs.drop_first(), f),
        }
    }
}

fn first_shown_song(songs: &Vec<SavedTabSummary>, filter: &str) -> (r: Option<String>)
    ensures
        match r {
            Some(u) => first_shown(summary_views(songs@), filter@) == Some(u@),
            None => first_shown(summary_views(songs@), filter@) is None,
        },
{
    let ghost sv = summary_views(songs@);
    let mut k: usize = 0;
    proof {
        assert(sv.skip(0) =~= sv);
    }
    while k < songs.len()
        invariant
            sv == summary_views(songs@),
            k <= songs@.len(),
            first_shown(sv, filter@) == first_shown(sv.skip(k as int), filter@),
        decreases songs@.len() - k,
    {
        proof {
            assert(sv.skip(k as int)[0] == songs@[k as int]@);
            assert(sv.skip(k as int).drop_first() =~= sv.skip(k + 1));
        }
        if song_visible(filter, &songs[k]) {
            return Some(songs[k].tab_url.clone());
        }
        k = k + 1;
    }
    None
}

/// The song that pressing Enter in the filter opens: the first one shown.
pub fn first_match(groups: &Vec<ArtistGroup>, filter: &str) -> (r: Option<String>)
    ensures
        match r {
            Some(u) => first_shown_in_groups(artist_group_views(groups@), filter@) == Some(u@),
            None => first_shown_in_groups(artist_group_views(groups@), filter@) is None,
        },
{
    let ghost gv = artist_group_views(groups@);
    let mut k: usize = 0;
    proof {
        assert(gv.skip(0) =~= gv);
    }
    while k < groups.len()
        invariant
            gv == artist_group_views(groups@),
            k <= groups@.len(),
            first_shown_in_groups(gv, filter@) == first_shown_in_groups(gv.skip(k as int), filter@),
        decreases groups@.len() - k,
    {
        proof {
            assert(gv.skip(k as int)[0] == groups@[k as int]@);
            assert(gv.skip(k as int).drop_first() =~= gv.skip(k + 1));
        }
        let found = first_shown_song(&groups[k].songs, filter);
        if found.is_some() {
            return found;
        }
        k = k + 1;
    }
    None
}

// ---------------------------------------------------------------------------
// The library's order
// ---------------------------------------------------------------------------

proof fn lemma_lt_irreflexive(a: Seq<char>)
    ensures
        !text_lt(a, a),
    decreases a.len(),
{
    if a.len() > 0 {
        lemma_lt_irreflexive(a.drop_first());
    }
}

proof fn lemma_lt_transitive(a: Seq<char>, b: Seq<char>, c: Seq<char>)
    requires
        text_lt(a, b),
        text_lt(b, c),
    ensures
        text_lt(a, c),
    decreases a.len(),
{
    if a.len() > 0 && b.len() > 0 && c.len() > 0 && a[0] == b[0] && b[0] == c[0] {
        lemma_lt_transitive(a.drop_first(), b.drop_first(), c.drop_first());
    }
}

proof fn lemma_lt_total(a: Seq<char>, b: Seq<char>)
    ensures
        a != b ==> text_lt(a, b) || text_lt(b, a),
    decreases a.len(),
{
    if a.len() > 0 && b.len() > 0 && a[0] != b[0] {
        assert((a[0] as int) != (b[0] as int));
    }
    if a.len() > 0 && b.len() > 0 && a[0] == b[0] {
        lemma_lt_total(a.drop_first(), b.drop_first());
        if a.drop_first() == b.drop_first() {
            assert(a =~= seq![a[0]] + a.drop_first());
            assert(b =~= seq![b[0]] + b.drop_first());
        }
    }
    if a.len() == 0 && b.len() == 0 {
        assert(a =~= b);
    }
}

proof fn lemma_lt_asymmetric(a: Seq<char>, b: Seq<char>)
    requires
        text_lt(a, b),
    ensures
        !text_lt(b, a),
{
    if text_lt(b, a) {
        lemma_lt_transitive(a, b, a);
        lemma_lt_irreflexive(a);
    }
}

/// Titles never go down along the songs.
pub open spec fn songs_sorted(s: Seq<SummaryView>) -> bool {
    forall|i: int, j: int|
        0 <= i < j < s.len() ==> !text_lt(#[trigger] s[j].song_name, #[trigger] s[i].song_name)
}

/// Artists strictly increase along the groups; each group holds at least one song,
/// all by its artist, in the order of their titles.
pub open spec fn library_wf(gs: Seq<ArtistGroupView>) -> bool {
    &&& forall|i: int, j: int|
        0 <= i < j < gs.len() ==> text_lt(#[trigger] gs[i].artist, #[trigger] gs[j].artist)
    &&& forall|i: int|
        0 <= i < gs.len() ==> {
            &&& (#[trigger] gs[i]).songs.len() > 0
            &&& songs_sorted(gs[i].songs)
            &&& forall|k: int| 0 <= k < gs[i].songs.len() ==> (#[trigger] gs[i].songs[k]).artist_name == gs[i].artist
        }
}

/// Number of songs over all groups.
pub open spec fn song_count(gs: Seq<ArtistGroupView>) -> nat
    decreases gs.len(),
{
    if gs.len() == 0 {
        0
    } else {
        song_count(gs.drop_last()) + gs.last().songs.len()
    }
}

proof fn lemma_songs_up_to(songs: Seq<SummaryView>, name: Seq<char>)
    ensures
        songs_up_to(songs, name) <= songs.len(),
        forall|i: int| 0 <= i < songs_up_to(songs, name) ==> !text_lt(name, #[trigger] songs[i].song_name),
        songs_up_to(songs, name) < songs.len() ==> text_lt(name, songs[songs_up_to(songs, name) as int].song_name),
    decreases songs.len(),
{
    if songs.len() > 0 && !text_lt(name, songs[0].song_name) {
        lemma_songs_up_to(songs.drop_first(), name);
        assert forall|i: int| 0 <= i < songs_up_to(songs, name) implies !text_lt(name, #[trigger] songs[i].song_name) by {
            if i > 0 {
                assert(songs[i] == songs.drop_first()[i - 1]);
            }
        }
    }
}

proof fn lemma_groups_before(gs: Seq<ArtistGroupView>, artist: Seq<char>)
    ensures
        groups_before(gs, artist) <= gs.len(),
        forall|i: int| 0 <= i < groups_before(gs, artist) ==> text_lt(#[trigger] gs[i].artist, artist),
        groups_before(gs, artist) < gs.len() ==> !text_lt(gs[groups_before(gs, artist) as int].artist, artist),
    decreases gs.len(),
{
    if gs.len() > 0 && text_lt(gs[0].artist, artist) {
        lemma_groups_before(gs.drop_first(), artist);
        assert forall|i: int| 0 <= i < groups_before(gs, artist) implies text_lt(#[trigger] gs[i].artist, artist) by {
            if i > 0 {
                assert(gs[i] == gs.drop_first()[i - 1]);
            }
        }
    }
}

proof fn lemma_insert_song_sorted(songs: Seq<SummaryView>, t: SummaryView)
    requires
        songs_sorted(songs),
    ensures
        songs_sorted(insert_song(songs, t)),
{
    let k = songs_up_to(songs, t.song_name) as int;
    lemma_songs_up_to(songs, t.song_name);
    let r = insert_song(songs, t);
    assert forall|i: int, j: int| 0 <= i < j < r.len() implies !text_lt(
        #[trigger] r[j].song_name,
        #[trigger] r[i].song_name,
    ) by {
        let a = if i < k { i } else if i == k { -1 } else { i - 1 };
        let b = if j < k { j } else if j == k { -1 } else { j - 1 };
        if i == k {
            // r[i] is t; r[j] is songs[b] with b >= k
            assert(r[i] == t);
            assert(r[j] == songs[b]);
            if text_lt(songs[b].song_name, t.song_name) {
                if b == k {
                    lemma_lt_asymmetric(t.song_name, songs[k].song_name);
                } else {
                    assert(!text_lt(songs[b].song_name, songs[k].song_name));
                    lemma_lt_transitive(songs[b].song_name, t.song_name, songs[k].song_name);
                }
            }
        } else if j == k {
            assert(r[j] == t);
            assert(r[i] == songs[a]);
        } else {
            assert(r[i] == songs[a]);
            assert(r[j] == songs[b]);
        }
    }
}

proof fn lemma_add_tab_wf(gs: Seq<ArtistGroupView>, t: SummaryView)
    requires
        library_wf(gs),
    ensures
        library_wf(add_tab(gs, t)),
        song_count(add_tab(gs, t)) == song_count(gs) + 1,
{
    let p = groups_before(gs, t.artist_name) as int;
    lemma_groups_before(gs, t.artist_name);
    let r = add_tab(gs, t);
    if p < gs.len() && gs[p].artist == t.artist_name {
        let g = ArtistGroupView { artist: gs[p].artist, songs: insert_song(gs[p].songs, t) };
        lemma_insert_song_sorted(gs[p].songs, t);
        lemma_songs_up_to(gs[p].songs, t.song_name);
        let k = songs_up_to(gs[p].songs, t.song_name) as int;
        assert forall|m: int| 0 <= m < g.songs.len() implies (#[trigger] g.songs[m]).artist_name == g.artist by {
            if m < k {
                assert(g.songs[m] == gs[p].songs[m]);
            } else if m > k {
                assert(g.songs[m] == gs[p].songs[m - 1]);
            }
        }
        assert forall|i: int| 0 <= i < r.len() implies {
            &&& (#[trigger] r[i]).songs.len() > 0
            &&& songs_sorted(r[i].songs)
            &&& forall|k: int| 0 <= k < r[i].songs.len() ==> (#[trigger] r[i].songs[k]).artist_name == r[i].artist
        } by {
            if i == p {
                assert(r[i] == g);
            } else {
                assert(r[i] == gs[i]);
            }
        }
        lemma_song_count_update(gs, p, g);
    } else {
        let g = ArtistGroupView { artist: t.artist_name, songs: seq![t] };
        if p < gs.len() {
            lemma_lt_total(gs[p].artist, t.artist_name);
        }
        assert forall|i: int, j: int| 0 <= i < j < r.len() implies text_lt(
            #[trigger] r[i].artist,
            #[trigger] r[j].artist,
        ) by {
            if j < p {
                assert(r[i] == gs[i] && r[j] == gs[j]);
            } else if j == p {
                assert(r[i] == gs[i] && r[j] == g);
            } else if i < p {
                assert(r[i] == gs[i] && r[j] == gs[j - 1]);
                if j - 1 > p {
                    lemma_lt_transitive(t.artist_name, gs[p].artist, gs[j - 1].artist);
                }
                lemma_lt_transitive(gs[i].artist, t.artist_name, gs[j - 1].artist);
            } else if i == p {
                assert(r[i] == g && r[j] == gs[j - 1]);
                if j - 1 > p {
                    lemma_lt_transitive(t.artist_name, gs[p].artist, gs[j - 1].artist);
                }
            } else {
                assert(r[i] == gs[i - 1] && r[j] == gs[j - 1]);
            }
        }
        assert forall|i: int| 0 <= i < r.len() implies {
            &&& (#[trigger] r[i]).songs.len() > 0
            &&& songs_sorted(r[i].songs)
            &&& forall|k: int| 0 <= k < r[i].songs.len() ==> (#[trigger] r[i].songs[k]).artist_name == r[i].artist
        } by {
            if i < p {
                assert(r[i] == gs[i]);
            } else if i == p {
                assert(r[i] == g);
            } else {
                assert(r[i] == gs[i - 1]);
            }
        }
        lemma_song_count_insert(gs, p, g);
    }
}

proof fn lemma_song_count_update(gs: Seq<ArtistGroupView>, p: int, g: ArtistGroupView)
    requires
        0 <= p < gs.len(),
    ensures
        song_count(gs.update(p, g)) == song_count(gs) - gs[p].songs.len() + g.songs.len(),
    decreases gs.len(),
{
    if p < gs.len() - 1 {
        lemma_song_count_update(gs.drop_last(), p, g);
        assert(gs.update(p, g).drop_last() =~= gs.drop_last().update(p, g));
    } else {
        assert(gs.update(p, g).drop_last() =~= gs.drop_last());
    }
}

proof fn lemma_song_count_insert(gs: Seq<ArtistGroupView>, p: int, g: ArtistGroupView)
    requires
        0 <= p <= gs.len(),
    ensures
        song_count(gs.take(p) + seq![g] + gs.skip(p)) == song_count(gs) + g.songs.len(),
    decreases gs.len(),
{
    let r = gs.take(p) + seq![g] + gs.skip(p);
    if p == gs.len() {
        assert(r.drop_last() =~= gs);
    } else {
        lemma_song_count_insert(gs.drop_last(), p, g);
        assert(r.drop_last() =~= gs.drop_last().take(p) + seq![g] + gs.drop_last().skip(p));
    }
}

/// The library lists every saved song exactly once per save: artists strictly in
/// order, each artist once, with all of its songs and only those, ordered by title.
pub proof fn law_library_groups_ordered(ts: Seq<SummaryView>)
    ensures
        library_wf(artist_groups(ts)),
        song_count(artist_groups(ts)) == ts.len(),
    decreases ts.len(),
{
    if ts.len() > 0 {
        law_library_groups_ordered(ts.drop_last());
        lemma_add_tab_wf(artist_groups(ts.drop_last()), ts.last());
    }
}

} // verus!
