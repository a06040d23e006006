use vstd::prelude::*;

use crate::data::models::{
    tab_type_name, GroupView, ResultView, SearchResult, SongGroup,
};
use crate::text::{decimal, digit_char, push_decimal, push_str, string_from_chars};

verus! {

/// How `Display` writes the rating `tenths / 10`: the whole part, then a point and
/// the tenths digit unless it is zero ("4.5", "4", "-0.5").
pub open spec fn rating_text_spec(tenths: int) -> Seq<char> {
    let m = if tenths < 0 {
        -tenths
    } else {
        tenths
    };
    let sign = if tenths < 0 {
        seq!['-']
    } else {
        Seq::<char>::empty()
    };
    if m % 10 == 0 {
        sign + decimal((m / 10) as nat)
    } else {
        sign + decimal((m / 10) as nat) + seq!['.', digit_char((m % 10) as nat)]
    }
}

/// The rating shown beside a version, from its value in tenths.
pub fn rating_text(tenths: i64) -> (r: String)
    ensures
        r@ == rating_text_spec(tenths as int),
{
    let mut v: Vec<char> = Vec::new();
    let m: u64 = if tenths < 0 {
        v.push('-');
        ((-(tenths + 1)) as u64) + 1
    } else {
        tenths as u64
    };
    push_decimal(&mut v, m / 10);
    let d = m % 10;
    if d != 0 {
        v.push('.');
        v.push(((d as u8) + 48) as char);
    }
    assert(v@ =~= rating_text_spec(tenths as int));
    string_from_chars(&v)
}

/// The rating label of a version: shown only once somebody has voted.
pub open spec fn rating_label_spec(r: ResultView) -> Option<Seq<char>> {
    if r.votes > 0 {
        Some(rating_text_spec(r.rating_tenths as int))
    } else {
        None
    }
}

/// The title of a version's row: its type, and its version number past the first.
pub open spec fn version_title_spec(r: ResultView) -> Seq<char> {
    if r.version > 1 {
        tab_type_name(r.tab_type) + seq![' ', 'v', 'e', 'r', ' '] + decimal(r.version as nat)
    } else {
        tab_type_name(r.tab_type)
    }
}

/// "n other version" or "n other versions".
pub open spec fn other_versions_spec(n: nat) -> Seq<char> {
    decimal(n) + seq![' ', 'o', 't', 'h', 'e', 'r', ' ', 'v', 'e', 'r', 's', 'i', 'o', 'n'] + if n
        == 1 {
        Seq::<char>::empty()
    } else {
        seq!['s']
    }
}

/// The subtitle of a group's row: the artist, and the number of other versions when
/// there are several.
pub open spec fn group_subtitle_spec(g: GroupView) -> Seq<char> {
    if g.versions.len() == 1 {
        g.artist_name
    } else {
        g.artist_name + seq![' ', '·', ' '] + other_versions_spec((g.versions.len() - 1) as nat)
    }
}

/// What is shown beside a version: its rating (if voted on) and its type.
pub struct VersionLabel {
    pub rating: Option<String>,
    pub kind: String,
}

/// A version of a song, in the list under its group.
pub struct VersionRow {
    pub title: String,
    pub label: VersionLabel,
    pub tab_url: String,
}

/// One song in the results list. A song with one version is a plain row; with
/// several it can be opened to list them all (`versions`), best first.
pub struct GroupRow {
    pub title: String,
    pub subtitle: String,
    /// The version that activating the row opens: the best one.
    pub open_url: String,
    pub best_label: VersionLabel,
    pub versions: Vec<VersionRow>,
}

pub open spec fn opt_view(o: Option<String>) -> Option<Seq<char>> {
    match o {
        Some(s) => Some(s@),
        None => None,
    }
}

pub open spec fn label_matches(l: VersionLabel, r: ResultView) -> bool {
    &&& opt_view(l.rating) == rating_label_spec(r)
    &&& l.kind@ == tab_type_name(r.tab_type)
}

pub open spec fn version_row_matches(v: VersionRow, r: ResultView) -> bool {
    &&& v.title@ == version_title_spec(r)
    &&& label_matches(v.label, r)
    &&& v.tab_url@ == r.tab_url
}

/// The rating label of a version, if it has votes.
pub fn rating_label(r: &SearchResult) -> (s: Option<String>)
    ensures
        opt_view(s) == rating_label_spec(r@),
{
    if r.votes > 0 {
        Some(rating_text(r.rating_tenths))
    } else {
        None
    }
}

/// The title of a version's row.
pub fn version_title(r: &SearchResult) -> (s: String)
    ensures
        s@ == version_title_spec(r@),
{
    let mut v: Vec<char> = Vec::new();
    push_str(&mut v, r.tab_type.display_name());
    if r.version > 1 {
        proof {
            reveal_strlit(" ver ");
        }
        push_str(&mut v, " ver ");
        push_decimal(&mut v, r.version as u64);
    }
    assert(v@ =~= version_title_spec(r@));
    string_from_chars(&v)
}

/// "n other version(s)".
pub fn other_versions_text(n: usize) -> (s: String)
    ensures
        s@ == other_versions_spec(n as nat),
{
    let mut v: Vec<char> = Vec::new();
    push_decimal(&mut v, n as u64);
    proof {
        reveal_strlit(" other version");
    }
    push_str(&mut v, " other version");
    if n != 1 {
        v.push('s');
    }
    assert(v@ =~= other_versions_spec(n as nat));
    string_from_chars(&v)
}

/// The subtitle of a group's row.
pub fn group_subtitle(g: &SongGroup) -> (s: String)
    requires
        g.versions@.len() >= 1,
    ensures
        s@ == group_subtitle_spec(g@),
{
    if g.versions.len() == 1 {
        g.artist_name.clone()
    } else {
        let mut v: Vec<char> = Vec::new();
        push_str(&mut v, g.artist_name.as_str());
        proof {
            reveal_strlit(" · ");
        }
        push_str(&mut v, " · ");
        let t = other_versions_text(g.versions.len() - 1);
        push_str(&mut v, t.as_str());
        assert(v@ =~= group_subtitle_spec(g@));
        string_from_chars(&v)
    }
}

/// The label beside a version.
pub fn version_label(r: &SearchResult) -> (l: VersionLabel)
    ensures
        label_matches(l, r@),
{
    VersionLabel { rating: rating_label(r), kind: r.tab_type.display_name().to_owned() }
}

/// The row of one version.
pub fn version_row(r: &SearchResult) -> (v: VersionRow)
    ensures
        version_row_matches(v, r@),
{
    VersionRow { title: version_title(r), label: version_label(r), tab_url: r.tab_url.clone() }
}

/// The row of a song group: one version is a plain row; several are listed under it.
pub fn group_row(g: &SongGroup) -> (row: GroupRow)
    requires
        g.versions@.len() >= 1,
    ensures
        row.title@ == g@.song_name,
        row.subtitle@ == group_subtitle_spec(g@),
        row.open_url@ == g@.versions[0].tab_url,
        label_matches(row.best_label, g@.versions[0]),
        g@.versions.len() == 1 ==> row.versions@.len() == 0,
        g@.versions.len() > 1 ==> row.versions@.len() == g@.versions.len(),
        g@.versions.len() > 1 ==> forall|i: int|
            0 <= i < g@.versions.len() ==> version_row_matches(
                #[trigger] row.versions@[i],
                g@.versions[i],
            ),
{
    let best = g.best();
    let mut versions: Vec<VersionRow> = Vec::new();
    if g.versions.len() > 1 {
        let mut i: usize = 0;
        while i < g.versions.len()
            invariant
                i <= g.versions@.len(),
                versions@.len() == i,
                forall|k: int| 0 <= k < i ==> version_row_matches(
                    #[trigger] versions@[k],
                    g@.versions[k],
                ),
            decreases g.versions@.len() - i,
        {
            let row = version_row(&g.versions[i]);
            versions.push(row);
            i = i + 1;
        }
    }
    GroupRow {
        title: g.song_name.clone(),
        subtitle: group_subtitle(g),
        open_url: best.tab_url.clone(),
        best_label: version_label(best),
        versions,
    }
}

} // verus!
