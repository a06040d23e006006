use vstd::prelude::*;

use crate::data::models::{
    chord_display, chord_views, line_views, ChordPosition, ChordView, LineKind, LineView,
    ParsedLine,
};
use crate::text::{
    chars_of, is_decimal_digit, is_digit, is_whitespace, is_ws, lemma_utf8_len_concat, len_utf8,
    push_all, string_from_chars, sub_chars, trim, trim_chars, utf8_len, utf8_len_range,
};

use crate::music::transpose::{law_parsed_content_chords_placed, lemma_trim_of_clean, line_placed};

verus! {

// ---------------------------------------------------------------------------
// The chord marker grammar
//
//   "[ch]" ROOT QUALITY ("/" NOTE)? "[/ch]"
//   ROOT, NOTE = a letter A-H or a-h, then optionally '#' or 'b'
//   QUALITY    = any run of characters other than '[' and '/'
//
// Markers are found left to right; after a marker the search resumes at its end.
// ---------------------------------------------------------------------------

pub open spec fn open_tag() -> Seq<char> {
    seq!['[', 'c', 'h', ']']
}

pub open spec fn close_tag() -> Seq<char> {
    seq!['[', '/', 'c', 'h', ']']
}

/// `t` occurs in `s` at position `p`.
pub open spec fn has_at(s: Seq<char>, p: int, t: Seq<char>) -> bool {
    0 <= p && p + t.len() <= s.len() && s.subrange(p, p + t.len()) == t
}

pub open spec fn is_note_letter(c: char) -> bool {
    ('A' <= c && c <= 'H') || ('a' <= c && c <= 'h')
}

pub open spec fn is_accidental(c: char) -> bool {
    c == '#' || c == 'b'
}

/// End of a note name whose letter is at `i`: an accidental right after it belongs to it.
pub open spec fn note_end(s: Seq<char>, i: int) -> int {
    if i + 1 < s.len() && is_accidental(s[i + 1]) {
        i + 2
    } else {
        i + 1
    }
}

/// End of the run of characters other than '[' and '/' that starts at `i`.
pub open spec fn quality_end(s: Seq<char>, i: int) -> int
    decreases s.len() - i,
{
    if 0 <= i < s.len() && s[i] != '[' && s[i] != '/' {
        quality_end(s, i + 1)
    } else {
        i
    }
}

/// Where the parts of one chord marker lie: `start` is the '[' of "[ch]", the root runs
/// from `start + 4` to `root_end`, the quality to `quality_end`, the bass ('/' and note)
/// to `bass_end` (equal to `quality_end` when there is none), and "[/ch]" ends at `end`.
pub struct Span {
    pub start: int,
    pub root_end: int,
    pub quality_end: int,
    pub bass_end: int,
    pub end: int,
}

/// The chord marker that starts at `p`, if there is one.
pub open spec fn chord_at(s: Seq<char>, p: int) -> Option<Span> {
    if has_at(s, p, open_tag()) && p + 4 < s.len() && is_note_letter(s[p + 4]) {
        let re = note_end(s, p + 4);
        let qe = quality_end(s, re);
        if 0 <= qe < s.len() && s[qe] == '/' {
            if qe + 1 < s.len() && is_note_letter(s[qe + 1]) {
                let be = note_end(s, qe + 1);
                if has_at(s, be, close_tag()) {
                    Some(Span { start: p, root_end: re, quality_end: qe, bass_end: be, end: be + 5 })
                } else {
                    None
                }
            } else {
                None
            }
        } else if has_at(s, qe, close_tag()) {
            Some(Span { start: p, root_end: re, quality_end: qe, bass_end: qe, end: qe + 5 })
        } else {
            None
        }
    } else {
        None
    }
}

pub proof fn lemma_quality_end(s: Seq<char>, i: int)
    requires
        0 <= i <= s.len(),
    ensures
        i <= quality_end(s, i) <= s.len(),
        forall|j: int| i <= j < quality_end(s, i) ==> s[j] != '[' && s[j] != '/',
        quality_end(s, i) < s.len() ==> s[quality_end(s, i)] == '[' || s[quality_end(s, i)]
            == '/',
    decreases s.len() - i,
{
    if i < s.len() && s[i] != '[' && s[i] != '/' {
        lemma_quality_end(s, i + 1);
    }
}

pub proof fn lemma_chord_at(s: Seq<char>, p: int)
    requires
        chord_at(s, p) is Some,
    ensures
        ({
            let m = chord_at(s, p)->0;
            &&& m.start == p
            &&& 0 <= p
            &&& p + 5 <= m.root_end <= m.quality_end <= m.bass_end
            &&& m.end == m.bass_end + 5
            &&& m.end <= s.len()
            &&& m.root_end <= p + 6
            &&& (m.bass_end > m.quality_end ==> s[m.quality_end] == '/' && m.quality_end + 2
                <= m.bass_end)
        }),
{
    let re = note_end(s, p + 4);
    lemma_quality_end(s, re);
}

/// All chord markers of `s` at or after position `from`, left to right.
pub open spec fn chord_spans(s: Seq<char>, from: int) -> Seq<Span>
    decreases s.len() - from,
{
    if 0 <= from < s.len() {
        match chord_at(s, from) {
            Some(m) => {
                proof {
                    lemma_chord_at(s, from);
                }
                seq![m] + chord_spans(s, m.end)
            },
            None => chord_spans(s, from + 1),
        }
    } else {
        Seq::empty()
    }
}

/// Spans lie in `s` in order, each after `from` and after the one before it.
pub open spec fn spans_ordered(s: Seq<char>, ms: Seq<Span>, from: int) -> bool {
    &&& forall|i: int|
        0 <= i < ms.len() ==> {
            let m = #[trigger] ms[i];
            &&& chord_at(s, m.start) == Some(m)
            &&& from <= m.start
        }
    &&& forall|i: int, j: int| 0 <= i < j < ms.len() ==> #[trigger] ms[i].end <= #[trigger] ms[j].start
}

pub proof fn lemma_chord_spans(s: Seq<char>, from: int)
    requires
        0 <= from,
    ensures
        spans_ordered(s, chord_spans(s, from), from),
    decreases s.len() - from,
{
    if 0 <= from < s.len() {
        match chord_at(s, from) {
            Some(m) => {
                lemma_chord_at(s, from);
                lemma_chord_spans(s, m.end);
                let rest = chord_spans(s, m.end);
                let all = seq![m] + rest;
                assert forall|i: int, j: int| 0 <= i < j < all.len() implies #[trigger] all[i].end
                    <= #[trigger] all[j].start by {
                    if i > 0 {
                        assert(all[i] == rest[i - 1]);
                    }
                    assert(all[j] == rest[j - 1]);
                }
                assert forall|i: int| 0 <= i < all.len() implies {
                    let m = #[trigger] all[i];
                    &&& chord_at(s, m.start) == Some(m)
                    &&& from <= m.start
                } by {
                    if i > 0 {
                        assert(all[i] == rest[i - 1]);
                    }
                }
            },
            None => {
                lemma_chord_spans(s, from + 1);
            },
        }
    }
}

// ---------------------------------------------------------------------------
// Turning markers into plain text and chord positions
// ---------------------------------------------------------------------------

/// The chord as it is shown: root, quality and bass with its '/'.
pub open spec fn span_text(s: Seq<char>, m: Span) -> Seq<char> {
    s.subrange(m.start + 4, m.bass_end)
}

/// The chord a marker denotes, placed at byte offset `column`.
pub open spec fn span_chord(s: Seq<char>, m: Span, column: int) -> ChordView {
    ChordView {
        column: column,
        root: s.subrange(m.start + 4, m.root_end),
        quality: s.subrange(m.root_end, m.quality_end),
        bass: if m.bass_end > m.quality_end {
            Some(s.subrange(m.quality_end + 1, m.bass_end))
        } else {
            None
        },
    }
}

/// Plain text and chords built from the markers `ms`, and where in `s` the text after
/// the last of them starts.
pub struct LineBuild {
    pub plain: Seq<char>,
    pub chords: Seq<ChordView>,
    pub last: int,
}

/// Each marker is replaced by its chord text; a chord's column is the byte length of
/// the plain text before it.
pub open spec fn build(s: Seq<char>, ms: Seq<Span>) -> LineBuild
    decreases ms.len(),
{
    if ms.len() == 0 {
        LineBuild { plain: Seq::empty(), chords: Seq::empty(), last: 0 }
    } else {
        let b = build(s, ms.drop_last());
        let m = ms.last();
        let before = b.plain + s.subrange(b.last, m.start);
        LineBuild {
            plain: before + span_text(s, m),
            chords: b.chords.push(span_chord(s, m, utf8_len(before) as int)),
            last: m.end,
        }
    }
}

/// `s` with every chord marker replaced by its chord text.
pub open spec fn rendered(s: Seq<char>) -> Seq<char> {
    let b = build(s, chord_spans(s, 0));
    b.plain + s.subrange(b.last, s.len() as int)
}

/// Number of characters of `t` that are not whitespace.
pub open spec fn count_non_ws(t: Seq<char>) -> nat
    decreases t.len(),
{
    if t.len() == 0 {
        0
    } else {
        count_non_ws(t.drop_last()) + if is_ws(t.last()) {
            0nat
        } else {
            1nat
        }
    }
}

/// Sum of the byte lengths of the chords' display names.
pub open spec fn chords_len(cs: Seq<ChordView>) -> nat
    decreases cs.len(),
{
    if cs.len() == 0 {
        0
    } else {
        chords_len(cs.drop_last()) + utf8_len(chord_display(cs.last()))
    }
}

// ---------------------------------------------------------------------------
// Section headers: "[" KEYWORD WHITESPACE* DIGITS* "]" at the start of the trimmed line
// ---------------------------------------------------------------------------

pub open spec fn section_keyword(k: int) -> Seq<char> {
    if k == 0 {
        seq!['I', 'n', 't', 'r', 'o']
    } else if k == 1 {
        seq!['V', 'e', 'r', 's', 'e']
    } else if k == 2 {
        seq!['C', 'h', 'o', 'r', 'u', 's']
    } else if k == 3 {
        seq!['B', 'r', 'i', 'd', 'g', 'e']
    } else if k == 4 {
        seq!['O', 'u', 't', 'r', 'o']
    } else if k == 5 {
        seq!['S', 'o', 'l', 'o']
    } else if k == 6 {
        seq!['I', 'n', 't', 'e', 'r', 'l', 'u', 'd', 'e']
    } else if k == 7 {
        seq!['P', 'r', 'e', '-', 'C', 'h', 'o', 'r', 'u', 's']
    } else if k == 8 {
        seq!['P', 'o', 's', 't', '-', 'C', 'h', 'o', 'r', 'u', 's']
    } else if k == 9 {
        seq!['H', 'o', 'o', 'k']
    } else if k == 10 {
        seq!['I', 'n', 's', 't', 'r', 'u', 'm', 'e', 'n', 't', 'a', 'l']
    } else if k == 11 {
        seq!['B', 'r', 'e', 'a', 'k']
    } else if k == 12 {
        seq!['R', 'e', 'f', 'r', 'a', 'i', 'n']
    } else if k == 13 {
        seq!['C', 'o', 'd', 'a']
    } else if k == 14 {
        seq!['E', 'n', 'd', 'i', 'n', 'g']
    } else if k == 15 {
        seq!['R', 'i', 'f', 'f']
    } else if k == 16 {
        seq!['T', 'a', 'b']
    } else {
        seq!['C', 'a', 'p', 'o']
    }
}

/// The first keyword (from number `k` on) that occurs right after the opening '['.
pub open spec fn keyword_from(t: Seq<char>, k: int) -> Option<int>
    decreases 18 - k,
{
    if k < 0 || k >= 18 {
        None
    } else if has_at(t, 1, section_keyword(k)) {
        Some(k)
    } else {
        keyword_from(t, k + 1)
    }
}

/// End of the run of whitespace that starts at `i`.
pub open spec fn skip_ws(t: Seq<char>, i: int) -> int
    decreases t.len() - i,
{
    if 0 <= i < t.len() && is_ws(t[i]) {
        skip_ws(t, i + 1)
    } else {
        i
    }
}

/// End of the run of decimal digits that starts at `i`.
pub open spec fn skip_digits(t: Seq<char>, i: int) -> int
    decreases t.len() - i,
{
    if 0 <= i < t.len() && is_decimal_digit(t[i]) {
        skip_digits(t, i + 1)
    } else {
        i
    }
}

/// `t` starts with a section header such as "[Verse 1]" or "[Chorus]".
pub open spec fn is_section_header(t: Seq<char>) -> bool {
    &&& t.len() > 0
    &&& t[0] == '['
    &&& match keyword_from(t, 0) {
        Some(k) => {
            let j = skip_digits(t, skip_ws(t, 1 + section_keyword(k).len() as int));
            0 <= j < t.len() && t[j] == ']'
        },
        None => false,
    }
}

/// What one raw line of tab content parses to.
pub open spec fn parse_line_spec(raw: Seq<char>) -> LineView {
    let t = trim(raw);
    let ms = chord_spans(raw, 0);
    let b = build(raw, ms);
    let content = b.plain + raw.subrange(b.last, raw.len() as int);
    if t.len() == 0 {
        LineView { kind: LineKind::Empty, content: Seq::empty(), chords: Seq::empty() }
    } else if is_section_header(t) {
        LineView { kind: LineKind::SectionHeader, content: content, chords: Seq::empty() }
    } else if ms.len() == 0 {
        LineView { kind: LineKind::LyricLine, content: raw, chords: Seq::empty() }
    } else {
        LineView {
            kind: if count_non_ws(content) <= chords_len(b.chords) + 2 {
                LineKind::ChordLine
            } else {
                LineKind::LyricLine
            },
            content: content,
            chords: b.chords,
        }
    }
}


// ---------------------------------------------------------------------------
// Executable scanner
// ---------------------------------------------------------------------------

/// Where the parts of a chord marker lie (see `Span`).
#[derive(Debug, Clone, Copy)]
pub struct ChordSpan {
    pub start: usize,
    pub root_end: usize,
    pub quality_end: usize,
    pub bass_end: usize,
    pub end: usize,
}

impl View for ChordSpan {
    type V = Span;

    open spec fn view(&self) -> Span {
        Span {
            start: self.start as int,
            root_end: self.root_end as int,
            quality_end: self.quality_end as int,
            bass_end: self.bass_end as int,
            end: self.end as int,
        }
    }
}

pub open spec fn span_views(ms: Seq<ChordSpan>) -> Seq<Span> {
    ms.map_values(|m: ChordSpan| m@)
}

/// Whether `t` occurs in `s` at `p`.
pub fn has_at_exec(s: &[char], p: usize, t: &[char]) -> (r: bool)
    ensures
        r == has_at(s@, p as int, t@),
{
    let n = s.len();
    if t.len() > n || p > n - t.len() {
        return false;
    }
    let mut i: usize = 0;
    while i < t.len()
        invariant
            n == s@.len(),
            p + t@.len() <= s@.len(),
            i <= t@.len(),
            forall|j: int| 0 <= j < i ==> s@[p + j] == t@[j],
        decreases t@.len() - i,
    {
        if s[p + i] != t[i] {
            assert(s@.subrange(p as int, p + t@.len())[i as int] != t@[i as int]);
            return false;
        }
        i = i + 1;
    }
    assert(s@.subrange(p as int, p + t@.len()) =~= t@);
    true
}

fn is_note_letter_exec(c: char) -> (r: bool)
    ensures
        r == is_note_letter(c),
{
    ('A' <= c && c <= 'H') || ('a' <= c && c <= 'h')
}

fn note_end_exec(s: &[char], i: usize) -> (r: usize)
    requires
        i < s@.len(),
    ensures
        r == note_end(s@, i as int),
{
    let n = s.len();
    if i + 1 < n && (s[i + 1] == '#' || s[i + 1] == 'b') {
        i + 2
    } else {
        i + 1
    }
}

fn quality_end_exec(s: &[char], i: usize) -> (r: usize)
    requires
        i <= s@.len(),
    ensures
        r == quality_end(s@, i as int),
{
    let mut j = i;
    while j < s.len() && s[j] != '[' && s[j] != '/'
        invariant
            i <= j <= s@.len(),
            quality_end(s@, i as int) == quality_end(s@, j as int),
        decreases s@.len() - j,
    {
        j = j + 1;
    }
    j
}

/// The chord marker that starts at `p`, if there is one.
pub fn chord_at_exec(s: &[char], p: usize) -> (r: Option<ChordSpan>)
    requires
        p < s@.len(),
    ensures
        match r {
            Some(m) => chord_at(s@, p as int) == Some(m@),
            None => chord_at(s@, p as int) is None,
        },
{
    let open: [char; 4] = ['[', 'c', 'h', ']'];
    let close: [char; 5] = ['[', '/', 'c', 'h', ']'];
    assert(open@ =~= open_tag());
    assert(close@ =~= close_tag());
    let n = s.len();
    if !(has_at_exec(s, p, &open) && p + 4 < n && is_note_letter_exec(s[p + 4])) {
        return None;
    }
    let re = note_end_exec(s, p + 4);
    proof {
        lemma_quality_end(s@, re as int);
    }
    let qe = quality_end_exec(s, re);
    if qe < s.len() && s[qe] == '/' {
        if qe + 1 < s.len() && is_note_letter_exec(s[qe + 1]) {
            let be = note_end_exec(s, qe + 1);
            if has_at_exec(s, be, &close) {
                Some(ChordSpan { start: p, root_end: re, quality_end: qe, bass_end: be, end: be + 5 })
            } else {
                None
            }
        } else {
            None
        }
    } else if has_at_exec(s, qe, &close) {
        Some(ChordSpan { start: p, root_end: re, quality_end: qe, bass_end: qe, end: qe + 5 })
    } else {
        None
    }
}

/// All chord markers of `s`, left to right.
pub fn find_chord_spans(s: &[char]) -> (r: Vec<ChordSpan>)
    ensures
        span_views(r@) == chord_spans(s@, 0),
{
    let mut r: Vec<ChordSpan> = Vec::new();
    let mut pos: usize = 0;
    while pos < s.len()
        invariant
            pos <= s@.len(),
            span_views(r@) + chord_spans(s@, pos as int) == chord_spans(s@, 0),
        decreases s@.len() - pos,
    {
        match chord_at_exec(s, pos) {
            Some(m) => {
                proof {
                    lemma_chord_at(s@, pos as int);
                    assert(span_views(r@.push(m)) =~= span_views(r@).push(m@));
                    assert(chord_spans(s@, pos as int) == seq![m@] + chord_spans(s@, m.end as int));
                    assert(span_views(r@).push(m@) + chord_spans(s@, m.end as int) =~= span_views(r@)
                        + (seq![m@] + chord_spans(s@, m.end as int)));
                }
                r.push(m);
                pos = m.end;
            },
            None => {
                pos = pos + 1;
            },
        }
    }
    assert(span_views(r@) + chord_spans(s@, pos as int) =~= span_views(r@));
    r
}

proof fn lemma_utf8_len_split(s: Seq<char>, a: int, b: int, c: int)
    requires
        0 <= a <= b <= c <= s.len(),
    ensures
        utf8_len(s.subrange(a, c)) == utf8_len(s.subrange(a, b)) + utf8_len(s.subrange(b, c)),
{
    assert(s.subrange(a, b) + s.subrange(b, c) =~= s.subrange(a, c));
    lemma_utf8_len_concat(s.subrange(a, b), s.subrange(b, c));
}

/// The text and chords built from a line's markers.
pub struct Built {
    pub plain: Vec<char>,
    pub chords: Vec<ChordPosition>,
    pub last: usize,
    pub text_len: usize,
}

/// The chord a marker denotes, placed at `column`.
fn make_chord(s: &[char], m: ChordSpan, column: usize) -> (r: ChordPosition)
    requires
        chord_at(s@, m.start as int) == Some(m@),
    ensures
        r@ == span_chord(s@, m@, column as int),
        chord_display(r@) == span_text(s@, m@),
{
    proof {
        lemma_chord_at(s@, m.start as int);
    }
    let root = string_from_chars(&sub_chars(s, m.start + 4, m.root_end));
    let quality = string_from_chars(&sub_chars(s, m.root_end, m.quality_end));
    let bass = if m.bass_end > m.quality_end {
        Some(string_from_chars(&sub_chars(s, m.quality_end + 1, m.bass_end)))
    } else {
        None
    };
    let r = ChordPosition { column, root, quality, bass };
    assert(chord_display(r@) =~= span_text(s@, m@));
    r
}

pub proof fn lemma_build_step(s: Seq<char>, sv: Seq<Span>, i: int)
    requires
        0 <= i < sv.len(),
    ensures
        ({
            let b = build(s, sv.take(i));
            let m = sv[i];
            let before = b.plain + s.subrange(b.last, m.start);
            build(s, sv.take(i + 1)) == LineBuild {
                plain: before + span_text(s, m),
                chords: b.chords.push(span_chord(s, m, utf8_len(before) as int)),
                last: m.end,
            }
        }),
{
    assert(sv.take(i + 1).drop_last() =~= sv.take(i));
    assert(sv.take(i + 1).last() == sv[i]);
}

proof fn lemma_chords_len_push(cs: Seq<ChordView>, c: ChordView)
    ensures
        chords_len(cs.push(c)) == chords_len(cs) + utf8_len(chord_display(c)),
{
    assert(cs.push(c).drop_last() =~= cs);
}

#[verifier::rlimit(40)]
fn build_line(s: &[char], ms: &Vec<ChordSpan>) -> (r: Built)
    requires
        spans_ordered(s@, span_views(ms@), 0),
        utf8_len(s@) <= usize::MAX,
    ensures
        r.plain@ == build(s@, span_views(ms@)).plain,
        chord_views(r.chords@) == build(s@, span_views(ms@)).chords,
        r.last == build(s@, span_views(ms@)).last,
        r.last <= s@.len(),
        r.text_len == chords_len(build(s@, span_views(ms@)).chords),
{
    let ghost sv = span_views(ms@);
    let mut plain: Vec<char> = Vec::new();
    let mut chords: Vec<ChordPosition> = Vec::new();
    let mut last: usize = 0;
    let mut plain_len: usize = 0;
    let mut text_len: usize = 0;
    let mut i: usize = 0;
    proof {
        assert(sv.take(0) =~= Seq::<Span>::empty());
        assert(chord_views(chords@) =~= Seq::<ChordView>::empty());
        assert(s@.subrange(0, s@.len() as int) =~= s@);
    }
    while i < ms.len()
        invariant
            sv == span_views(ms@),
            spans_ordered(s@, sv, 0),
            utf8_len(s@) <= usize::MAX,
            i <= ms@.len(),
            plain@ == build(s@, sv.take(i as int)).plain,
            chord_views(chords@) == build(s@, sv.take(i as int)).chords,
            last == build(s@, sv.take(i as int)).last,
            last <= s@.len(),
            i < ms@.len() ==> last <= ms@[i as int].start,
            plain_len == utf8_len(plain@),
            plain_len <= utf8_len(s@.subrange(0, last as int)),
            text_len == chords_len(build(s@, sv.take(i as int)).chords),
            text_len <= plain_len,
        decreases ms@.len() - i,
    {
        let m = ms[i];
        let ghost mv = m@;
        let ghost b = build(s@, sv.take(i as int));
        proof {
            assert(sv[i as int] == mv);
            lemma_chord_at(s@, mv.start);
            lemma_utf8_len_split(s@, 0, last as int, m.start as int);
            lemma_utf8_len_split(s@, 0, m.start as int, m.end as int);
            lemma_utf8_len_split(s@, m.start as int, m.start + 4, m.end as int);
            lemma_utf8_len_split(s@, m.start + 4, m.bass_end as int, m.end as int);
            lemma_utf8_len_split(s@, 0, m.end as int, s@.len() as int);
            assert(s@.subrange(0, s@.len() as int) =~= s@);
            lemma_build_step(s@, sv, i as int);
            if i + 1 < ms@.len() {
                assert(sv[i as int].end <= sv[i + 1].start);
            }
        }
        let between = sub_chars(s, last, m.start);
        let between_len = utf8_len_range(s, last, m.start);
        let ghost plain0 = plain@;
        push_all(&mut plain, &between);
        proof {
            lemma_utf8_len_concat(plain0, between@);
        }
        let ghost before = plain@;
        plain_len = plain_len + between_len;
        let column = plain_len;
        let text = sub_chars(s, m.start + 4, m.bass_end);
        let this_len = utf8_len_range(s, m.start + 4, m.bass_end);
        push_all(&mut plain, &text);
        proof {
            lemma_utf8_len_concat(before, text@);
        }
        plain_len = plain_len + this_len;
        let chord = make_chord(s, m, column);
        proof {
            assert(chord_views(chords@.push(chord)) =~= chord_views(chords@).push(chord@));
            lemma_chords_len_push(b.chords, chord@);
        }
        chords.push(chord);
        text_len = text_len + this_len;
        last = m.end;
        i = i + 1;
    }
    proof {
        assert(sv.take(ms@.len() as int) =~= sv);
    }
    Built { plain, chords, last, text_len }
}

/// The keyword numbered `k` as characters.
fn section_keyword_chars(k: usize) -> (r: Vec<char>)
    requires
        k < 18,
    ensures
        r@ == section_keyword(k as int),
{
    let v = if k == 0 {
        vec!['I', 'n', 't', 'r', 'o']
    } else if k == 1 {
        vec!['V', 'e', 'r', 's', 'e']
    } else if k == 2 {
        vec!['C', 'h', 'o', 'r', 'u', 's']
    } else if k == 3 {
        vec!['B', 'r', 'i', 'd', 'g', 'e']
    } else if k == 4 {
        vec!['O', 'u', 't', 'r', 'o']
    } else if k == 5 {
        vec!['S', 'o', 'l', 'o']
    } else if k == 6 {
        vec!['I', 'n', 't', 'e', 'r', 'l', 'u', 'd', 'e']
    } else if k == 7 {
        vec!['P', 'r', 'e', '-', 'C', 'h', 'o', 'r', 'u', 's']
    } else if k == 8 {
        vec!['P', 'o', 's', 't', '-', 'C', 'h', 'o', 'r', 'u', 's']
    } else if k == 9 {
        vec!['H', 'o', 'o', 'k']
    } else if k == 10 {
        vec!['I', 'n', 's', 't', 'r', 'u', 'm', 'e', 'n', 't', 'a', 'l']
    } else if k == 11 {
        vec!['B', 'r', 'e', 'a', 'k']
    } else if k == 12 {
        vec!['R', 'e', 'f', 'r', 'a', 'i', 'n']
    } else if k == 13 {
        vec!['C', 'o', 'd', 'a']
    } else if k == 14 {
        vec!['E', 'n', 'd', 'i', 'n', 'g']
    } else if k == 15 {
        vec!['R', 'i', 'f', 'f']
    } else if k == 16 {
        vec!['T', 'a', 'b']
    } else {
        vec!['C', 'a', 'p', 'o']
    };
    assert(v@ =~= section_keyword(k as int));
    v
}

/// Whether the header keyword numbered `k` is followed by whitespace, digits and ']'.
fn header_tail_ok(t: &[char], k: usize) -> (r: bool)
    requires
        t@.len() > 0,
        t@[0] == '[',
        k < 18,
        keyword_from(t@, 0) == Some(k as int),
    ensures
        r == is_section_header(t@),
{
    let n = t.len();
    let kw = section_keyword_chars(k);
    assert(has_at(t@, 1, section_keyword(k as int))) by {
        lemma_keyword_from(t@, 0);
    }
    let mut j = 1 + kw.len();
    let ghost j0 = j;
    while j < n && is_whitespace(t[j])
        invariant
            n == t@.len(),
            j0 <= j <= n,
            skip_ws(t@, j0 as int) == skip_ws(t@, j as int),
        decreases n - j,
    {
        j = j + 1;
    }
    let ghost j1 = j;
    while j < n && is_digit(t[j])
        invariant
            n == t@.len(),
            j1 <= j <= n,
            skip_digits(t@, j1 as int) == skip_digits(t@, j as int),
        decreases n - j,
    {
        j = j + 1;
    }
    j < n && t[j] == ']'
}

proof fn lemma_keyword_from(t: Seq<char>, k: int)
    requires
        0 <= k,
    ensures
        keyword_from(t, k) matches Some(f) ==> k <= f < 18 && has_at(t, 1, section_keyword(f)),
    decreases 18 - k,
{
    if k < 18 && !has_at(t, 1, section_keyword(k)) {
        lemma_keyword_from(t, k + 1);
    }
}

/// Whether the (trimmed) line `t` starts with a section header.
pub fn is_section_header_exec(t: &[char]) -> (r: bool)
    ensures
        r == is_section_header(t@),
{
    if t.len() == 0 || t[0] != '[' {
        return false;
    }
    let mut k: usize = 0;
    while k < 18
        invariant
            k <= 18,
            t@.len() > 0,
            t@[0] == '[',
            keyword_from(t@, 0) == keyword_from(t@, k as int),
        decreases 18 - k,
    {
        let kw = section_keyword_chars(k);
        if has_at_exec(t, 1, &kw) {
            return header_tail_ok(t, k);
        }
        k = k + 1;
    }
    false
}

/// Number of non-whitespace characters of `t`.
fn count_non_ws_exec(t: &[char]) -> (n: usize)
    ensures
        n == count_non_ws(t@),
{
    let mut n: usize = 0;
    let mut i: usize = 0;
    while i < t.len()
        invariant
            i <= t@.len(),
            n == count_non_ws(t@.take(i as int)),
            n <= i,
        decreases t@.len() - i,
    {
        assert(t@.take(i + 1).drop_last() =~= t@.take(i as int));
        if !is_whitespace(t[i]) {
            n = n + 1;
        }
        i = i + 1;
    }
    assert(t@.take(t@.len() as int) =~= t@);
    n
}

/// Parse one raw line of tab content (with [ch]...[/ch] markers).
pub fn parse_line(raw_line: &str) -> (r: ParsedLine)
    requires
        utf8_len(raw_line@) <= usize::MAX,
    ensures
        r@ == parse_line_spec(raw_line@),
{
    let s = chars_of(raw_line);
    parse_line_chars(&s)
}

/// `parse_line` on the characters of the line.
pub fn parse_line_chars(s: &[char]) -> (r: ParsedLine)
    requires
        utf8_len(s@) <= usize::MAX,
    ensures
        r@ == parse_line_spec(s@),
{
    let s = s;
    let t = trim_chars(s);
    if t.len() == 0 {
        let r = ParsedLine { kind: LineKind::Empty, content: String::new(), chords: Vec::new() };
        assert(r@.content =~= Seq::<char>::empty());
        assert(r@.chords =~= Seq::<ChordView>::empty());
        return r;
    }
    let ms = find_chord_spans(s);
    proof {
        lemma_chord_spans(s@, 0);
    }
    let b = build_line(s, &ms);
    let mut content = b.plain;
    let tail = sub_chars(s, b.last, s.len());
    push_all(&mut content, &tail);
    if is_section_header_exec(&t) {
        let r = ParsedLine {
            kind: LineKind::SectionHeader,
            content: string_from_chars(&content),
            chords: Vec::new(),
        };
        assert(r@.chords =~= Seq::<ChordView>::empty());
        return r;
    }
    if ms.len() == 0 {
        let r = ParsedLine {
            kind: LineKind::LyricLine,
            content: string_from_chars(s),
            chords: Vec::new(),
        };
        assert(r@.chords =~= Seq::<ChordView>::empty());
        return r;
    }
    let non_ws = count_non_ws_exec(&content);
    let chord_line = non_ws <= b.text_len || non_ws - b.text_len <= 2;
    ParsedLine {
        kind: if chord_line {
            LineKind::ChordLine
        } else {
            LineKind::LyricLine
        },
        content: string_from_chars(&content),
        chords: b.chords,
    }
}


// ---------------------------------------------------------------------------
// Whole tab content
// ---------------------------------------------------------------------------

/// `s` with every occurrence of `pat` replaced by `rep`, occurrences taken left to
/// right without overlap (`str::replace`).
pub open spec fn replace_all(s: Seq<char>, pat: Seq<char>, rep: Seq<char>) -> Seq<char>
    decreases s.len(),
{
    if s.len() == 0 {
        Seq::empty()
    } else if pat.len() > 0 && has_at(s, 0, pat) {
        rep + replace_all(s.subrange(pat.len() as int, s.len() as int), pat, rep)
    } else {
        seq![s[0]] + replace_all(s.drop_first(), pat, rep)
    }
}

/// The pieces of `s` between '\n' characters (`str::split('\n')`): one more than
/// there are newlines, empty pieces included.
pub open spec fn split_lines(s: Seq<char>) -> Seq<Seq<char>>
    decreases s.len(),
{
    if s.len() == 0 {
        seq![Seq::empty()]
    } else {
        let parts = split_lines(s.drop_last());
        if s.last() == '\n' {
            parts.push(Seq::empty())
        } else {
            parts.update(parts.len() - 1, parts.last().push(s.last()))
        }
    }
}

pub proof fn lemma_split_lines_nonempty(s: Seq<char>)
    ensures
        split_lines(s).len() >= 1,
    decreases s.len(),
{
    if s.len() > 0 {
        lemma_split_lines_nonempty(s.drop_last());
    }
}

pub open spec fn crlf() -> Seq<char> {
    seq!['\r', '\n']
}

pub open spec fn tab_open() -> Seq<char> {
    seq!['[', 't', 'a', 'b', ']']
}

pub open spec fn tab_close() -> Seq<char> {
    seq!['[', '/', 't', 'a', 'b', ']']
}

/// Raw content with "\r\n" made "\n", then "[tab]", then "[/tab]" removed.
pub open spec fn clean_content(raw: Seq<char>) -> Seq<char> {
    replace_all(
        replace_all(replace_all(raw, crlf(), seq!['\n']), tab_open(), Seq::empty()),
        tab_close(),
        Seq::empty(),
    )
}

/// What a whole tab content parses to: one line for each piece of the cleaned content.
pub open spec fn parse_tab_spec(raw: Seq<char>) -> Seq<LineView> {
    split_lines(clean_content(raw)).map_values(|l: Seq<char>| parse_line_spec(l))
}

proof fn lemma_has_at_shift(s: Seq<char>, i: int, t: Seq<char>)
    requires
        0 <= i <= s.len(),
    ensures
        has_at(s, i, t) == has_at(s.subrange(i, s.len() as int), 0, t),
{
    if has_at(s, i, t) {
        assert(s.subrange(i, s.len() as int).subrange(0, t.len() as int) =~= s.subrange(
            i,
            i + t.len(),
        ));
    }
    if has_at(s.subrange(i, s.len() as int), 0, t) {
        assert(s.subrange(i, s.len() as int).subrange(0, t.len() as int) =~= s.subrange(
            i,
            i + t.len(),
        ));
    }
}

proof fn lemma_replace_len(s: Seq<char>, pat: Seq<char>, rep: Seq<char>)
    requires
        utf8_len(rep) <= utf8_len(pat),
    ensures
        utf8_len(replace_all(s, pat, rep)) <= utf8_len(s),
    decreases s.len(),
{
    if s.len() > 0 {
        if pat.len() > 0 && has_at(s, 0, pat) {
            let rest = s.subrange(pat.len() as int, s.len() as int);
            lemma_replace_len(rest, pat, rep);
            lemma_utf8_len_concat(rep, replace_all(rest, pat, rep));
            assert(s.subrange(0, pat.len() as int) + rest =~= s);
            lemma_utf8_len_concat(s.subrange(0, pat.len() as int), rest);
        } else {
            lemma_replace_len(s.drop_first(), pat, rep);
            lemma_utf8_len_concat(seq![s[0]], replace_all(s.drop_first(), pat, rep));
            assert(seq![s[0]] + s.drop_first() =~= s);
            lemma_utf8_len_concat(seq![s[0]], s.drop_first());
        }
    }
}

/// `str::replace` on characters.
fn replace_chars(s: &[char], pat: &[char], rep: &[char]) -> (r: Vec<char>)
    requires
        pat@.len() > 0,
    ensures
        r@ == replace_all(s@, pat@, rep@),
{
    let n = s.len();
    let mut out: Vec<char> = Vec::new();
    let mut i: usize = 0;
    proof {
        assert(s@.subrange(0, n as int) =~= s@);
    }
    while i < n
        invariant
            n == s@.len(),
            pat@.len() > 0,
            i <= n,
            out@ + replace_all(s@.subrange(i as int, n as int), pat@, rep@) == replace_all(
                s@,
                pat@,
                rep@,
            ),
        decreases n - i,
    {
        let ghost rest = s@.subrange(i as int, n as int);
        proof {
            lemma_has_at_shift(s@, i as int, pat@);
        }
        if has_at_exec(s, i, pat) {
            proof {
                assert(rest.subrange(pat@.len() as int, rest.len() as int) =~= s@.subrange(
                    i + pat@.len(),
                    n as int,
                ));
                assert(out@ + rep@ + replace_all(s@.subrange(i + pat@.len(), n as int), pat@, rep@)
                    =~= out@ + (rep@ + replace_all(
                    s@.subrange(i + pat@.len(), n as int),
                    pat@,
                    rep@,
                )));
            }
            push_all(&mut out, rep);
            i = i + pat.len();
        } else {
            proof {
                assert(rest.drop_first() =~= s@.subrange(i + 1, n as int));
                assert(rest[0] == s@[i as int]);
                assert(out@.push(s@[i as int]) + replace_all(s@.subrange(i + 1, n as int), pat@, rep@)
                    =~= out@ + (seq![s@[i as int]] + replace_all(
                    s@.subrange(i + 1, n as int),
                    pat@,
                    rep@,
                )));
            }
            out.push(s[i]);
            i = i + 1;
        }
    }
    proof {
        assert(out@ + Seq::<char>::empty() =~= out@);
    }
    out
}

/// Parse raw tab content (with [ch]...[/ch] markers) into structured lines.
#[verifier::rlimit(50)]
#[verifier::spinoff_prover]
pub fn parse_tab_content(raw: &str) -> (r: Vec<ParsedLine>)
    requires
        utf8_len(raw@) <= usize::MAX,
    ensures
        line_views(r@) == parse_tab_spec(raw@),
        forall|i: int| 0 <= i < r@.len() ==> line_placed(#[trigger] r@[i]@),
{
    let s0 = chars_of(raw);
    let nl: [char; 1] = ['\n'];
    let cr: [char; 2] = ['\r', '\n'];
    let to: [char; 5] = ['[', 't', 'a', 'b', ']'];
    let tc: [char; 6] = ['[', '/', 't', 'a', 'b', ']'];
    let none: [char; 0] = [];
    assert(nl@ =~= seq!['\n']);
    assert(cr@ =~= crlf());
    assert(to@ =~= tab_open());
    assert(tc@ =~= tab_close());
    assert(none@ =~= Seq::<char>::empty());
    let s1 = replace_chars(&s0, &cr, &nl);
    let s2 = replace_chars(&s1, &to, &none);
    let s = replace_chars(&s2, &tc, &none);
    proof {
        reveal_with_fuel(utf8_len, 3);
        lemma_replace_len(s0@, crlf(), seq!['\n']);
        lemma_replace_len(s1@, tab_open(), Seq::empty());
        lemma_replace_len(s2@, tab_close(), Seq::empty());
    }
    let n = s.len();
    let mut lines: Vec<ParsedLine> = Vec::new();
    let mut start: usize = 0;
    let mut i: usize = 0;
    proof {
        assert(s@.take(0) =~= Seq::<char>::empty());
        assert(line_views(lines@) =~= Seq::<LineView>::empty());
    }
    while i < n
        invariant
            n == s@.len(),
            s@ == clean_content(raw@),
            utf8_len(s@) <= usize::MAX,
            start <= i <= n,
            split_lines(s@.take(i as int)).len() >= 1,
            line_views(lines@) == split_lines(s@.take(i as int)).drop_last().map_values(
                |l: Seq<char>| parse_line_spec(l),
            ),
            s@.subrange(start as int, i as int) == split_lines(s@.take(i as int)).last(),
        decreases n - i,
    {
        let ghost parts = split_lines(s@.take(i as int));
        proof {
            assert(s@.take(i + 1).drop_last() =~= s@.take(i as int));
            assert(s@.take(i + 1).last() == s@[i as int]);
        }
        if s[i] == '\n' {
            proof {
                lemma_utf8_len_split(s@, 0, start as int, i as int);
                lemma_utf8_len_split(s@, 0, i as int, n as int);
                assert(s@.subrange(0, n as int) =~= s@);
            }
            let piece = sub_chars(&s, start, i);
            let line = parse_line_chars(&piece);
            proof {
                let newp = parts.push(Seq::empty());
                assert(newp.drop_last() =~= parts);
                assert(parts =~= parts.drop_last().push(parts.last()));
                assert(line_views(lines@.push(line)) =~= line_views(lines@).push(line@));
                assert(parts.map_values(|l: Seq<char>| parse_line_spec(l)) =~= parts.drop_last().map_values(
                    |l: Seq<char>| parse_line_spec(l),
                ).push(parse_line_spec(parts.last())));
                assert(s@.subrange(i + 1, i + 1) =~= Seq::<char>::empty());
            }
            lines.push(line);
            start = i + 1;
        } else {
            proof {
                let newp = parts.update(parts.len() - 1, parts.last().push(s@[i as int]));
                assert(newp.drop_last() =~= parts.drop_last());
                assert(s@.subrange(start as int, i + 1) =~= s@.subrange(start as int, i as int).push(
                    s@[i as int],
                ));
            }
        }
        i = i + 1;
    }
    proof {
        assert(s@.take(n as int) =~= s@);
        lemma_utf8_len_split(s@, 0, start as int, n as int);
        assert(s@.subrange(0, n as int) =~= s@);
    }
    let piece = sub_chars(&s, start, n);
    let line = parse_line_chars(&piece);
    proof {
        let parts = split_lines(s@);
        assert(line_views(lines@.push(line)) =~= line_views(lines@).push(line@));
        assert(parts =~= parts.drop_last().push(parts.last()));
        assert(parts.map_values(|l: Seq<char>| parse_line_spec(l)) =~= parts.drop_last().map_values(
            |l: Seq<char>| parse_line_spec(l),
        ).push(parse_line_spec(parts.last())));
    }
    lines.push(line);
    proof {
        assert(line_views(lines@) == parse_tab_spec(raw@));
        law_parsed_content_chords_placed(raw@);
        assert forall|i: int| 0 <= i < lines@.len() implies line_placed(#[trigger] lines@[i]@) by {
            assert(line_views(lines@)[i] == lines@[i]@);
            assert(parse_tab_spec(raw@)[i] == lines@[i]@);
        }
    }
    lines
}

// ---------------------------------------------------------------------------
// Laws of section headers
// ---------------------------------------------------------------------------

/// The line "[" + `kw` + `sp` + `d` + "]".
pub open spec fn header_line(kw: Seq<char>, sp: Seq<char>, d: Seq<char>) -> Seq<char> {
    seq!['['] + kw + sp + d + seq![']']
}

/// Every character is one of the digits '0' to '9'.
pub open spec fn ascii_digits(d: Seq<char>) -> bool {
    forall|i: int| 0 <= i < d.len() ==> '0' <= #[trigger] d[i] && d[i] <= '9'
}

proof fn lemma_not_at(t: Seq<char>, kw: Seq<char>, other: Seq<char>, j: int)
    requires
        1 + kw.len() <= t.len(),
        t.subrange(1, 1 + kw.len() as int) == kw,
        0 <= j < kw.len(),
        j < other.len(),
        kw[j] != other[j],
    ensures
        !has_at(t, 1, other),
{
    assert(t[1 + j] == t.subrange(1, 1 + kw.len() as int)[j]);
    if has_at(t, 1, other) {
        assert(t[1 + j] == t.subrange(1, 1 + other.len() as int)[j]);
    }
}

/// The keyword found at the start of a header line is the one written there.
proof fn lemma_header_keyword(t: Seq<char>, k: int)
    requires
        0 <= k < 18,
        1 + section_keyword(k).len() <= t.len(),
        t.subrange(1, 1 + section_keyword(k).len() as int) == section_keyword(k),
    ensures
        keyword_from(t, 0) == Some(k),
{
    reveal_with_fuel(keyword_from, 19);
        if k == 0 {

        } else if k == 1 {
            lemma_not_at(t, section_keyword(1), section_keyword(0), 0);
        } else if k == 2 {
            lemma_not_at(t, section_keyword(2), section_keyword(0), 0);
            lemma_not_at(t, section_keyword(2), section_keyword(1), 0);
        } else if k == 3 {
            lemma_not_at(t, section_keyword(3), section_keyword(0), 0);
            lemma_not_at(t, section_keyword(3), section_keyword(1), 0);
            lemma_not_at(t, section_keyword(3), section_keyword(2), 0);
        } else if k == 4 {
            lemma_not_at(t, section_keyword(4), section_keyword(0), 0);
            lemma_not_at(t, section_keyword(4), section_keyword(1), 0);
            lemma_not_at(t, section_keyword(4), section_keyword(2), 0);
            lemma_not_at(t, section_keyword(4), section_keyword(3), 0);
        } else if k == 5 {
            lemma_not_at(t, section_keyword(5), section_keyword(0), 0);
            lemma_not_at(t, section_keyword(5), section_keyword(1), 0);
            lemma_not_at(t, section_keyword(5), section_keyword(2), 0);
            lemma_not_at(t, section_keyword(5), section_keyword(3), 0);
            lemma_not_at(t, section_keyword(5), section_keyword(4), 0);
        } else if k == 6 {
            lemma_not_at(t, section_keyword(6), section_keyword(0), 3);
            lemma_not_at(t, section_keyword(6), section_keyword(1), 0);
            lemma_not_at(t, section_keyword(6), section_keyword(2), 0);
            lemma_not_at(t, section_keyword(6), section_keyword(3), 0);
            lemma_not_at(t, section_keyword(6), section_keyword(4), 0);
            lemma_not_at(t, section_keyword(6), section_keyword(5), 0);
        } else if k == 7 {
            lemma_not_at(t, section_keyword(7), section_keyword(0), 0);
            lemma_not_at(t, section_keyword(7), section_keyword(1), 0);
            lemma_not_at(t, section_keyword(7), section_keyword(2), 0);
            lemma_not_at(t, section_keyword(7), section_keyword(3), 0);
            lemma_not_at(t, section_keyword(7), section_keyword(4), 0);
            lemma_not_at(t, section_keyword(7), section_keyword(5), 0);
            lemma_not_at(t, section_keyword(7), section_keyword(6), 0);
        } else if k == 8 {
            lemma_not_at(t, section_keyword(8), section_keyword(0), 0);
            lemma_not_at(t, section_keyword(8), section_keyword(1), 0);
            lemma_not_at(t, section_keyword(8), section_keyword(2), 0);
            lemma_not_at(t, section_keyword(8), section_keyword(3), 0);
            lemma_not_at(t, section_keyword(8), section_keyword(4), 0);
            lemma_not_at(t, section_keyword(8), section_keyword(5), 0);
            lemma_not_at(t, section_keyword(8), section_keyword(6), 0);
            lemma_not_at(t, section_keyword(8), section_keyword(7), 1);
        } else if k == 9 {
            lemma_not_at(t, section_keyword(9), section_keyword(0), 0);
            lemma_not_at(t, section_keyword(9), section_keyword(1), 0);
            lemma_not_at(t, section_keyword(9), section_keyword(2), 0);
            lemma_not_at(t, section_keyword(9), section_keyword(3), 0);
            lemma_not_at(t, section_keyword(9), section_keyword(4), 0);
            lemma_not_at(t, section_keyword(9), section_keyword(5), 0);
            lemma_not_at(t, section_keyword(9), section_keyword(6), 0);
            lemma_not_at(t, section_keyword(9), section_keyword(7), 0);
            lemma_not_at(t, section_keyword(9), section_keyword(8), 0);
        } else if k == 10 {
            lemma_not_at(t, section_keyword(10), section_keyword(0), 2);
            lemma_not_at(t, section_keyword(10), section_keyword(1), 0);
            lemma_not_at(t, section_keyword(10), section_keyword(2), 0);
            lemma_not_at(t, section_keyword(10), section_keyword(3), 0);
            lemma_not_at(t, section_keyword(10), section_keyword(4), 0);
            lemma_not_at(t, section_keyword(10), section_keyword(5), 0);
            lemma_not_at(t, section_keyword(10), section_keyword(6), 2);
            lemma_not_at(t, section_keyword(10), section_keyword(7), 0);
            lemma_not_at(t, section_keyword(10), section_keyword(8), 0);
            lemma_not_at(t, section_keyword(10), section_keyword(9), 0);
        } else if k == 11 {
            lemma_not_at(t, section_keyword(11), section_keyword(0), 0);
            lemma_not_at(t, section_keyword(11), section_keyword(1), 0);
            lemma_not_at(t, section_keyword(11), section_keyword(2), 0);
            lemma_not_at(t, section_keyword(11), section_keyword(3), 2);
            lemma_not_at(t, section_keyword(11), section_keyword(4), 0);
            lemma_not_at(t, section_keyword(11), section_keyword(5), 0);
            lemma_not_at(t, section_keyword(11), section_keyword(6), 0);
            lemma_not_at(t, section_keyword(11), section_keyword(7), 0);
            lemma_not_at(t, section_keyword(11), section_keyword(8), 0);
            lemma_not_at(t, section_keyword(11), section_keyword(9), 0);
            lemma_not_at(t, section_keyword(11), section_keyword(10), 0);
        } else if k == 12 {
            lemma_not_at(t, section_keyword(12), section_keyword(0), 0);
            lemma_not_at(t, section_keyword(12), section_keyword(1), 0);
            lemma_not_at(t, section_keyword(12), section_keyword(2), 0);
            lemma_not_at(t, section_keyword(12), section_keyword(3), 0);
            lemma_not_at(t, section_keyword(12), section_keyword(4), 0);
            lemma_not_at(t, section_keyword(12), section_keyword(5), 0);
            lemma_not_at(t, section_keyword(12), section_keyword(6), 0);
            lemma_not_at(t, section_keyword(12), section_keyword(7), 0);
            lemma_not_at(t, section_keyword(12), section_keyword(8), 0);
            lemma_not_at(t, section_keyword(12), section_keyword(9), 0);
            lemma_not_at(t, section_keyword(12), section_keyword(10), 0);
            lemma_not_at(t, section_keyword(12), section_keyword(11), 0);
        } else if k == 13 {
            lemma_not_at(t, section_keyword(13), section_keyword(0), 0);
            lemma_not_at(t, section_keyword(13), section_keyword(1), 0);
            lemma_not_at(t, section_keyword(13), section_keyword(2), 1);
            lemma_not_at(t, section_keyword(13), section_keyword(3), 0);
            lemma_not_at(t, section_keyword(13), section_keyword(4), 0);
            lemma_not_at(t, section_keyword(13), section_keyword(5), 0);
            lemma_not_at(t, section_keyword(13), section_keyword(6), 0);
            lemma_not_at(t, section_keyword(13), section_keyword(7), 0);
            lemma_not_at(t, section_keyword(13), section_keyword(8), 0);
            lemma_not_at(t, section_keyword(13), section_keyword(9), 0);
            lemma_not_at(t, section_keyword(13), section_keyword(10), 0);
            lemma_not_at(t, section_keyword(13), section_keyword(11), 0);
            lemma_not_at(t, section_keyword(13), section_keyword(12), 0);
        } else if k == 14 {
            lemma_not_at(t, section_keyword(14), section_keyword(0), 0);
            lemma_not_at(t, section_keyword(14), section_keyword(1), 0);
            lemma_not_at(t, section_keyword(14), section_keyword(2), 0);
            lemma_not_at(t, section_keyword(14), section_keyword(3), 0);
            lemma_not_at(t, section_keyword(14), section_keyword(4), 0);
            lemma_not_at(t, section_keyword(14), section_keyword(5), 0);
            lemma_not_at(t, section_keyword(14), section_keyword(6), 0);
            lemma_not_at(t, section_keyword(14), section_keyword(7), 0);
            lemma_not_at(t, section_keyword(14), section_keyword(8), 0);
            lemma_not_at(t, section_keyword(14), section_keyword(9), 0);
            lemma_not_at(t, section_keyword(14), section_keyword(10), 0);
            lemma_not_at(t, section_keyword(14), section_keyword(11), 0);
            lemma_not_at(t, section_keyword(14), section_keyword(12), 0);
            lemma_not_at(t, section_keyword(14), section_keyword(13), 0);
        } else if k == 15 {
            lemma_not_at(t, section_keyword(15), section_keyword(0), 0);
            lemma_not_at(t, section_keyword(15), section_keyword(1), 0);
            lemma_not_at(t, section_keyword(15), section_keyword(2), 0);
            lemma_not_at(t, section_keyword(15), section_keyword(3), 0);
            lemma_not_at(t, section_keyword(15), section_keyword(4), 0);
            lemma_not_at(t, section_keyword(15), section_keyword(5), 0);
            lemma_not_at(t, section_keyword(15), section_keyword(6), 0);
            lemma_not_at(t, section_keyword(15), section_keyword(7), 0);
            lemma_not_at(t, section_keyword(15), section_keyword(8), 0);
            lemma_not_at(t, section_keyword(15), section_keyword(9), 0);
            lemma_not_at(t, section_keyword(15), section_keyword(10), 0);
            lemma_not_at(t, section_keyword(15), section_keyword(11), 0);
            lemma_not_at(t, section_keyword(15), section_keyword(12), 1);
            lemma_not_at(t, section_keyword(15), section_keyword(13), 0);
            lemma_not_at(t, section_keyword(15), section_keyword(14), 0);
        } else if k == 16 {
            lemma_not_at(t, section_keyword(16), section_keyword(0), 0);
            lemma_not_at(t, section_keyword(16), section_keyword(1), 0);
            lemma_not_at(t, section_keyword(16), section_keyword(2), 0);
            lemma_not_at(t, section_keyword(16), section_keyword(3), 0);
            lemma_not_at(t, section_keyword(16), section_keyword(4), 0);
            lemma_not_at(t, section_keyword(16), section_keyword(5), 0);
            lemma_not_at(t, section_keyword(16), section_keyword(6), 0);
            lemma_not_at(t, section_keyword(16), section_keyword(7), 0);
            lemma_not_at(t, section_keyword(16), section_keyword(8), 0);
            lemma_not_at(t, section_keyword(16), section_keyword(9), 0);
            lemma_not_at(t, section_keyword(16), section_keyword(10), 0);
            lemma_not_at(t, section_keyword(16), section_keyword(11), 0);
            lemma_not_at(t, section_keyword(16), section_keyword(12), 0);
            lemma_not_at(t, section_keyword(16), section_keyword(13), 0);
            lemma_not_at(t, section_keyword(16), section_keyword(14), 0);
            lemma_not_at(t, section_keyword(16), section_keyword(15), 0);
        } else if k == 17 {
            lemma_not_at(t, section_keyword(17), section_keyword(0), 0);
            lemma_not_at(t, section_keyword(17), section_keyword(1), 0);
            lemma_not_at(t, section_keyword(17), section_keyword(2), 1);
            lemma_not_at(t, section_keyword(17), section_keyword(3), 0);
            lemma_not_at(t, section_keyword(17), section_keyword(4), 0);
            lemma_not_at(t, section_keyword(17), section_keyword(5), 0);
            lemma_not_at(t, section_keyword(17), section_keyword(6), 0);
            lemma_not_at(t, section_keyword(17), section_keyword(7), 0);
            lemma_not_at(t, section_keyword(17), section_keyword(8), 0);
            lemma_not_at(t, section_keyword(17), section_keyword(9), 0);
            lemma_not_at(t, section_keyword(17), section_keyword(10), 0);
            lemma_not_at(t, section_keyword(17), section_keyword(11), 0);
            lemma_not_at(t, section_keyword(17), section_keyword(12), 0);
            lemma_not_at(t, section_keyword(17), section_keyword(13), 1);
            lemma_not_at(t, section_keyword(17), section_keyword(14), 0);
            lemma_not_at(t, section_keyword(17), section_keyword(15), 0);
            lemma_not_at(t, section_keyword(17), section_keyword(16), 0);
        }
}

proof fn lemma_skip_digits(t: Seq<char>, i: int, n: int)
    requires
        0 <= i,
        0 <= n,
        i + n < t.len(),
        forall|m: int| i <= m < i + n ==> is_decimal_digit(#[trigger] t[m]),
        !is_decimal_digit(t[i + n]),
    ensures
        skip_digits(t, i) == i + n,
    decreases n,
{
    if n > 0 {
        lemma_skip_digits(t, i + 1, n - 1);
    }
}

/// A line made of '[', the keyword numbered `k`, at most one space, digits and ']'
/// is read as a section header.
proof fn lemma_header_line(k: int, kw: Seq<char>, sp: Seq<char>, d: Seq<char>)
    requires
        0 <= k < 18,
        kw == section_keyword(k),
        sp == Seq::<char>::empty() || sp == seq![' '],
        ascii_digits(d),
    ensures
        parse_line_spec(header_line(kw, sp, d)).kind == LineKind::SectionHeader,
{
    let t = header_line(kw, sp, d);
    let l = kw.len() as int;
    let i1 = 1 + l + sp.len();
    assert(t.subrange(1, 1 + l) =~= kw);
    lemma_header_keyword(t, k);
    assert(t[t.len() - 1] == ']');
    assert forall|m: int| i1 <= m < i1 + d.len() implies is_decimal_digit(#[trigger] t[m]) by {
        assert(t[m] == d[m - i1]);
    }
    if d.len() > 0 {
        assert(t[i1] == d[0]);
    }
    lemma_skip_digits(t, i1, d.len() as int);
    if sp.len() == 1 {
        assert(t[1 + l] == ' ');
        assert(skip_ws(t, i1) == i1);
    }
    assert(skip_ws(t, 1 + l) == i1);
    lemma_trim_of_clean(t);
}

/// The song parts Intro, Verse, Chorus, Bridge, Outro and Solo, each written in brackets alone or followed by a number (with or without
/// a space before it), make a section header line.
#[verifier::spinoff_prover]
#[verifier::rlimit(60)]
pub proof fn law_song_part_headers(sp: Seq<char>, d: Seq<char>)
    requires
        sp == Seq::<char>::empty() || sp == seq![' '],
        ascii_digits(d),
    ensures
        parse_line_spec(header_line(seq!['I', 'n', 't', 'r', 'o'], sp, d)).kind == LineKind::SectionHeader,
        parse_line_spec(header_line(seq!['V', 'e', 'r', 's', 'e'], sp, d)).kind == LineKind::SectionHeader,
        parse_line_spec(header_line(seq!['C', 'h', 'o', 'r', 'u', 's'], sp, d)).kind == LineKind::SectionHeader,
        parse_line_spec(header_line(seq!['B', 'r', 'i', 'd', 'g', 'e'], sp, d)).kind == LineKind::SectionHeader,
        parse_line_spec(header_line(seq!['O', 'u', 't', 'r', 'o'], sp, d)).kind == LineKind::SectionHeader,
        parse_line_spec(header_line(seq!['S', 'o', 'l', 'o'], sp, d)).kind == LineKind::SectionHeader,
{
    lemma_header_line(0, seq!['I', 'n', 't', 'r', 'o'], sp, d);
    lemma_header_line(1, seq!['V', 'e', 'r', 's', 'e'], sp, d);
    lemma_header_line(2, seq!['C', 'h', 'o', 'r', 'u', 's'], sp, d);
    lemma_header_line(3, seq!['B', 'r', 'i', 'd', 'g', 'e'], sp, d);
    lemma_header_line(4, seq!['O', 'u', 't', 'r', 'o'], sp, d);
    lemma_header_line(5, seq!['S', 'o', 'l', 'o'], sp, d);
}

/// The passages Interlude, Pre-Chorus, Post-Chorus, Hook, Instrumental and Break, each written in brackets alone or followed by a number (with or without
/// a space before it), make a section header line.
#[verifier::spinoff_prover]
#[verifier::rlimit(60)]
pub proof fn law_passage_headers(sp: Seq<char>, d: Seq<char>)
    requires
        sp == Seq::<char>::empty() || sp == seq![' '],
        ascii_digits(d),
    ensures
        parse_line_spec(header_line(seq!['I', 'n', 't', 'e', 'r', 'l', 'u', 'd', 'e'], sp, d)).kind == LineKind::SectionHeader,
        parse_line_spec(header_line(seq!['P', 'r', 'e', '-', 'C', 'h', 'o', 'r', 'u', 's'], sp, d)).kind == LineKind::SectionHeader,
        parse_line_spec(header_line(seq!['P', 'o', 's', 't', '-', 'C', 'h', 'o', 'r', 'u', 's'], sp, d)).kind == LineKind::SectionHeader,
        parse_line_spec(header_line(seq!['H', 'o', 'o', 'k'], sp, d)).kind == LineKind::SectionHeader,
        parse_line_spec(header_line(seq!['I', 'n', 's', 't', 'r', 'u', 'm', 'e', 'n', 't', 'a', 'l'], sp, d)).kind == LineKind::SectionHeader,
        parse_line_spec(header_line(seq!['B', 'r', 'e', 'a', 'k'], sp, d)).kind == LineKind::SectionHeader,
{
    lemma_header_line(6, seq!['I', 'n', 't', 'e', 'r', 'l', 'u', 'd', 'e'], sp, d);
    lemma_header_line(7, seq!['P', 'r', 'e', '-', 'C', 'h', 'o', 'r', 'u', 's'], sp, d);
    lemma_header_line(8, seq!['P', 'o', 's', 't', '-', 'C', 'h', 'o', 'r', 'u', 's'], sp, d);
    lemma_header_line(9, seq!['H', 'o', 'o', 'k'], sp, d);
    lemma_header_line(10, seq!['I', 'n', 's', 't', 'r', 'u', 'm', 'e', 'n', 't', 'a', 'l'], sp, d);
    lemma_header_line(11, seq!['B', 'r', 'e', 'a', 'k'], sp, d);
}

/// Refrain, Coda, Ending, Riff, Tab and Capo, each written in brackets alone or followed by a number (with or without
/// a space before it), make a section header line.
#[verifier::spinoff_prover]
#[verifier::rlimit(60)]
pub proof fn law_closing_and_marker_headers(sp: Seq<char>, d: Seq<char>)
    requires
        sp == Seq::<char>::empty() || sp == seq![' '],
        ascii_digits(d),
    ensures
        parse_line_spec(header_line(seq!['R', 'e', 'f', 'r', 'a', 'i', 'n'], sp, d)).kind == LineKind::SectionHeader,
        parse_line_spec(header_line(seq!['C', 'o', 'd', 'a'], sp, d)).kind == LineKind::SectionHeader,
        parse_line_spec(header_line(seq!['E', 'n', 'd', 'i', 'n', 'g'], sp, d)).kind == LineKind::SectionHeader,
        parse_line_spec(header_line(seq!['R', 'i', 'f', 'f'], sp, d)).kind == LineKind::SectionHeader,
        parse_line_spec(header_line(seq!['T', 'a', 'b'], sp, d)).kind == LineKind::SectionHeader,
        parse_line_spec(header_line(seq!['C', 'a', 'p', 'o'], sp, d)).kind == LineKind::SectionHeader,
{
    lemma_header_line(12, seq!['R', 'e', 'f', 'r', 'a', 'i', 'n'], sp, d);
    lemma_header_line(13, seq!['C', 'o', 'd', 'a'], sp, d);
    lemma_header_line(14, seq!['E', 'n', 'd', 'i', 'n', 'g'], sp, d);
    lemma_header_line(15, seq!['R', 'i', 'f', 'f'], sp, d);
    lemma_header_line(16, seq!['T', 'a', 'b'], sp, d);
    lemma_header_line(17, seq!['C', 'a', 'p', 'o'], sp, d);
}

} // verus!
