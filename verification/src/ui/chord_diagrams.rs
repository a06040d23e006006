use vstd::prelude::*;

use crate::music::chord_db::{ChordDb, Voicing, first_voicing};
use crate::music::transpose::{
    law_transposed_line_chords, lemma_build_chord, lemma_build_prefix, note_index, note_index_of,
    same_name, steps_fit, transpose_note_chars, transposed_chord, transposed_line, transposed_note,
};
use crate::music::parser::{
    build, chord_at, chord_spans, lemma_chord_at, lemma_chord_spans, lemma_quality_end, note_end,
    parse_line_spec, quality_end, span_text,
};
use crate::data::models::{chord_display, ChordView};
use crate::text::{trim, trim_chars};
use crate::text::{chars_of, decimal, push_all, string_from_chars, sub_chars, u64_to_decimal};

verus! {

/// Length of a chord name's root: its first character, with a following '#' or 'b'.
pub open spec fn root_len(name: Seq<char>) -> int {
    if name.len() >= 2 && (name[1] == '#' || name[1] == 'b') {
        2
    } else {
        1
    }
}

/// Position of the first '/' in `s` at or after `i`, or the length of `s` if there is
/// none.
pub open spec fn slash_from(s: Seq<char>, i: int) -> int
    decreases s.len() - i,
{
    if 0 <= i < s.len() {
        if s[i] == '/' {
            i
        } else {
            slash_from(s, i + 1)
        }
    } else {
        s.len() as int
    }
}

/// A chord name moved by `steps` half steps: the root (see `root_len`) is moved, the
/// quality kept, and a bass note after the first '/' that follows the root is moved
/// too, so that "C/G" up two half steps is "D/A".
pub open spec fn transposed_chord_name(name: Seq<char>, steps: int) -> Seq<char> {
    if steps == 0 || name.len() == 0 {
        name
    } else {
        let k = root_len(name);
        let p = slash_from(name, k);
        if p < name.len() {
            transposed_note(name.subrange(0, k), steps) + name.subrange(k, p) + seq!['/']
                + transposed_note(name.subrange(p + 1, name.len() as int), steps)
        } else {
            transposed_note(name.subrange(0, k), steps) + name.subrange(k, name.len() as int)
        }
    }
}

/// The root can be cut off the name: it starts with a one-byte character; and its
/// note, and the bass note if there is one, can be moved without leaving `i32`.
pub open spec fn chord_name_transposable(name: Seq<char>, steps: int) -> bool {
    steps != 0 && name.len() > 0 ==> {
        let k = root_len(name);
        let p = slash_from(name, k);
        &&& (name[0] as u32) < 0x80
        &&& steps_fit(name.subrange(0, k), steps)
        &&& p < name.len() ==> steps_fit(name.subrange(p + 1, name.len() as int), steps)
    }
}

/// Where the first '/' at or after `from` is in `s` (the length of `s` if none).
fn find_slash(s: &[char], from: usize) -> (p: usize)
    requires
        from <= s@.len(),
    ensures
        p as int == slash_from(s@, from as int),
        from <= p <= s@.len(),
{
    let mut p = from;
    while p < s.len() && s[p] != '/'
        invariant
            from <= p <= s@.len(),
            slash_from(s@, from as int) == slash_from(s@, p as int),
        decreases s@.len() - p,
    {
        p = p + 1;
    }
    p
}

/// Transpose a full chord name like "Am7", "F#m" or "C/G" by semitone steps.
pub fn transpose_chord_name(name: &str, steps: i32) -> (r: String)
    requires
        chord_name_transposable(name@, steps as int),
    ensures
        r@ == transposed_chord_name(name@, steps as int),
{
    if steps == 0 {
        return name.to_owned();
    }
    let s = chars_of(name);
    let n = s.len();
    if n == 0 {
        return name.to_owned();
    }
    let k: usize = if n >= 2 && (s[1] == '#' || s[1] == 'b') {
        2
    } else {
        1
    };
    let p = find_slash(&s, k);
    let root = sub_chars(&s, 0, k);
    let mut v = transpose_note_chars(&root, steps);
    if p < n {
        push_all(&mut v, &sub_chars(&s, k, p));
        v.push('/');
        let bass = sub_chars(&s, p + 1, n);
        let moved = transpose_note_chars(&bass, steps);
        push_all(&mut v, &moved);
    } else {
        push_all(&mut v, &sub_chars(&s, k, n));
    }
    string_from_chars(&v)
}

/// Whether a note can be moved by `steps` without leaving `i32`.
fn note_steps_fit(note: &[char], steps: i32) -> (b: bool)
    ensures
        b == steps_fit(note@, steps as int),
{
    let t = trim_chars(note);
    match note_index_of(&t) {
        Some(i) => (i as i64) + (steps as i64) <= 0x7fff_ffff,
        None => true,
    }
}

/// Whether `transpose_chord_name` can take `name` and `steps`.
pub fn chord_name_can_transpose(name: &str, steps: i32) -> (b: bool)
    ensures
        b == chord_name_transposable(name@, steps as int),
{
    if steps == 0 {
        return true;
    }
    let s = chars_of(name);
    let n = s.len();
    if n == 0 {
        return true;
    }
    let k: usize = if n >= 2 && (s[1] == '#' || s[1] == 'b') {
        2
    } else {
        1
    };
    if (s[0] as u32) >= 0x80 {
        return false;
    }
    if !note_steps_fit(&sub_chars(&s, 0, k), steps) {
        return false;
    }
    let p = find_slash(&s, k);
    if p < n {
        note_steps_fit(&sub_chars(&s, p + 1, n), steps)
    } else {
        true
    }
}

/// How one string is drawn in a chord diagram.
#[derive(Debug, Clone, Copy, PartialEq, Eq)]
pub enum StringMark {
    /// An "x" above the string.
    Muted,
    /// An "o" above the string.
    Open,
    /// A dot in the given row (1 to 5) of the diagram.
    Dot(i32),
    /// Nothing: the fret lies outside the five rows shown.
    Hidden,
}

/// What a chord diagram shows.
#[derive(Debug, Clone, Copy, PartialEq, Eq)]
pub struct DiagramLayout {
    /// Frets above the top row (0: the top line is the nut).
    pub fret_offset: i32,
    /// One mark per string, low E first.
    pub marks: [StringMark; 6],
}

/// Frets of the strings that are fretted (neither muted nor open).
pub open spec fn pressed(v: Seq<Option<i32>>) -> Seq<i32>
    decreases v.len(),
{
    if v.len() == 0 {
        Seq::empty()
    } else {
        let r = pressed(v.drop_last());
        match v.last() {
            Some(f) => if f > 0 {
                r.push(f)
            } else {
                r
            },
            None => r,
        }
    }
}

pub open spec fn seq_min(s: Seq<i32>) -> i32
    decreases s.len(),
{
    if s.len() == 0 {
        1
    } else if s.len() == 1 {
        s[0]
    } else {
        let m = seq_min(s.drop_last());
        if s.last() < m {
            s.last()
        } else {
            m
        }
    }
}

pub open spec fn seq_max(s: Seq<i32>) -> i32
    decreases s.len(),
{
    if s.len() == 0 {
        1
    } else if s.len() == 1 {
        s[0]
    } else {
        let m = seq_max(s.drop_last());
        if s.last() > m {
            s.last()
        } else {
            m
        }
    }
}

/// Chords high on the neck are drawn from the lowest fretted fret: when the highest
/// fretted fret is above 5, the diagram starts one fret below the lowest.
pub open spec fn fret_offset_of(v: Seq<Option<i32>>) -> int {
    let p = pressed(v);
    if seq_max(p) > 5 {
        seq_min(p) - 1
    } else {
        0
    }
}

/// The mark of a string whose state is `f`.
pub open spec fn mark_of(f: Option<i32>, offset: int) -> StringMark {
    match f {
        None => StringMark::Muted,
        Some(x) => if x == 0 {
            StringMark::Open
        } else if 1 <= x - offset <= 5 {
            StringMark::Dot((x - offset) as i32)
        } else {
            StringMark::Hidden
        },
    }
}

/// No fret lies so far below the offset that their difference leaves `i32`.
pub open spec fn diagram_fits(v: Seq<Option<i32>>) -> bool {
    forall|i: int| 0 <= i < v.len() ==> (#[trigger] v[i] matches Some(x) ==> x - fret_offset_of(v) >= i32::MIN)
}

proof fn lemma_pressed_positive(v: Seq<Option<i32>>)
    ensures
        forall|i: int| 0 <= i < pressed(v).len() ==> #[trigger] pressed(v)[i] > 0,
    decreases v.len(),
{
    if v.len() > 0 {
        lemma_pressed_positive(v.drop_last());
        let r = pressed(v.drop_last());
        assert forall|i: int| 0 <= i < pressed(v).len() implies #[trigger] pressed(v)[i] > 0 by {
            if i < r.len() {
                assert(pressed(v)[i] == r[i]);
            }
        }
    }
}

proof fn lemma_min_positive(s: Seq<i32>)
    requires
        forall|i: int| 0 <= i < s.len() ==> #[trigger] s[i] > 0,
    ensures
        seq_min(s) > 0,
    decreases s.len(),
{
    if s.len() > 1 {
        lemma_min_positive(s.drop_last());
    }
}

/// The diagram's fret offset (`fret_offset_of`).
pub fn fret_offset(v: &Voicing) -> (r: i32)
    ensures
        r == fret_offset_of(v@),
        r >= 0,
{
    let mut lo: i32 = 1;
    let mut hi: i32 = 1;
    let mut any = false;
    let mut i: usize = 0;
    let ghost mut p: Seq<i32> = Seq::empty();
    while i < 6
        invariant
            i <= 6,
            p == pressed(v@.take(i as int)),
            any == (p.len() > 0),
            any ==> lo == seq_min(p) && hi == seq_max(p),
            !any ==> lo == 1 && hi == 1,
        decreases 6 - i,
    {
        proof {
            let t = v@.take(i + 1);
            assert(t.drop_last() =~= v@.take(i as int));
            assert(t.last() == v@[i as int]);
        }
        match v[i] {
            Some(f) => {
                if f > 0 {
                    proof {
                        p = p.push(f);
                        assert(p.drop_last() =~= pressed(v@.take(i as int)));
                    }
                    if !any {
                        lo = f;
                        hi = f;
                        any = true;
                    } else {
                        if f < lo {
                            lo = f;
                        }
                        if f > hi {
                            hi = f;
                        }
                    }
                }
            },
            None => {},
        }
        i = i + 1;
    }
    proof {
        assert(v@.take(6) =~= v@);
        lemma_pressed_positive(v@);
        lemma_min_positive(pressed(v@));
    }
    if hi > 5 {
        lo - 1
    } else {
        0
    }
}

/// Whether a voicing can be laid out (`diagram_fits`).
pub fn voicing_fits(v: &Voicing) -> (b: bool)
    ensures
        b == diagram_fits(v@),
{
    let offset = fret_offset(v);
    let mut j: usize = 0;
    while j < 6
        invariant
            j <= 6,
            offset == fret_offset_of(v@),
            offset >= 0,
            forall|k: int| 0 <= k < j ==> (#[trigger] v@[k] matches Some(x) ==> x - fret_offset_of(v@) >= i32::MIN),
        decreases 6 - j,
    {
        match v[j] {
            Some(x) => {
                if (x as i64) - (offset as i64) < -0x8000_0000 {
                    return false;
                }
            },
            None => {},
        }
        j = j + 1;
    }
    true
}

/// The layout of the diagram of a voicing.
pub fn diagram_layout(v: &Voicing) -> (r: DiagramLayout)
    requires
        diagram_fits(v@),
    ensures
        r.fret_offset == fret_offset_of(v@),
        forall|i: int| 0 <= i < 6 ==> #[trigger] r.marks[i] == mark_of(v@[i], fret_offset_of(v@)),
{
    let offset = fret_offset(v);
    let mut marks: [StringMark; 6] = [StringMark::Hidden; 6];
    let mut j: usize = 0;
    while j < 6
        invariant
            j <= 6,
            offset == fret_offset_of(v@),
            offset >= 0,
            diagram_fits(v@),
            forall|k: int| 0 <= k < j ==> #[trigger] marks@[k] == mark_of(v@[k], offset as int),
        decreases 6 - j,
    {
        let m = match v[j] {
            None => StringMark::Muted,
            Some(x) => {
                if x == 0 {
                    StringMark::Open
                } else {
                    assert(v@[j as int] matches Some(y) ==> y - fret_offset_of(v@) >= i32::MIN);
                    let d = x - offset;
                    if 1 <= d && d <= 5 {
                        StringMark::Dot(d)
                    } else {
                        StringMark::Hidden
                    }
                }
            },
        };
        marks[j] = m;
        j = j + 1;
    }
    DiagramLayout { fret_offset: offset, marks }
}

/// The position label shown beside a diagram that does not start at the nut
/// ("5fr" when the top row is fret 5).
pub open spec fn position_label_spec(offset: i32) -> Option<Seq<char>> {
    if offset > 0 {
        Some(decimal((offset + 1) as nat) + seq!['f', 'r'])
    } else {
        None
    }
}

pub fn position_label(layout: &DiagramLayout) -> (r: Option<String>)
    requires
        layout.fret_offset < i32::MAX,
    ensures
        match r {
            Some(s) => position_label_spec(layout.fret_offset) == Some(s@),
            None => position_label_spec(layout.fret_offset) is None,
        },
{
    if layout.fret_offset > 0 {
        let mut v = u64_to_decimal((layout.fret_offset + 1) as u64);
        v.push('f');
        v.push('r');
        Some(string_from_chars(&v))
    } else {
        None
    }
}

/// The diagrams of a tab: for each chord name, moved by `steps`, the name and its
/// first voicing in the table; names the table lacks are left out.
pub open spec fn diagram_entries(
    db: Seq<(Seq<char>, Seq<Seq<Option<i32>>>)>,
    names: Seq<Seq<char>>,
    steps: int,
) -> Seq<(Seq<char>, Seq<Option<i32>>)>
    decreases names.len(),
{
    if names.len() == 0 {
        Seq::empty()
    } else {
        let r = diagram_entries(db, names.drop_last(), steps);
        let shown = transposed_chord_name(names.last(), steps);
        match first_voicing(db, shown) {
            Some(v) => r.push((shown, v)),
            None => r,
        }
    }
}

/// The chord names and voicings the diagram panel shows.
pub fn diagram_chords(db: &ChordDb, names: &Vec<String>, steps: i32) -> (r: Vec<(String, Voicing)>)
    requires
        forall|i: int| 0 <= i < names@.len() ==> chord_name_transposable(#[trigger] names@[i]@, steps as int),
    ensures
        r@.map_values(|e: (String, Voicing)| (e.0@, e.1@)) == diagram_entries(
            db@,
            names@.map_values(|s: String| s@),
            steps as int,
        ),
{
    let ghost ns = names@.map_values(|s: String| s@);
    let mut r: Vec<(String, Voicing)> = Vec::new();
    let mut i: usize = 0;
    proof {
        assert(ns.take(0) =~= Seq::<Seq<char>>::empty());
        assert(r@.map_values(|e: (String, Voicing)| (e.0@, e.1@)) =~= Seq::<(Seq<char>, Seq<Option<i32>>)>::empty());
    }
    while i < names.len()
        invariant
            i <= names@.len(),
            ns == names@.map_values(|s: String| s@),
            forall|k: int| 0 <= k < names@.len() ==> chord_name_transposable(#[trigger] names@[k]@, steps as int),
            r@.map_values(|e: (String, Voicing)| (e.0@, e.1@)) == diagram_entries(db@, ns.take(i as int), steps as int),
        decreases names@.len() - i,
    {
        proof {
            let t = ns.take(i + 1);
            assert(t.drop_last() =~= ns.take(i as int));
            assert(t.last() == names@[i as int]@);
        }
        let shown = transpose_chord_name(names[i].as_str(), steps);
        match db.voicing(shown.as_str()) {
            Some(v) => {
                let ghost e = (shown@, v@);
                proof {
                    assert(r@.push((shown, v)).map_values(|e: (String, Voicing)| (e.0@, e.1@)) =~= r@.map_values(
                        |e: (String, Voicing)| (e.0@, e.1@),
                    ).push(e));
                }
                r.push((shown, v));
            },
            None => {},
        }
        i = i + 1;
    }
    assert(ns.take(names@.len() as int) =~= ns);
    r
}

/// The characters of each string.
pub open spec fn string_views(ss: Seq<String>) -> Seq<Seq<char>> {
    ss.map_values(|s: String| s@)
}

proof fn lemma_string_views_push(a: Seq<String>, x: String)
    ensures
        string_views(a.push(x)) == string_views(a).push(x@),
{
    assert(string_views(a.push(x)) =~= string_views(a).push(x@));
}

/// The chord panel's state: the tab's chord names as written, and the transposition
/// they are shown at.
pub struct ChordDiagramPanel {
    chord_names: Vec<String>,
    transpose_steps: i32,
}

impl View for ChordDiagramPanel {
    type V = (Seq<Seq<char>>, i32);

    closed spec fn view(&self) -> (Seq<Seq<char>>, i32) {
        (string_views(self.chord_names@), self.transpose_steps)
    }
}

impl ChordDiagramPanel {
    /// An empty panel.
    pub fn new() -> (p: ChordDiagramPanel)
        ensures
            p@.0.len() == 0,
            p@.1 == 0,
    {
        let p = ChordDiagramPanel { chord_names: Vec::new(), transpose_steps: 0 };
        assert(string_views(p.chord_names@) =~= Seq::<Seq<char>>::empty());
        p
    }

    /// The chords of a newly shown tab, untransposed.
    pub fn set_chord_names(&mut self, names: &[String])
        ensures
            final(self)@.0 == string_views(names@),
            final(self)@.1 == 0,
    {
        let mut v: Vec<String> = Vec::new();
        let mut i: usize = 0;
        while i < names.len()
            invariant
                i <= names@.len(),
                string_views(v@) == string_views(names@.take(i as int)),
            decreases names@.len() - i,
        {
            let c = names[i].clone();
            proof {
                assert(c@ == names@[i as int]@);
                assert(names@.take(i + 1) =~= names@.take(i as int).push(names@[i as int]));
                lemma_string_views_push(v@, c);
                lemma_string_views_push(names@.take(i as int), names@[i as int]);
            }
            v.push(c);
            i = i + 1;
        }
        assert(names@.take(names@.len() as int) =~= names@);
        self.chord_names = v;
        self.transpose_steps = 0;
    }

    /// Shows the chords moved by `steps` half steps.
    pub fn set_transpose(&mut self, steps: i32)
        ensures
            final(self)@ == (old(self)@.0, steps),
    {
        self.transpose_steps = steps;
    }

    /// Forgets the chords.
    pub fn clear(&mut self)
        ensures
            final(self)@.0.len() == 0,
            final(self)@.1 == old(self)@.1,
    {
        self.chord_names = Vec::new();
        assert(string_views(self.chord_names@) =~= Seq::<Seq<char>>::empty());
    }

    /// Whether every chord name can be moved by the panel's transposition.
    pub fn can_show(&self) -> (b: bool)
        ensures
            b == forall|i: int|
                0 <= i < self@.0.len() ==> chord_name_transposable(#[trigger] self@.0[i], self@.1 as int),
    {
        let ghost ns = self@.0;
        let mut i: usize = 0;
        while i < self.chord_names.len()
            invariant
                ns == self@.0,
                ns == string_views(self.chord_names@),
                i <= ns.len(),
                forall|j: int| 0 <= j < i ==> chord_name_transposable(#[trigger] ns[j], self@.1 as int),
            decreases ns.len() - i,
        {
            proof {
                assert(ns[i as int] == self.chord_names@[i as int]@);
            }
            if !chord_name_can_transpose(self.chord_names[i].as_str(), self.transpose_steps) {
                return false;
            }
            i = i + 1;
        }
        true
    }

    /// The diagrams to show (`rebuild`): each chord, transposed, with its first
    /// voicing in the table; chords the table lacks are left out.
    pub fn diagrams(&self, db: &ChordDb) -> (r: Vec<(String, Voicing)>)
        requires
            forall|i: int|
                0 <= i < self@.0.len() ==> chord_name_transposable(#[trigger] self@.0[i], self@.1 as int),
        ensures
            r@.map_values(|e: (String, Voicing)| (e.0@, e.1@)) == diagram_entries(db@, self@.0, self@.1 as int),
    {
        proof {
            assert forall|i: int| 0 <= i < self.chord_names@.len() implies chord_name_transposable(
                #[trigger] self.chord_names@[i]@,
                self.transpose_steps as int,
            ) by {
                assert(self@.0[i] == self.chord_names@[i]@);
            }
        }
        diagram_chords(db, &self.chord_names, self.transpose_steps)
    }
}

/// A chord whose name splits back into its parts: a root of one or two characters, the
/// second being '#' or 'b' exactly when the root has two, and a quality without '/'.
pub open spec fn chord_shaped(c: ChordView) -> bool {
    &&& 1 <= c.root.len() <= 2
    &&& root_len(chord_display(c)) == c.root.len()
    &&& forall|i: int| 0 <= i < c.quality.len() ==> c.quality[i] != '/'
}

proof fn lemma_slash_from(s: Seq<char>, i: int, j: int)
    requires
        0 <= i <= j <= s.len(),
        forall|m: int| i <= m < j ==> s[m] != '/',
        j < s.len() ==> s[j] == '/',
    ensures
        slash_from(s, i) == j,
    decreases j - i,
{
    if i < j {
        lemma_slash_from(s, i + 1, j);
    }
}

/// Moving a well shaped chord's name moves its root and its bass note, as transposing
/// the chord does.
proof fn lemma_shaped_name(c: ChordView, steps: int)
    requires
        chord_shaped(c),
        steps != 0,
    ensures
        transposed_chord_name(chord_display(c), steps) == chord_display(transposed_chord(c, steps)),
{
    let d = chord_display(c);
    let k = c.root.len() as int;
    let q = c.quality.len() as int;
    assert(d.subrange(0, k) =~= c.root);
    assert(d.subrange(k, k + q) =~= c.quality);
    match c.bass {
        Some(b) => {
            assert(d[k + q] == '/');
            lemma_slash_from(d, k, k + q);
            assert(d.subrange(k + q + 1, d.len() as int) =~= b);
        },
        None => {
            lemma_slash_from(d, k, d.len() as int);
            assert(d.subrange(k, d.len() as int) =~= c.quality);
            assert(transposed_note(c.root, steps) + c.quality =~= chord_display(transposed_chord(c, steps)));
        },
    }
}

/// Every chord that parsing reads from a marker is well shaped.
proof fn lemma_parsed_chord_shaped(raw: Seq<char>, k: int)
    requires
        0 <= k < parse_line_spec(raw).chords.len(),
    ensures
        chord_shaped(parse_line_spec(raw).chords[k]),
{
    let l = parse_line_spec(raw);
    let ms = chord_spans(raw, 0);
    lemma_chord_spans(raw, 0);
    lemma_build_prefix(raw, ms, 0);
    assert(l.chords == build(raw, ms).chords);
    lemma_build_chord(raw, ms, k);
    let m = ms[k];
    let p = m.start;
    assert(chord_at(raw, p) == Some(m));
    lemma_chord_at(raw, p);
    lemma_quality_end(raw, m.root_end);
    let c = l.chords[k];
    let d = chord_display(c);
    assert(d == span_text(raw, m));
    assert(c.root == raw.subrange(p + 4, m.root_end));
    assert(c.quality == raw.subrange(m.root_end, m.quality_end));
    assert(m.root_end == note_end(raw, p + 4));
    assert(m.quality_end == quality_end(raw, m.root_end));
    if d.len() >= 2 {
        assert(d[1] == raw[p + 5]);
    }
    assert forall|i: int| 0 <= i < c.quality.len() implies c.quality[i] != '/' by {
        assert(c.quality[i] == raw[m.root_end + i]);
    }
}

/// The chord panel names every chord of a parsed line as the transposed sheet shows
/// it: moving the chord's full name by `steps` half steps, bass note included, gives
/// the name of that chord in the line transposed by `steps`.
pub proof fn law_diagram_names_match_sheet(raw: Seq<char>, steps: int)
    ensures
        forall|k: int|
            0 <= k < parse_line_spec(raw).chords.len() ==> transposed_chord_name(
                chord_display(#[trigger] parse_line_spec(raw).chords[k]),
                steps,
            ) == chord_display(transposed_line(parse_line_spec(raw), steps).chords[k]),
{
    let l = parse_line_spec(raw);
    if steps != 0 {
        law_transposed_line_chords(l, steps);
        assert forall|k: int| 0 <= k < l.chords.len() implies transposed_chord_name(
            chord_display(#[trigger] l.chords[k]),
            steps,
        ) == chord_display(transposed_line(l, steps).chords[k]) by {
            lemma_parsed_chord_shaped(raw, k);
            lemma_shaped_name(l.chords[k], steps);
            assert(same_name(transposed_line(l, steps).chords[k], transposed_chord(l.chords[k], steps)));
        }
    }
}

} // verus!
