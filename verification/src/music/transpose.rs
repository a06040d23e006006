use vstd::prelude::*;

use crate::music::parser::{
    build, chord_at, chord_spans, clean_content, lemma_chord_at, lemma_chord_spans,
    lemma_build_step, parse_line_spec, parse_tab_spec, span_chord, span_text, spans_ordered,
    split_lines, Span,
};
use crate::data::models::{
    chord_display, chord_views, line_views, ChordPosition, ChordView, LineView, ParsedLine,
};
use crate::text::{
    is_ws, lead_ws, lemma_lead_ws, lemma_lead_ws_at, lemma_trail_ws, lemma_trail_ws_at, trail_ws,
    trim_start, char_len_utf8, chars_of, lemma_utf8_len_bounds, lemma_utf8_len_concat, len_utf8, push_all, string_from_chars,
    sub_chars, trim, trim_chars, utf8_len, utf8_len_checked, utf8_len_range,
};

verus! {

/// Position of a note name in the chromatic scale A, A#/Bb, B/Cb, C/B#, C#/Db, D,
/// D#/Eb, E/Fb, F/E#, F#/Gb, G, G#/Ab; `None` for any other name.
pub open spec fn note_index(n: Seq<char>) -> Option<int> {
    if n == seq!['A'] {
        Some(0)
    } else if n == seq!['A', '#'] || n == seq!['B', 'b'] {
        Some(1)
    } else if n == seq!['B'] || n == seq!['C', 'b'] {
        Some(2)
    } else if n == seq!['C'] || n == seq!['B', '#'] {
        Some(3)
    } else if n == seq!['C', '#'] || n == seq!['D', 'b'] {
        Some(4)
    } else if n == seq!['D'] {
        Some(5)
    } else if n == seq!['D', '#'] || n == seq!['E', 'b'] {
        Some(6)
    } else if n == seq!['E'] || n == seq!['F', 'b'] {
        Some(7)
    } else if n == seq!['F'] || n == seq!['E', '#'] {
        Some(8)
    } else if n == seq!['F', '#'] || n == seq!['G', 'b'] {
        Some(9)
    } else if n == seq!['G'] {
        Some(10)
    } else if n == seq!['G', '#'] || n == seq!['A', 'b'] {
        Some(11)
    } else {
        None
    }
}

/// The name the scale gives first for position `i` (0 <= i < 12).
pub open spec fn note_name(i: int) -> Seq<char> {
    if i == 0 {
        seq!['A']
    } else if i == 1 {
        seq!['A', '#']
    } else if i == 2 {
        seq!['B']
    } else if i == 3 {
        seq!['C']
    } else if i == 4 {
        seq!['C', '#']
    } else if i == 5 {
        seq!['D']
    } else if i == 6 {
        seq!['D', '#']
    } else if i == 7 {
        seq!['E']
    } else if i == 8 {
        seq!['F']
    } else if i == 9 {
        seq!['F', '#']
    } else if i == 10 {
        seq!['G']
    } else {
        seq!['G', '#']
    }
}

/// A note name moved by `steps` half steps: the trimmed name when it is not in the
/// scale, else the first name of the position reached (wrapping around the octave).
pub open spec fn transposed_note(note: Seq<char>, steps: int) -> Seq<char> {
    let t = trim(note);
    match note_index(t) {
        Some(i) => note_name((i + steps) % 12),
        None => t,
    }
}

/// Half steps can be added to the note's position without leaving `i32`.
pub open spec fn steps_fit(note: Seq<char>, steps: int) -> bool {
    match note_index(trim(note)) {
        Some(i) => i + steps <= i32::MAX,
        None => true,
    }
}

pub(crate) fn note_index_of(n: &[char]) -> (r: Option<usize>)
    ensures
        match note_index(n@) {
            Some(i) => r == Some(i as usize),
            None => r is None,
        },
{
    if n.len() == 1 {
        let c = n[0];
        let r = if c == 'A' {
            Some(0)
        } else if c == 'B' {
            Some(2)
        } else if c == 'C' {
            Some(3)
        } else if c == 'D' {
            Some(5)
        } else if c == 'E' {
            Some(7)
        } else if c == 'F' {
            Some(8)
        } else if c == 'G' {
            Some(10)
        } else {
            None
        };
        assert(n@ =~= seq![c]);
        r
    } else if n.len() == 2 {
        let c = n[0];
        let d = n[1];
        assert(n@ =~= seq![c, d]);
        if d == '#' {
            if c == 'A' {
                Some(1)
            } else if c == 'B' {
                Some(3)
            } else if c == 'C' {
                Some(4)
            } else if c == 'D' {
                Some(6)
            } else if c == 'E' {
                Some(8)
            } else if c == 'F' {
                Some(9)
            } else if c == 'G' {
                Some(11)
            } else {
                None
            }
        } else if d == 'b' {
            if c == 'A' {
                Some(11)
            } else if c == 'B' {
                Some(1)
            } else if c == 'C' {
                Some(2)
            } else if c == 'D' {
                Some(4)
            } else if c == 'E' {
                Some(6)
            } else if c == 'F' {
                Some(7)
            } else if c == 'G' {
                Some(9)
            } else {
                None
            }
        } else {
            None
        }
    } else {
        None
    }
}

fn note_name_chars(i: usize) -> (r: Vec<char>)
    requires
        i < 12,
    ensures
        r@ == note_name(i as int),
{
    let v = if i == 0 {
        vec!['A']
    } else if i == 1 {
        vec!['A', '#']
    } else if i == 2 {
        vec!['B']
    } else if i == 3 {
        vec!['C']
    } else if i == 4 {
        vec!['C', '#']
    } else if i == 5 {
        vec!['D']
    } else if i == 6 {
        vec!['D', '#']
    } else if i == 7 {
        vec!['E']
    } else if i == 8 {
        vec!['F']
    } else if i == 9 {
        vec!['F', '#']
    } else if i == 10 {
        vec!['G']
    } else {
        vec!['G', '#']
    };
    assert(v@ =~= note_name(i as int));
    v
}

/// `transpose_note` on characters.
pub fn transpose_note_chars(note: &[char], steps: i32) -> (r: Vec<char>)
    requires
        steps_fit(note@, steps as int),
    ensures
        r@ == transposed_note(note@, steps as int),
{
    let t = trim_chars(note);
    match note_index_of(&t) {
        Some(idx) => {
            let sum: i64 = idx as i64 + steps as i64;
            let new_idx: u64 = if sum >= 0 {
                (sum as u64) % 12
            } else {
                11 - ((-(sum + 1)) as u64) % 12
            };
            assert(new_idx == (idx + steps) % 12) by {
                let s = idx as int + steps as int;
                if s < 0 {
                    let k = -(s + 1);
                    assert(k >= 0);
                    assert(s % 12 == 11 - k % 12) by (nonlinear_arith)
                        requires
                            k == -(s + 1),
                            k >= 0,
                    ;
                }
            }
            note_name_chars(new_idx as usize)
        },
        None => t,
    }
}

/// Transpose a single note name by the given number of half steps.
/// Returns the first enharmonic name for the resulting note; a name outside the scale
/// comes back trimmed and otherwise unchanged.
pub fn transpose_note(note: &str, steps: i32) -> (r: String)
    requires
        steps_fit(note@, steps as int),
    ensures
        r@ == transposed_note(note@, steps as int),
{
    let chars = chars_of(note);
    let t = transpose_note_chars(&chars, steps);
    string_from_chars(&t)
}


// ---------------------------------------------------------------------------
// Transposing parsed lines
// ---------------------------------------------------------------------------

/// Index of the character at which byte offset `b` of `s` starts, if `b` lies on a
/// character boundary of `s` (the end of `s` included).
pub open spec fn char_index(s: Seq<char>, b: int) -> Option<int>
    decreases s.len(),
{
    if b == 0 {
        Some(0)
    } else if s.len() == 0 || b < 0 || b < char_len_utf8(s[0]) {
        None
    } else {
        match char_index(s.drop_first(), b - char_len_utf8(s[0])) {
            Some(i) => Some(i + 1),
            None => None,
        }
    }
}

/// The text between byte offsets `a` and `b` of `s` (`&s[a..b]`).
pub open spec fn byte_slice(s: Seq<char>, a: int, b: int) -> Seq<char> {
    s.subrange(char_index(s, a)->0, char_index(s, b)->0)
}

/// `&s[a..b]` is defined: both offsets are character boundaries, in order.
pub open spec fn slice_ok(s: Seq<char>, a: int, b: int) -> bool {
    a <= b && char_index(s, a) is Some && char_index(s, b) is Some
}

/// The chord with its root and bass note moved by `steps` half steps.
pub open spec fn transposed_chord(c: ChordView, steps: int) -> ChordView {
    ChordView {
        column: c.column,
        root: transposed_note(c.root, steps),
        quality: c.quality,
        bass: match c.bass {
            Some(b) => Some(transposed_note(b, steps)),
            None => None,
        },
    }
}

/// `n` spaces.
pub open spec fn spaces(n: nat) -> Seq<char> {
    Seq::new(n, |i: int| ' ')
}

/// Byte offset just after chord `i` in the untransposed content (0 before the first chord).
pub open spec fn end_before(cs: Seq<ChordView>, i: int) -> int {
    if i == 0 {
        0
    } else {
        cs[i - 1].column + utf8_len(chord_display(cs[i - 1]))
    }
}

/// The text of `content` from byte offset `last` up to chord column `col` (all of the
/// rest if `col` lies beyond the end), or nothing if `col` is not past `last`.
pub open spec fn gap(content: Seq<char>, last: int, col: int) -> Seq<char> {
    if col > last {
        if col <= utf8_len(content) {
            byte_slice(content, last, col)
        } else {
            byte_slice(content, last, utf8_len(content) as int)
        }
    } else {
        Seq::empty()
    }
}

/// New content and chords after the first `n` chords of a line are transposed.
pub struct Rewrite {
    pub text: Seq<char>,
    pub chords: Seq<ChordView>,
}

/// Each chord is written at its place with its new name; where the new name is
/// shorter, spaces keep the text after it where it was. A chord's new column is
/// where its new name starts in the new text.
pub open spec fn rewrite(l: LineView, steps: int, n: int) -> Rewrite
    decreases n,
{
    if n <= 0 {
        Rewrite { text: Seq::empty(), chords: Seq::empty() }
    } else {
        let r = rewrite(l, steps, n - 1);
        let c = l.chords[n - 1];
        let old_name = chord_display(c);
        let t = transposed_chord(c, steps);
        let new_name = chord_display(t);
        let out = r.text + gap(l.content, end_before(l.chords, n - 1), c.column) + new_name;
        let pad = if utf8_len(new_name) < utf8_len(old_name) {
            spaces((utf8_len(old_name) - utf8_len(new_name)) as nat)
        } else {
            Seq::empty()
        };
        Rewrite {
            text: out + pad,
            chords: r.chords.push(
                ChordView { column: utf8_len(out) - utf8_len(new_name), ..t },
            ),
        }
    }
}

/// A line with every chord moved by `steps` half steps.
pub open spec fn transposed_line(l: LineView, steps: int) -> LineView {
    if steps == 0 || l.chords.len() == 0 {
        l
    } else {
        let n = l.chords.len() as int;
        let r = rewrite(l, steps, n);
        let last = end_before(l.chords, n);
        LineView {
            kind: l.kind,
            content: r.text + if last < utf8_len(l.content) {
                byte_slice(l.content, last, utf8_len(l.content) as int)
            } else {
                Seq::empty()
            },
            chords: r.chords,
        }
    }
}

/// The slices that transposing chord `i` takes of the content are defined.
pub open spec fn chord_slices_ok(l: LineView, i: int) -> bool {
    let c = l.chords[i];
    let last = end_before(l.chords, i);
    let len = utf8_len(l.content) as int;
    c.column > last ==> if c.column <= len {
        slice_ok(l.content, last, c.column)
    } else {
        slice_ok(l.content, last, len)
    }
}

/// A chord's notes can be moved, and its name and place fit the machine's integers.
pub open spec fn chord_fits(c: ChordView, steps: int) -> bool {
    &&& steps_fit(c.root, steps)
    &&& (c.bass matches Some(b) ==> steps_fit(b, steps))
    &&& utf8_len(chord_display(c)) <= i32::MAX
    &&& utf8_len(chord_display(transposed_chord(c, steps))) <= i32::MAX
    &&& c.column + utf8_len(chord_display(c)) <= usize::MAX
}

/// The cuts that transposing makes in the line's content (between chords, and after
/// the last one) fall on character boundaries.
pub open spec fn line_slices_ok(l: LineView) -> bool {
    &&& forall|i: int| 0 <= i < l.chords.len() ==> #[trigger] chord_slices_ok(l, i)
    &&& ({
        let last = end_before(l.chords, l.chords.len() as int);
        last < utf8_len(l.content) ==> slice_ok(l.content, last, utf8_len(l.content) as int)
    })
}

/// Transposing the line by `steps` slices its content only at character boundaries,
/// and what it builds fits in memory.
pub open spec fn line_transposable(l: LineView, steps: int) -> bool {
    steps != 0 && l.chords.len() > 0 ==> {
        &&& line_slices_ok(l)
        &&& forall|i: int| 0 <= i < l.chords.len() ==> chord_fits(#[trigger] l.chords[i], steps)
        &&& utf8_len(l.content) <= usize::MAX
        &&& utf8_len(transposed_line(l, steps).content) <= usize::MAX
    }
}

proof fn lemma_utf8_len_single(c: char)
    ensures
        utf8_len(seq![c]) == char_len_utf8(c),
{
    reveal_with_fuel(utf8_len, 2);
    assert(seq![c].drop_last() =~= Seq::<char>::empty());
    assert(seq![c].last() == c);
}

pub(crate) proof fn lemma_char_index(s: Seq<char>, b: int)
    ensures
        char_index(s, b) matches Some(i) ==> 0 <= i <= s.len() && utf8_len(s.take(i)) == b,
    decreases s.len(),
{
    if b != 0 && s.len() != 0 && b >= 0 && b >= char_len_utf8(s[0]) {
        let w = char_len_utf8(s[0]);
        lemma_char_index(s.drop_first(), b - w);
        if let Some(i) = char_index(s.drop_first(), b - w) {
            assert(s.take(i + 1) =~= seq![s[0]] + s.drop_first().take(i));
            lemma_utf8_len_concat(seq![s[0]], s.drop_first().take(i));
            lemma_utf8_len_single(s[0]);
        }
    }
    if b == 0 {
        assert(s.take(0) =~= Seq::<char>::empty());
    }
}

pub(crate) proof fn lemma_char_index_of_prefix(s: Seq<char>, i: int)
    requires
        0 <= i <= s.len(),
    ensures
        char_index(s, utf8_len(s.take(i)) as int) == Some(i),
    decreases i,
{
    if i == 0 {
        assert(s.take(0) =~= Seq::<char>::empty());
    } else {
        let t = s.drop_first();
        lemma_char_index_of_prefix(t, i - 1);
        assert(s.take(i) =~= seq![s[0]] + t.take(i - 1));
        lemma_utf8_len_concat(seq![s[0]], t.take(i - 1));
        lemma_utf8_len_single(s[0]);
        assert(utf8_len(s.take(i)) > 0);
        assert(t == s.drop_first());
    }
}

/// Character index of byte offset `b`, if it lies on a character boundary.
pub(crate) fn byte_to_index(s: &[char], b: usize) -> (r: Option<usize>)
    ensures
        match char_index(s@, b as int) {
            Some(i) => r == Some(i as usize),
            None => r is None,
        },
{
    let n = s.len();
    let mut i: usize = 0;
    let mut acc: usize = 0;
    proof {
        assert(s@.take(0) =~= Seq::<char>::empty());
    }
    while i < n && acc < b
        invariant
            n == s@.len(),
            i <= n,
            acc == utf8_len(s@.take(i as int)),
            acc <= b,
        decreases n - i,
    {
        proof {
            assert(s@.take(i + 1).drop_last() =~= s@.take(i as int));
        }
        let w = len_utf8(s[i]);
        if w > b - acc {
            proof {
                lemma_char_index(s@, b as int);
                if let Some(j) = char_index(s@, b as int) {
                    if j <= i {
                        lemma_prefix_len_strict(s@, j, i as int);
                    } else {
                        lemma_prefix_len_strict(s@, i as int, j);
                    }
                }
            }
            return None;
        }
        acc = acc + w;
        i = i + 1;
    }
    proof {
        lemma_char_index(s@, b as int);
        if let Some(j) = char_index(s@, b as int) {
            if acc < b {
                if j <= i {
                    lemma_prefix_len_strict(s@, j, i as int);
                } else {
                    assert(i == n);
                    lemma_prefix_len_strict(s@, i as int, j);
                }
            } else {
                lemma_char_index_of_prefix(s@, i as int);
            }
        } else {
            if acc == b {
                lemma_char_index_of_prefix(s@, i as int);
            }
        }
    }
    if acc == b {
        Some(i)
    } else {
        None
    }
}

/// Byte lengths of prefixes grow strictly with the prefix.
pub(crate) proof fn lemma_prefix_len_strict(s: Seq<char>, i: int, j: int)
    requires
        0 <= i <= j <= s.len(),
    ensures
        utf8_len(s.take(i)) + (j - i) <= utf8_len(s.take(j)),
        i < j ==> utf8_len(s.take(i)) + char_len_utf8(s[i]) <= utf8_len(s.take(j)),
    decreases j - i,
{
    if i < j {
        lemma_prefix_len_strict(s, i, j - 1);
        assert(s.take(j).drop_last() =~= s.take(j - 1));
        if i == j - 1 {
            assert(s.take(j).last() == s[i]);
        }
    }
}

pub proof fn lemma_utf8_len_sub(s: Seq<char>, a: int, b: int)
    requires
        0 <= a <= b <= s.len(),
    ensures
        utf8_len(s.subrange(a, b)) <= utf8_len(s),
{
    assert(s.subrange(0, a) + s.subrange(a, b) =~= s.subrange(0, b));
    lemma_utf8_len_concat(s.subrange(0, a), s.subrange(a, b));
    assert(s.subrange(0, b) + s.subrange(b, s.len() as int) =~= s);
    lemma_utf8_len_concat(s.subrange(0, b), s.subrange(b, s.len() as int));
}

/// Each step of the rewrite only appends to the text.
proof fn lemma_rewrite_prefix(l: LineView, steps: int, k: int, n: int)
    requires
        0 <= k <= n,
    ensures
        rewrite(l, steps, n).text.len() >= rewrite(l, steps, k).text.len(),
        rewrite(l, steps, n).text.subrange(0, rewrite(l, steps, k).text.len() as int) == rewrite(
            l,
            steps,
            k,
        ).text,
        utf8_len(rewrite(l, steps, k).text) <= utf8_len(rewrite(l, steps, n).text),
    decreases n - k,
{
    if k < n {
        lemma_rewrite_prefix(l, steps, k, n - 1);
        let a = rewrite(l, steps, k).text;
        let b = rewrite(l, steps, n - 1).text;
        let c = rewrite(l, steps, n).text;
        assert(c.subrange(0, b.len() as int) == b);
        assert(c.subrange(0, a.len() as int) =~= b.subrange(0, a.len() as int));
        lemma_utf8_len_concat(b, c.subrange(b.len() as int, c.len() as int));
        assert(b + c.subrange(b.len() as int, c.len() as int) =~= c);
    }
}

/// Characters of a chord's display name after moving its notes.
fn transposed_name(c: &ChordPosition, steps: i32) -> (r: Vec<char>)
    requires
        chord_fits(c@, steps as int),
    ensures
        r@ == chord_display(transposed_chord(c@, steps as int)),
{
    let mut v = transpose_note_chars(&chars_of(c.root.as_str()), steps);
    let q = chars_of(c.quality.as_str());
    push_all(&mut v, &q);
    match &c.bass {
        Some(b) => {
            v.push('/');
            let nb = transpose_note_chars(&chars_of(b.as_str()), steps);
            push_all(&mut v, &nb);
        },
        None => {},
    }
    v
}

/// `&s[a..b]`: the text between two byte offsets that lie on character boundaries.
pub fn byte_slice_chars(s: &[char], a: usize, b: usize) -> (r: Vec<char>)
    requires
        slice_ok(s@, a as int, b as int),
    ensures
        r@ == byte_slice(s@, a as int, b as int),
{
    let _n = s.len();
    let ia = byte_to_index(s, a);
    let ib = byte_to_index(s, b);
    match (ia, ib) {
        (Some(i), Some(j)) => {
            proof {
                lemma_char_index(s@, a as int);
                lemma_char_index(s@, b as int);
                if i > j {
                    lemma_prefix_len_strict(s@, j as int, i as int);
                }
            }
            sub_chars(s, i, j)
        },
        _ => {
            proof {
                assert(false);
            }
            Vec::new()
        },
    }
}

fn copy_chord(c: &ChordPosition) -> (r: ChordPosition)
    ensures
        r@ == c@,
{
    ChordPosition {
        column: c.column,
        root: c.root.clone(),
        quality: c.quality.clone(),
        bass: match &c.bass {
            Some(b) => Some(b.clone()),
            None => None,
        },
    }
}

/// An identical copy of a parsed line.
pub fn copy_line(l: &ParsedLine) -> (r: ParsedLine)
    ensures
        r@ == l@,
{
    let mut chords: Vec<ChordPosition> = Vec::new();
    let mut i: usize = 0;
    while i < l.chords.len()
        invariant
            i <= l.chords@.len(),
            chord_views(chords@) == chord_views(l.chords@.take(i as int)),
        decreases l.chords@.len() - i,
    {
        let c = copy_chord(&l.chords[i]);
        proof {
            assert(chord_views(chords@.push(c)) =~= chord_views(chords@).push(c@));
            assert(chord_views(l.chords@.take(i + 1)) =~= chord_views(l.chords@.take(i as int)).push(
                l.chords@[i as int]@,
            ));
        }
        chords.push(c);
        i = i + 1;
    }
    assert(l.chords@.take(l.chords@.len() as int) =~= l.chords@);
    ParsedLine { kind: l.kind, content: l.content.clone(), chords }
}

fn push_spaces(v: &mut Vec<char>, n: usize)
    ensures
        final(v)@ == old(v)@ + spaces(n as nat),
{
    let mut i: usize = 0;
    while i < n
        invariant
            i <= n,
            v@ == old(v)@ + spaces(i as nat),
        decreases n - i,
    {
        v.push(' ');
        i = i + 1;
        assert(old(v)@ + spaces(i as nat) =~= old(v)@ + spaces((i - 1) as nat) + seq![' ']);
    }
}

/// One line with every chord moved by `steps` half steps.
#[verifier::rlimit(60)]
pub fn transpose_line(line: &ParsedLine, steps: i32) -> (r: ParsedLine)
    requires
        line_transposable(line@, steps as int),
    ensures
        r@ == transposed_line(line@, steps as int),
{
    if steps == 0 || line.chords.len() == 0 {
        return copy_line(line);
    }
    let ghost l = line@;
    let content = chars_of(line.content.as_str());
    let n = content.len();
    proof {
        assert(content@.subrange(0, n as int) =~= content@);
    }
    let clen = utf8_len_range(&content, 0, n);
    let ghost total = rewrite(l, steps as int, l.chords.len() as int).text;
    proof {
        lemma_utf8_len_concat(total, transposed_line(l, steps as int).content.subrange(
            total.len() as int,
            transposed_line(l, steps as int).content.len() as int,
        ));
        assert(total + transposed_line(l, steps as int).content.subrange(
            total.len() as int,
            transposed_line(l, steps as int).content.len() as int,
        ) =~= transposed_line(l, steps as int).content);
    }
    let mut out: Vec<char> = Vec::new();
    let mut chords: Vec<ChordPosition> = Vec::new();
    let mut out_len: usize = 0;
    let mut last: usize = 0;
    let mut i: usize = 0;
    proof {
        assert(chord_views(chords@) =~= Seq::<ChordView>::empty());
    }
    while i < line.chords.len()
        invariant
            l == line@,
            steps != 0,
            line_transposable(l, steps as int),
            l.chords.len() > 0,
            content@ == l.content,
            n == content@.len(),
            clen == utf8_len(l.content),
            total == rewrite(l, steps as int, l.chords.len() as int).text,
            utf8_len(total) <= usize::MAX,
            i <= l.chords.len(),
            out@ == rewrite(l, steps as int, i as int).text,
            chord_views(chords@) == rewrite(l, steps as int, i as int).chords,
            out_len == utf8_len(out@),
            last == end_before(l.chords, i as int),
        decreases l.chords.len() - i,
    {
        let c = &line.chords[i];
        let ghost cv = c@;
        proof {
            assert(l.chords[i as int] == cv);
            assert(chord_slices_ok(l, i as int));
            assert(chord_fits(l.chords[i as int], steps as int));
            lemma_rewrite_prefix(l, steps as int, i + 1, l.chords.len() as int);
        }
        let old_name = c.display_chars();
        let new_name = transposed_name(c, steps);
        proof {
            assert(old_name@.subrange(0, old_name@.len() as int) =~= old_name@);
            assert(new_name@.subrange(0, new_name@.len() as int) =~= new_name@);
        }
        let old_len = utf8_len_range(&old_name, 0, old_name.len());
        let new_len = utf8_len_range(&new_name, 0, new_name.len());
        let ghost gapv = gap(l.content, last as int, cv.column);
        if c.column > last {
            let end = if c.column <= clen {
                c.column
            } else {
                clen
            };
            let ia = byte_to_index(&content, last);
            let ib = byte_to_index(&content, end);
            match (ia, ib) {
                (Some(a), Some(b)) => {
                    proof {
                        lemma_char_index(content@, last as int);
                        lemma_char_index(content@, end as int);
                        if a > b {
                            lemma_prefix_len_strict(content@, b as int, a as int);
                        }
                        lemma_utf8_len_sub(content@, a as int, b as int);
                    }
                    let seg = sub_chars(&content, a, b);
                    proof {
                        assert(seg@ == gapv);
                        lemma_utf8_len_concat(out@, seg@);
                        lemma_utf8_len_concat(out@ + seg@, new_name@);
                        lemma_utf8_len_concat(
                            out@ + seg@ + new_name@,
                            rewrite(l, steps as int, i + 1).text.subrange(
                                (out@ + seg@ + new_name@).len() as int,
                                rewrite(l, steps as int, i + 1).text.len() as int,
                            ),
                        );
                        assert(out@ + seg@ + new_name@ + rewrite(l, steps as int, i + 1).text.subrange(
                            (out@ + seg@ + new_name@).len() as int,
                            rewrite(l, steps as int, i + 1).text.len() as int,
                        ) =~= rewrite(l, steps as int, i + 1).text);
                    }
                    let seg_len = utf8_len_range(&content, a, b);
                    proof {
                        assert(content@.subrange(a as int, b as int) == seg@);
                    }
                    push_all(&mut out, &seg);
                    out_len = out_len + seg_len;
                },
                _ => {
                    proof {
                        assert(false);
                    }
                },
            }
        } else {
            proof {
                assert(gapv =~= Seq::<char>::empty());
                assert(out@ + gapv =~= out@);
                lemma_utf8_len_concat(out@, new_name@);
                lemma_utf8_len_concat(
                    out@ + new_name@,
                    rewrite(l, steps as int, i + 1).text.subrange(
                        (out@ + new_name@).len() as int,
                        rewrite(l, steps as int, i + 1).text.len() as int,
                    ),
                );
                assert(out@ + new_name@ + rewrite(l, steps as int, i + 1).text.subrange(
                    (out@ + new_name@).len() as int,
                    rewrite(l, steps as int, i + 1).text.len() as int,
                ) =~= rewrite(l, steps as int, i + 1).text);
            }
        }
        let ghost out_mid = out@;
        push_all(&mut out, &new_name);
        proof {
            lemma_utf8_len_concat(out_mid, new_name@);
        }
        out_len = out_len + new_len;
        let column = out_len - new_len;
        last = c.column + old_len;
        let nc = ChordPosition {
            column,
            root: string_from_chars(&transpose_note_chars(&chars_of(c.root.as_str()), steps)),
            quality: c.quality.clone(),
            bass: match &c.bass {
                Some(b) => Some(string_from_chars(&transpose_note_chars(&chars_of(b.as_str()), steps))),
                None => None,
            },
        };
        if new_len < old_len {
            let ghost out_mid2 = out@;
            push_spaces(&mut out, old_len - new_len);
            proof {
                lemma_utf8_len_concat(out_mid2, spaces((old_len - new_len) as nat));
                lemma_spaces_len((old_len - new_len) as nat);
            }
            out_len = out_len + (old_len - new_len);
        }
        proof {
            assert(chord_views(chords@.push(nc)) =~= chord_views(chords@).push(nc@));
        }
        chords.push(nc);
        i = i + 1;
    }
    let last_ok = last < clen;
    if last_ok {
        let ia = byte_to_index(&content, last);
        let ib = byte_to_index(&content, clen);
        match (ia, ib) {
            (Some(a), Some(b)) => {
                proof {
                    lemma_char_index(content@, last as int);
                    lemma_char_index(content@, clen as int);
                    if a > b {
                        lemma_prefix_len_strict(content@, b as int, a as int);
                    }
                }
                let seg = sub_chars(&content, a, b);
                push_all(&mut out, &seg);
            },
            _ => {
                proof {
                    assert(false);
                }
            },
        }
    }
    let r = ParsedLine { kind: line.kind, content: string_from_chars(&out), chords };
    proof {
        if !last_ok {
            assert(out@ + Seq::<char>::empty() =~= out@);
        }
    }
    r
}

proof fn lemma_spaces_len(n: nat)
    ensures
        utf8_len(spaces(n)) == n,
    decreases n,
{
    if n > 0 {
        lemma_spaces_len((n - 1) as nat);
        assert(spaces(n).drop_last() =~= spaces((n - 1) as nat));
    } else {
        assert(spaces(0) =~= Seq::<char>::empty());
    }
}

proof fn lemma_slice_len(s: Seq<char>, a: int, b: int)
    requires
        slice_ok(s, a, b),
    ensures
        utf8_len(byte_slice(s, a, b)) == b - a,
{
    lemma_char_index(s, a);
    lemma_char_index(s, b);
    let i = char_index(s, a)->0;
    let j = char_index(s, b)->0;
    if i > j {
        lemma_prefix_len_strict(s, j, i);
    }
    assert(s.take(i) + s.subrange(i, j) =~= s.take(j));
    lemma_utf8_len_concat(s.take(i), s.subrange(i, j));
}

fn note_fits(note: &str, steps: i32) -> (b: bool)
    ensures
        b == steps_fit(note@, steps as int),
{
    let t = trim_chars(&chars_of(note));
    match note_index_of(&t) {
        Some(i) => (i as i64) + (steps as i64) <= 0x7fff_ffff,
        None => true,
    }
}

/// The byte lengths of a chord's name before and after moving it, when the chord
/// fits (`chord_fits`).
fn chord_lengths(c: &ChordPosition, steps: i32) -> (r: Option<(usize, usize)>)
    ensures
        match r {
            Some((o, n)) => chord_fits(c@, steps as int) && o == utf8_len(chord_display(c@)) && n
                == utf8_len(chord_display(transposed_chord(c@, steps as int))),
            None => !chord_fits(c@, steps as int),
        },
{
    if !note_fits(c.root.as_str(), steps) {
        return None;
    }
    let bass_ok = match &c.bass {
        Some(b) => note_fits(b.as_str(), steps),
        None => true,
    };
    if !bass_ok {
        return None;
    }
    let old_name = c.display_chars();
    let old_len = match utf8_len_checked(&old_name) {
        Some(n) => n,
        None => {
            return None;
        },
    };
    if old_len > 0x7fff_ffff || c.column > usize::MAX - old_len {
        return None;
    }
    let mut new_name = transpose_note_chars(&chars_of(c.root.as_str()), steps);
    push_all(&mut new_name, &chars_of(c.quality.as_str()));
    match &c.bass {
        Some(b) => {
            new_name.push('/');
            push_all(&mut new_name, &transpose_note_chars(&chars_of(b.as_str()), steps));
        },
        None => {},
    }
    assert(new_name@ =~= chord_display(transposed_chord(c@, steps as int)));
    let new_len = match utf8_len_checked(&new_name) {
        Some(n) => n,
        None => {
            return None;
        },
    };
    if new_len > 0x7fff_ffff {
        return None;
    }
    Some((old_len, new_len))
}

proof fn lemma_rewrite_len_step(l: LineView, steps: int, i: int, old_len: int, new_len: int)
    requires
        0 <= i < l.chords.len(),
        old_len == utf8_len(chord_display(l.chords[i])),
        new_len == utf8_len(chord_display(transposed_chord(l.chords[i], steps))),
    ensures
        utf8_len(rewrite(l, steps, i + 1).text) == utf8_len(rewrite(l, steps, i).text) + utf8_len(
            gap(l.content, end_before(l.chords, i), l.chords[i].column),
        ) + new_len + (if new_len < old_len {
            old_len - new_len
        } else {
            0
        }),
{
    let r0 = rewrite(l, steps, i).text;
    let g = gap(l.content, end_before(l.chords, i), l.chords[i].column);
    let nn = chord_display(transposed_chord(l.chords[i], steps));
    let out = r0 + g + nn;
    let padv = if new_len < old_len {
        spaces((old_len - new_len) as nat)
    } else {
        Seq::empty()
    };
    assert(rewrite(l, steps, i + 1).text == out + padv);
    lemma_utf8_len_concat(r0, g);
    lemma_utf8_len_concat(r0 + g, nn);
    lemma_utf8_len_concat(out, padv);
    if new_len < old_len {
        lemma_spaces_len((old_len - new_len) as nat);
    } else {
        assert(utf8_len(padv) == 0);
    }
}

proof fn lemma_transposed_len_at_least(l: LineView, steps: int)
    requires
        steps != 0,
        l.chords.len() > 0,
    ensures
        utf8_len(transposed_line(l, steps).content) >= utf8_len(
            rewrite(l, steps, l.chords.len() as int).text,
        ),
{
    let n = l.chords.len() as int;
    let r = rewrite(l, steps, n).text;
    let last = end_before(l.chords, n);
    let tail = if last < utf8_len(l.content) {
        byte_slice(l.content, last, utf8_len(l.content) as int)
    } else {
        Seq::empty()
    };
    assert(transposed_line(l, steps).content == r + tail);
    lemma_utf8_len_concat(r, tail);
}

/// Whether `transpose_line` can take `line` and `steps` (`line_transposable`).
pub fn line_can_transpose(line: &ParsedLine, steps: i32) -> (b: bool)
    ensures
        b == line_transposable(line@, steps as int),
{
    let ghost l = line@;
    if steps == 0 || line.chords.len() == 0 {
        return true;
    }
    let content = chars_of(line.content.as_str());
    let clen = match utf8_len_checked(&content) {
        Some(n) => n,
        None => {
            return false;
        },
    };
    let mut last: usize = 0;
    let mut total: usize = 0;
    let mut i: usize = 0;
    proof {
        assert(rewrite(l, steps as int, 0).text =~= Seq::<char>::empty());
        lemma_transposed_len_at_least(l, steps as int);
    }
    while i < line.chords.len()
        invariant
            l == line@,
            utf8_len(transposed_line(l, steps as int).content) >= utf8_len(
                rewrite(l, steps as int, l.chords.len() as int).text,
            ),
            steps != 0,
            l.chords.len() > 0,
            content@ == l.content,
            clen == utf8_len(l.content),
            i <= l.chords.len(),
            last == end_before(l.chords, i as int),
            total == utf8_len(rewrite(l, steps as int, i as int).text),
            forall|j: int| 0 <= j < i ==> #[trigger] chord_slices_ok(l, j),
            forall|j: int| 0 <= j < i ==> chord_fits(#[trigger] l.chords[j], steps as int),
        decreases l.chords.len() - i,
    {
        let c = &line.chords[i];
        proof {
            assert(l.chords[i as int] == c@);
            lemma_rewrite_prefix(l, steps as int, i + 1, l.chords.len() as int);
        }
        let (old_len, new_len) = match chord_lengths(c, steps) {
            Some(p) => p,
            None => {
                return false;
            },
        };
        let mut gap_len: usize = 0;
        if c.column > last {
            let end = if c.column <= clen {
                c.column
            } else {
                clen
            };
            if last > end || byte_to_index(&content, last).is_none() || byte_to_index(
                &content,
                end,
            ).is_none() {
                proof {
                    assert(!chord_slices_ok(l, i as int));
                }
                return false;
            }
            proof {
                lemma_slice_len(l.content, last as int, end as int);
            }
            gap_len = end - last;
        }
        proof {
            assert(chord_slices_ok(l, i as int));
            lemma_rewrite_len_step(l, steps as int, i as int, old_len as int, new_len as int);
        }
        let pad: usize = if new_len < old_len {
            old_len - new_len
        } else {
            0
        };
        let step = match gap_len.checked_add(new_len) {
            Some(x) => match x.checked_add(pad) {
                Some(y) => y,
                None => {
                    return false;
                },
            },
            None => {
                return false;
            },
        };
        total = match total.checked_add(step) {
            Some(x) => x,
            None => {
                return false;
            },
        };
        last = c.column + old_len;
        i = i + 1;
    }
    let ghost n = l.chords.len() as int;
    let ghost r = rewrite(l, steps as int, n);
    let ghost t = transposed_line(l, steps as int);
    if last < clen {
        if byte_to_index(&content, last).is_none() || byte_to_index(&content, clen).is_none() {
            assert(!line_slices_ok(l));
            return false;
        }
        proof {
            lemma_slice_len(l.content, last as int, clen as int);
            lemma_utf8_len_concat(r.text, byte_slice(l.content, last as int, clen as int));
            assert(t.content == r.text + byte_slice(l.content, last as int, clen as int));
        }
        if total > usize::MAX - (clen - last) {
            return false;
        }
    } else {
        assert(t.content == r.text + Seq::<char>::empty());
        assert(r.text + Seq::<char>::empty() =~= r.text);
    }
    assert(line_slices_ok(l));
    true
}

/// Whether `transpose_lines` can take `lines` and `steps`.
pub fn lines_can_transpose(lines: &[ParsedLine], steps: i32) -> (b: bool)
    ensures
        b == forall|i: int| 0 <= i < lines@.len() ==> line_transposable(#[trigger] lines@[i]@, steps as int),
{
    let mut i: usize = 0;
    while i < lines.len()
        invariant
            i <= lines@.len(),
            forall|j: int| 0 <= j < i ==> line_transposable(#[trigger] lines@[j]@, steps as int),
        decreases lines@.len() - i,
    {
        if !line_can_transpose(&lines[i], steps) {
            return false;
        }
        i = i + 1;
    }
    true
}

/// Transpose all chords in a set of parsed lines by the given number of half steps.
/// Returns new lines with transposed chords and updated content strings.
pub fn transpose_lines(lines: &[ParsedLine], steps: i32) -> (r: Vec<ParsedLine>)
    requires
        forall|i: int| 0 <= i < lines@.len() ==> line_transposable(#[trigger] lines@[i]@, steps as int),
    ensures
        line_views(r@) == line_views(lines@).map_values(|l: LineView| transposed_line(l, steps as int)),
        forall|i: int|
            0 <= i < r@.len() && (steps != 0 || line_placed(lines@[i]@)) ==> line_placed(
                #[trigger] r@[i]@,
            ),
{
    let mut r: Vec<ParsedLine> = Vec::new();
    let mut i: usize = 0;
    while i < lines.len()
        invariant
            i <= lines@.len(),
            forall|j: int| 0 <= j < lines@.len() ==> line_transposable(#[trigger] lines@[j]@, steps as int),
            line_views(r@) == line_views(lines@.take(i as int)).map_values(
                |l: LineView| transposed_line(l, steps as int),
            ),
        decreases lines@.len() - i,
    {
        let t = transpose_line(&lines[i], steps);
        proof {
            assert(line_views(r@.push(t)) =~= line_views(r@).push(t@));
            assert(line_views(lines@.take(i + 1)).map_values(|l: LineView| transposed_line(l, steps as int))
                =~= line_views(lines@.take(i as int)).map_values(
                |l: LineView| transposed_line(l, steps as int),
            ).push(transposed_line(lines@[i as int]@, steps as int)));
        }
        r.push(t);
        i = i + 1;
    }
    assert(lines@.take(lines@.len() as int) =~= lines@);
    proof {
        assert forall|i: int|
            0 <= i < r@.len() && (steps != 0 || line_placed(lines@[i]@)) implies line_placed(
            #[trigger] r@[i]@,
        ) by {
            assert(line_views(r@)[i] == r@[i]@);
            assert(line_views(lines@)[i] == lines@[i]@);
            law_transposed_line_placed(lines@[i]@, steps as int);
        }
    }
    r
}


// ---------------------------------------------------------------------------
// Laws of transposition
// ---------------------------------------------------------------------------

/// A sequence with no whitespace at either end is its own trim.
pub(crate) proof fn lemma_trim_of_clean(t: Seq<char>)
    requires
        t.len() > 0 ==> !is_ws(t[0]) && !is_ws(t.last()),
    ensures
        trim(t) == t,
{
    lemma_lead_ws_at(t, 0);
    assert(trim_start(t) =~= t);
    lemma_trail_ws_at(t, 0);
    assert(trim(t) =~= t);
}

/// Trimming twice is trimming once.
pub proof fn lemma_trim_idempotent(s: Seq<char>)
    ensures
        trim(trim(s)) == trim(s),
{
    let u = trim_start(s);
    lemma_lead_ws(s);
    lemma_trail_ws(u);
    let t = trim(s);
    if t.len() > 0 {
        assert(t[0] == u[0]);
        assert(u[0] == s[lead_ws(s) as int]);
        assert(t.last() == u[u.len() - trail_ws(u) - 1]);
    }
    lemma_trim_of_clean(t);
}

proof fn lemma_note_name(k: int)
    requires
        0 <= k < 12,
    ensures
        note_index(note_name(k)) == Some(k),
        trim(note_name(k)) == note_name(k),
{
    lemma_trim_of_clean(note_name(k));
}

/// Moving a note by `a` half steps and then by `b` half steps is moving it by `a + b`.
pub proof fn law_transpose_compose(note: Seq<char>, a: int, b: int)
    ensures
        transposed_note(transposed_note(note, a), b) == transposed_note(note, a + b),
{
    let t = trim(note);
    lemma_trim_idempotent(note);
    match note_index(t) {
        Some(i) => {
            let k = (i + a) % 12;
            lemma_note_name(k);
            assert((k + b) % 12 == (i + a + b) % 12) by {
                vstd::arithmetic::div_mod::lemma_add_mod_noop(i + a, b, 12);
                vstd::arithmetic::div_mod::lemma_add_mod_noop(k, b, 12);
                vstd::arithmetic::div_mod::lemma_mod_twice(i + a, 12);
            }
        },
        None => {},
    }
}

/// Moving a note by a whole octave (twelve half steps) gives the same name.
pub proof fn law_transpose_octave(note: Seq<char>, steps: int)
    ensures
        transposed_note(note, steps + 12) == transposed_note(note, steps),
{
    match note_index(trim(note)) {
        Some(i) => {
            assert((i + steps + 12) % 12 == (i + steps) % 12) by {
                vstd::arithmetic::div_mod::lemma_mod_multiples_vanish(1, i + steps, 12);
            }
        },
        None => {},
    }
}

/// Moving a note up and back down again gives its usual name (the first name of its
/// place in the scale), or the trimmed name if it is not a note.
pub proof fn law_transpose_round_trip(note: Seq<char>, steps: int)
    ensures
        transposed_note(transposed_note(note, steps), -steps) == transposed_note(note, 0),
{
    law_transpose_compose(note, steps, -steps);
    assert(steps + -steps == 0);
}

/// Transposing by zero half steps leaves every line as it was.
pub proof fn law_transpose_zero_is_identity(l: LineView)
    ensures
        transposed_line(l, 0) == l,
{
}


proof fn lemma_rewrite_chords(l: LineView, steps: int, n: int)
    requires
        0 <= n <= l.chords.len(),
    ensures
        rewrite(l, steps, n).chords.len() == n,
        forall|k: int|
            0 <= k < n ==> same_name(
                #[trigger] rewrite(l, steps, n).chords[k],
                transposed_chord(l.chords[k], steps),
            ),
    decreases n,
{
    if n > 0 {
        lemma_rewrite_chords(l, steps, n - 1);
        let r = rewrite(l, steps, n);
        let p = rewrite(l, steps, n - 1);
        assert forall|k: int| 0 <= k < n implies same_name(
            #[trigger] r.chords[k],
            transposed_chord(l.chords[k], steps),
        ) by {
            if k < n - 1 {
                assert(r.chords[k] == p.chords[k]);
            }
        }
    }
}

/// Two chords with the same root, quality and bass (wherever they stand).
pub open spec fn same_name(a: ChordView, b: ChordView) -> bool {
    a.root == b.root && a.quality == b.quality && a.bass == b.bass
}

/// Transposing a line by `steps` half steps keeps its chords, in order, each one
/// renamed as moving its notes by `steps` names it.
pub proof fn law_transposed_line_chords(l: LineView, steps: int)
    requires
        steps != 0,
    ensures
        transposed_line(l, steps).chords.len() == l.chords.len(),
        transposed_line(l, steps).kind == l.kind,
        forall|k: int|
            0 <= k < l.chords.len() ==> same_name(
                #[trigger] transposed_line(l, steps).chords[k],
                transposed_chord(l.chords[k], steps),
            ),
{
    if l.chords.len() > 0 {
        lemma_rewrite_chords(l, steps, l.chords.len() as int);
    }
}

/// Transposing twice, by `a` and then by `b` half steps, names every chord as
/// transposing once by `a + b` does.
pub proof fn law_transposing_twice_adds_steps(l: LineView, a: int, b: int)
    requires
        a != 0,
        b != 0,
    ensures
        transposed_line(transposed_line(l, a), b).chords.len() == l.chords.len(),
        forall|k: int|
            0 <= k < l.chords.len() ==> same_name(
                #[trigger] transposed_line(transposed_line(l, a), b).chords[k],
                transposed_chord(l.chords[k], a + b),
            ),
{
    let t1 = transposed_line(l, a);
    law_transposed_line_chords(l, a);
    law_transposed_line_chords(t1, b);
    assert forall|k: int| 0 <= k < l.chords.len() implies same_name(
        #[trigger] transposed_line(t1, b).chords[k],
        transposed_chord(l.chords[k], a + b),
    ) by {
        let c = l.chords[k];
        let c1 = t1.chords[k];
        law_transpose_compose(c.root, a, b);
        if let Some(bass) = c.bass {
            law_transpose_compose(bass, a, b);
        }
        assert(same_name(c1, transposed_chord(c, a)));
        assert(same_name(transposed_line(t1, b).chords[k], transposed_chord(c1, b)));
    }
}

proof fn lemma_rewrite_chord_stable(l: LineView, steps: int, k: int, n: int)
    requires
        0 <= k < n <= l.chords.len(),
    ensures
        rewrite(l, steps, n).chords.len() == n,
        rewrite(l, steps, n).chords[k] == rewrite(l, steps, k + 1).chords[k],
    decreases n,
{
    lemma_rewrite_chords(l, steps, n);
    if n > k + 1 {
        lemma_rewrite_chord_stable(l, steps, k, n - 1);
        lemma_rewrite_chords(l, steps, n - 1);
    }
}

/// Chord `k`'s name stands in the line's text at the chord's column: the text from
/// the column to the end of the name is cut on character boundaries and is the name.
pub open spec fn name_in_text(t: LineView, k: int) -> bool {
    let c = t.chords[k];
    let end = c.column + utf8_len(chord_display(c));
    &&& slice_ok(t.content, c.column, end)
    &&& byte_slice(t.content, c.column, end) == chord_display(c)
}

/// After transposing, every chord's new name stands in the line's text at the
/// chord's column.
pub proof fn law_transposed_names_in_text(l: LineView, steps: int)
    requires
        steps != 0,
    ensures
        forall|k: int| 0 <= k < l.chords.len() ==> #[trigger] name_in_text(transposed_line(l, steps), k),
{
    let n = l.chords.len() as int;
    if n > 0 {
        let t = transposed_line(l, steps);
        let rn = rewrite(l, steps, n);
        let last = end_before(l.chords, n);
        let tail = if last < utf8_len(l.content) {
            byte_slice(l.content, last, utf8_len(l.content) as int)
        } else {
            Seq::empty()
        };
        assert(t.content == rn.text + tail);
        lemma_rewrite_chords(l, steps, n);
        assert forall|k: int| 0 <= k < n implies #[trigger] name_in_text(t, k) by {
            lemma_name_in_text_at(l, steps, k);
        }
    }
}

/// After transposing, the chords stay in order: each one starts no earlier than where
/// the previous chord's new name ends.
pub proof fn law_transposed_chords_in_order(l: LineView, steps: int)
    requires
        steps != 0,
    ensures
        forall|k: int|
            0 <= k < l.chords.len() ==> (#[trigger] transposed_line(l, steps).chords[k]).column
                >= end_before(transposed_line(l, steps).chords, k),
{
    let n = l.chords.len() as int;
    let t = transposed_line(l, steps);
    assert forall|k: int| 0 <= k < n implies (#[trigger] t.chords[k]).column >= end_before(
        t.chords,
        k,
    ) by {
        if k > 0 {
            lemma_chord_after_previous(l, steps, k);
        } else {
            lemma_chord_column(l, steps, 0);
        }
    }
}

proof fn lemma_chord_column(l: LineView, steps: int, k: int)
    requires
        steps != 0,
        0 <= k < l.chords.len(),
    ensures
        ({
            let rk = rewrite(l, steps, k).text;
            let g = gap(l.content, end_before(l.chords, k), l.chords[k].column);
            let t = transposed_line(l, steps);
            &&& t.chords[k].column == utf8_len(rk + g)
            &&& chord_display(t.chords[k]) == chord_display(transposed_chord(l.chords[k], steps))
        }),
{
    let n = l.chords.len() as int;
    lemma_rewrite_chord_stable(l, steps, k, n);
    lemma_rewrite_chords(l, steps, k);
    lemma_rewrite_chords(l, steps, n);
    let rk = rewrite(l, steps, k);
    let g = gap(l.content, end_before(l.chords, k), l.chords[k].column);
    let tc = transposed_chord(l.chords[k], steps);
    let nn = chord_display(tc);
    let out = rk.text + g + nn;
    let r1 = rewrite(l, steps, k + 1);
    assert(r1.chords == rk.chords.push(ChordView { column: utf8_len(out) - utf8_len(nn), ..tc }));
    lemma_utf8_len_concat(rk.text + g, nn);
    assert(transposed_line(l, steps).chords[k] == r1.chords[k]);
}

proof fn lemma_chord_after_previous(l: LineView, steps: int, k: int)
    requires
        steps != 0,
        0 < k < l.chords.len(),
    ensures
        transposed_line(l, steps).chords[k].column >= end_before(transposed_line(l, steps).chords, k),
{
    let j = k - 1;
    lemma_chord_column(l, steps, j);
    lemma_chord_column(l, steps, k);
    let rj = rewrite(l, steps, j).text;
    let gj = gap(l.content, end_before(l.chords, j), l.chords[j].column);
    let nn = chord_display(transposed_chord(l.chords[j], steps));
    let old_name = chord_display(l.chords[j]);
    let pad = if utf8_len(nn) < utf8_len(old_name) {
        spaces((utf8_len(old_name) - utf8_len(nn)) as nat)
    } else {
        Seq::empty()
    };
    let rk = rewrite(l, steps, k).text;
    assert(rk == rj + gj + nn + pad);
    let gk = gap(l.content, end_before(l.chords, k), l.chords[k].column);
    lemma_utf8_len_concat(rj + gj, nn);
    lemma_utf8_len_concat(rj + gj + nn, pad);
    lemma_utf8_len_concat(rk, gk);
}

proof fn lemma_name_in_text_at(l: LineView, steps: int, k: int)
    requires
        steps != 0,
        0 <= k < l.chords.len(),
    ensures
        name_in_text(transposed_line(l, steps), k),
{
    let n = l.chords.len() as int;
    let t = transposed_line(l, steps);
    let rn = rewrite(l, steps, n);
    let last = end_before(l.chords, n);
    let tail = if last < utf8_len(l.content) {
        byte_slice(l.content, last, utf8_len(l.content) as int)
    } else {
        Seq::empty()
    };
    assert(t.content == rn.text + tail);
    lemma_rewrite_chord_stable(l, steps, k, n);
    lemma_rewrite_prefix(l, steps, k + 1, n);
    lemma_rewrite_chords(l, steps, k);
    lemma_rewrite_chords(l, steps, n);
    let rk = rewrite(l, steps, k);
    let g = gap(l.content, end_before(l.chords, k), l.chords[k].column);
    let tc = transposed_chord(l.chords[k], steps);
    let nn = chord_display(tc);
    let old_name = chord_display(l.chords[k]);
    let pad = if utf8_len(nn) < utf8_len(old_name) {
        spaces((utf8_len(old_name) - utf8_len(nn)) as nat)
    } else {
        Seq::empty()
    };
    let pre = rk.text + g;
    let out = pre + nn;
    let r1 = rewrite(l, steps, k + 1);
    assert(r1.text == out + pad);
    assert(r1.chords == rk.chords.push(ChordView { column: utf8_len(out) - utf8_len(nn), ..tc }));
    let c = t.chords[k];
    assert(c == r1.chords[k]);
    assert(chord_display(c) == nn);
    lemma_utf8_len_concat(pre, nn);
    assert(c.column == utf8_len(pre));
    let content = t.content;
    assert(content.subrange(0, r1.text.len() as int) =~= r1.text) by {
        assert(content.subrange(0, rn.text.len() as int) =~= rn.text);
    }
    assert(content.subrange(0, pre.len() as int) =~= pre) by {
        assert(r1.text.subrange(0, pre.len() as int) =~= pre);
    }
    assert(content.subrange(0, out.len() as int) =~= out) by {
        assert(r1.text.subrange(0, out.len() as int) =~= out);
    }
    lemma_prefix_boundary(content, pre);
    lemma_prefix_boundary(content, out);
    assert(content.subrange(pre.len() as int, out.len() as int) =~= nn) by {
        assert(out.subrange(pre.len() as int, out.len() as int) =~= nn);
    }
}

// ---------------------------------------------------------------------------
// Parsed lines can always be cut where transposing cuts them
// ---------------------------------------------------------------------------

/// Building from the first `j` markers gives a prefix of the text and of the chords
/// that building from all of them gives.
pub(crate) proof fn lemma_build_prefix(s: Seq<char>, ms: Seq<Span>, j: int)
    requires
        0 <= j <= ms.len(),
    ensures
        build(s, ms).chords.len() == ms.len(),
        build(s, ms.take(j)).chords == build(s, ms).chords.take(j),
        build(s, ms.take(j)).plain.len() <= build(s, ms).plain.len(),
        build(s, ms).plain.subrange(0, build(s, ms.take(j)).plain.len() as int) == build(
            s,
            ms.take(j),
        ).plain,
    decreases ms.len(),
{
    if ms.len() > 0 {
        lemma_build_prefix(s, ms.drop_last(), if j < ms.len() {
            j
        } else {
            0
        });
    }
    if j == ms.len() {
        assert(ms.take(j) =~= ms);
        assert(build(s, ms).chords.take(j) =~= build(s, ms).chords);
        assert(build(s, ms).plain.subrange(0, build(s, ms).plain.len() as int) =~= build(
            s,
            ms,
        ).plain);
    } else {
        let p = ms.drop_last();
        assert(p.take(j) =~= ms.take(j));
        let bp = build(s, p);
        let b = build(s, ms);
        assert(b.chords.take(j) =~= bp.chords.take(j));
        assert(b.plain.subrange(0, build(s, ms.take(j)).plain.len() as int) =~= bp.plain.subrange(
            0,
            build(s, ms.take(j)).plain.len() as int,
        ));
    }
}

proof fn lemma_span_display(s: Seq<char>, m: Span, col: int)
    requires
        chord_at(s, m.start) == Some(m),
    ensures
        chord_display(span_chord(s, m, col)) == span_text(s, m),
{
    lemma_chord_at(s, m.start);
    assert(chord_display(span_chord(s, m, col)) =~= span_text(s, m));
}

/// Where chord `k` and the text before it lie in what the markers build.
pub(crate) proof fn lemma_build_chord(s: Seq<char>, ms: Seq<Span>, k: int)
    requires
        0 <= k < ms.len(),
        spans_ordered(s, ms, 0),
    ensures
        ({
            let bk = build(s, ms.take(k));
            let before = bk.plain + s.subrange(bk.last, ms[k].start);
            &&& build(s, ms).chords[k] == span_chord(s, ms[k], utf8_len(before) as int)
            &&& build(s, ms.take(k + 1)).plain == before + span_text(s, ms[k])
            &&& chord_display(build(s, ms).chords[k]) == span_text(s, ms[k])
        }),
{
    lemma_build_prefix(s, ms, k + 1);
    lemma_build_prefix(s, ms.take(k), 0);
    lemma_build_step(s, ms, k);
    let t = ms.take(k + 1);
    assert(build(s, ms).chords[k] == build(s, t).chords[k]);
    assert(chord_at(s, ms[k].start) == Some(ms[k]));
    let bk = build(s, ms.take(k));
    lemma_span_display(s, ms[k], utf8_len(bk.plain + s.subrange(bk.last, ms[k].start)) as int);
}

/// After the first `k` chords, transposing resumes at the byte length of the text
/// built from the first `k` markers.
pub(crate) proof fn lemma_end_before(s: Seq<char>, ms: Seq<Span>, k: int)
    requires
        0 <= k <= ms.len(),
        spans_ordered(s, ms, 0),
    ensures
        end_before(build(s, ms).chords, k) == utf8_len(build(s, ms.take(k)).plain),
{
    if k == 0 {
        assert(ms.take(0) =~= Seq::<Span>::empty());
    } else {
        lemma_build_chord(s, ms, k - 1);
        let bk = build(s, ms.take(k - 1));
        let before = bk.plain + s.subrange(bk.last, ms[k - 1].start);
        lemma_utf8_len_concat(before, span_text(s, ms[k - 1]));
    }
}

/// A prefix of `c` ends on a character boundary of `c`.
pub(crate) proof fn lemma_prefix_boundary(c: Seq<char>, x: Seq<char>)
    requires
        x.len() <= c.len(),
        c.subrange(0, x.len() as int) == x,
    ensures
        char_index(c, utf8_len(x) as int) == Some(x.len() as int),
        utf8_len(x) <= utf8_len(c),
{
    assert(c.take(x.len() as int) =~= x);
    lemma_char_index_of_prefix(c, x.len() as int);
    lemma_utf8_len_sub(c, 0, x.len() as int);
}

/// Every line that parsing produces can be transposed without cutting a character:
/// the places where transposing cuts its content (before each chord and after each
/// chord name) fall on character boundaries.
pub proof fn law_parsed_line_cuts_on_boundaries(raw: Seq<char>)
    ensures
        line_slices_ok(parse_line_spec(raw)),
{
    let l = parse_line_spec(raw);
    let ms = chord_spans(raw, 0);
    let b = build(raw, ms);
    let c = b.plain + raw.subrange(b.last, raw.len() as int);
    lemma_chord_spans(raw, 0);
    lemma_build_prefix(raw, ms, 0);
    if l.chords.len() > 0 {
        assert(l.chords == b.chords);
        assert(l.content == c);
        assert(c.subrange(0, b.plain.len() as int) =~= b.plain);
        assert forall|i: int| 0 <= i < l.chords.len() implies #[trigger] chord_slices_ok(l, i) by {
            lemma_build_chord(raw, ms, i);
            lemma_end_before(raw, ms, i);
            lemma_build_prefix(raw, ms, i + 1);
            let bi = build(raw, ms.take(i));
            let before = bi.plain + raw.subrange(bi.last, ms[i].start);
            let next = build(raw, ms.take(i + 1)).plain;
            assert(next.subrange(0, before.len() as int) =~= before);
            assert(c.subrange(0, before.len() as int) =~= before) by {
                assert(c.subrange(0, next.len() as int) =~= b.plain.subrange(0, next.len() as int));
            }
            assert(c.subrange(0, bi.plain.len() as int) =~= bi.plain) by {
                assert(before.subrange(0, bi.plain.len() as int) =~= bi.plain);
            }
            lemma_prefix_boundary(c, before);
            lemma_prefix_boundary(c, bi.plain);
            lemma_utf8_len_concat(bi.plain, raw.subrange(bi.last, ms[i].start));
        }
        assert(ms.take(ms.len() as int) =~= ms);
        lemma_end_before(raw, ms, ms.len() as int);
        let last = end_before(l.chords, l.chords.len() as int);
        assert(last == utf8_len(b.plain));
        lemma_prefix_boundary(c, b.plain);
        assert(c.subrange(0, c.len() as int) =~= c);
        lemma_prefix_boundary(c, c);
        assert(char_index(l.content, last) is Some);
        assert(char_index(l.content, utf8_len(l.content) as int) is Some);
        assert(last <= utf8_len(l.content));
    } else {
        assert(l.content.subrange(0, l.content.len() as int) =~= l.content);
        lemma_prefix_boundary(l.content, l.content);
    }
}

/// Every chord of a parsed line ends within the line's text.
pub proof fn law_parsed_chords_within_line(raw: Seq<char>)
    ensures
        forall|i: int|
            0 <= i < parse_line_spec(raw).chords.len() ==> (#[trigger] parse_line_spec(
                raw,
            ).chords[i]).column + utf8_len(chord_display(parse_line_spec(raw).chords[i]))
                <= utf8_len(parse_line_spec(raw).content),
{
    let l = parse_line_spec(raw);
    let ms = chord_spans(raw, 0);
    let b = build(raw, ms);
    let c = b.plain + raw.subrange(b.last, raw.len() as int);
    lemma_chord_spans(raw, 0);
    lemma_build_prefix(raw, ms, 0);
    if l.chords.len() > 0 {
        assert(l.chords == b.chords);
        assert(l.content == c);
        assert forall|i: int| 0 <= i < l.chords.len() implies (#[trigger] l.chords[i]).column
            + utf8_len(chord_display(l.chords[i])) <= utf8_len(l.content) by {
            lemma_end_before(raw, ms, i + 1);
            lemma_build_prefix(raw, ms, i + 1);
            let next = build(raw, ms.take(i + 1)).plain;
            assert(c.subrange(0, next.len() as int) =~= next) by {
                assert(c.subrange(0, b.plain.len() as int) =~= b.plain);
            }
            lemma_prefix_boundary(c, next);
        }
    }
}

/// In every parsed line, each chord's name stands in the text at the chord's column.
pub proof fn law_parsed_names_in_text(raw: Seq<char>)
    ensures
        forall|k: int|
            0 <= k < parse_line_spec(raw).chords.len() ==> #[trigger] name_in_text(
                parse_line_spec(raw),
                k,
            ),
{
    let l = parse_line_spec(raw);
    let ms = chord_spans(raw, 0);
    lemma_chord_spans(raw, 0);
    lemma_build_prefix(raw, ms, 0);
    assert forall|k: int| 0 <= k < l.chords.len() implies #[trigger] name_in_text(l, k) by {
        lemma_parsed_name_at(raw, k);
    }
}

proof fn lemma_parsed_name_at(raw: Seq<char>, k: int)
    requires
        0 <= k < parse_line_spec(raw).chords.len(),
    ensures
        name_in_text(parse_line_spec(raw), k),
{
    let l = parse_line_spec(raw);
    let ms = chord_spans(raw, 0);
    let b = build(raw, ms);
    let c = b.plain + raw.subrange(b.last, raw.len() as int);
    lemma_chord_spans(raw, 0);
    lemma_build_prefix(raw, ms, 0);
    assert(l.chords == b.chords);
    assert(l.content == c);
    lemma_build_chord(raw, ms, k);
    lemma_build_prefix(raw, ms, k + 1);
    let bk = build(raw, ms.take(k));
    let before = bk.plain + raw.subrange(bk.last, ms[k].start);
    let name = span_text(raw, ms[k]);
    let next = build(raw, ms.take(k + 1)).plain;
    assert(next == before + name);
    assert(c.subrange(0, next.len() as int) =~= next) by {
        assert(c.subrange(0, b.plain.len() as int) =~= b.plain);
    }
    assert(c.subrange(0, before.len() as int) =~= before) by {
        assert(next.subrange(0, before.len() as int) =~= before);
    }
    lemma_prefix_boundary(c, before);
    lemma_prefix_boundary(c, next);
    lemma_utf8_len_concat(before, name);
    assert(c.subrange(before.len() as int, next.len() as int) =~= name) by {
        assert(next.subrange(before.len() as int, next.len() as int) =~= name);
    }
}

/// Every line of parsed tab content can be transposed without cutting a character.
pub proof fn law_parsed_content_cuts_on_boundaries(raw: Seq<char>)
    ensures
        forall|i: int|
            0 <= i < parse_tab_spec(raw).len() ==> line_slices_ok(#[trigger] parse_tab_spec(raw)[i]),
{
    assert forall|i: int| 0 <= i < parse_tab_spec(raw).len() implies line_slices_ok(
        #[trigger] parse_tab_spec(raw)[i],
    ) by {
        law_parsed_line_cuts_on_boundaries(split_lines(clean_content(raw))[i]);
    }
}

/// Chords `k` and `k + 1` of a line do not overlap: the second starts no earlier than
/// where the name of the first ends.
pub open spec fn chords_apart(l: LineView, k: int) -> bool {
    l.chords[k].column + utf8_len(chord_display(l.chords[k])) <= l.chords[k + 1].column
}

/// In every parsed line the chords stay in order without overlapping.
pub proof fn law_parsed_chords_in_order(raw: Seq<char>)
    ensures
        forall|k: int|
            0 <= k && k + 1 < parse_line_spec(raw).chords.len() ==> #[trigger] chords_apart(
                parse_line_spec(raw),
                k,
            ),
{
    let l = parse_line_spec(raw);
    let ms = chord_spans(raw, 0);
    lemma_chord_spans(raw, 0);
    lemma_build_prefix(raw, ms, 0);
    assert forall|k: int| 0 <= k && k + 1 < l.chords.len() implies #[trigger] chords_apart(l, k) by {
        assert(l.chords == build(raw, ms).chords);
        lemma_end_before(raw, ms, k + 1);
        lemma_build_chord(raw, ms, k + 1);
        let b1 = build(raw, ms.take(k + 1));
        lemma_utf8_len_concat(b1.plain, raw.subrange(b1.last, ms[k + 1].start));
    }
}

/// Every chord's name stands in the line's text at its column, and the chords are in
/// order without overlapping.
pub open spec fn line_placed(l: LineView) -> bool {
    &&& forall|k: int| 0 <= k < l.chords.len() ==> #[trigger] name_in_text(l, k)
    &&& forall|k: int| 0 <= k && k + 1 < l.chords.len() ==> #[trigger] chords_apart(l, k)
}

/// Every line of parsed tab content has each chord's name in its text at the chord's
/// column, and its chords in order without overlapping.
pub proof fn law_parsed_content_chords_placed(raw: Seq<char>)
    ensures
        forall|i: int| 0 <= i < parse_tab_spec(raw).len() ==> line_placed(#[trigger] parse_tab_spec(raw)[i]),
{
    let ls = split_lines(clean_content(raw));
    assert forall|i: int| 0 <= i < parse_tab_spec(raw).len() implies line_placed(
        #[trigger] parse_tab_spec(raw)[i],
    ) by {
        law_parsed_names_in_text(ls[i]);
        law_parsed_chords_in_order(ls[i]);
    }
}

/// Transposing keeps a line's chords placed: by a non-zero number of half steps every
/// line comes out with each new name at its new column and the chords in order without
/// overlapping; by zero the line is unchanged.
pub proof fn law_transposed_line_placed(l: LineView, steps: int)
    requires
        steps != 0 || line_placed(l),
    ensures
        line_placed(transposed_line(l, steps)),
{
    if steps != 0 {
        let t = transposed_line(l, steps);
        law_transposed_line_chords(l, steps);
        law_transposed_names_in_text(l, steps);
        law_transposed_chords_in_order(l, steps);
        assert forall|k: int| 0 <= k && k + 1 < t.chords.len() implies #[trigger] chords_apart(t, k) by {
            assert(t.chords[k + 1].column >= end_before(t.chords, k + 1));
        }
    }
}

/// A byte offset on a character boundary lies within the text.
proof fn lemma_boundary_within(s: Seq<char>, b: int)
    requires
        char_index(s, b) is Some,
    ensures
        0 <= b <= utf8_len(s),
{
    lemma_char_index(s, b);
    let i = char_index(s, b)->0;
    assert(s.take(i) =~= s.subrange(0, i));
    lemma_utf8_len_sub(s, 0, i);
    lemma_utf8_len_bounds(s.take(i));
}

/// The end of the text is a character boundary.
proof fn lemma_end_is_boundary(s: Seq<char>)
    ensures
        char_index(s, utf8_len(s) as int) == Some(s.len() as int),
{
    lemma_char_index_of_prefix(s, s.len() as int);
    assert(s.take(s.len() as int) =~= s);
}

/// A line whose chords stand at their columns, in order, is cut by transposing only
/// on character boundaries.
pub proof fn law_placed_line_cuts_on_boundaries(l: LineView)
    requires
        line_placed(l),
    ensures
        line_slices_ok(l),
{
    let n = l.chords.len() as int;
    let len = utf8_len(l.content) as int;
    lemma_end_is_boundary(l.content);
    assert forall|i: int| 0 <= i < n implies #[trigger] chord_slices_ok(l, i) by {
        let c = l.chords[i];
        let last = end_before(l.chords, i);
        assert(name_in_text(l, i));
        lemma_boundary_within(l.content, c.column);
        if i > 0 {
            assert(name_in_text(l, i - 1));
            assert(chords_apart(l, i - 1));
        }
    }
    if n > 0 {
        assert(name_in_text(l, n - 1));
    }
}

/// A line whose chords stand at their columns, in order, can be transposed by `steps`
/// as soon as its chords' notes can be moved and what is built fits the machine's
/// integers; `line_placed` holds of every parsed line, and transposing keeps it.
pub proof fn law_placed_line_transposable(l: LineView, steps: int)
    requires
        line_placed(l),
        forall|i: int| 0 <= i < l.chords.len() ==> chord_fits(#[trigger] l.chords[i], steps),
        utf8_len(l.content) <= usize::MAX,
        utf8_len(transposed_line(l, steps).content) <= usize::MAX,
    ensures
        line_transposable(l, steps),
        line_placed(transposed_line(l, steps)),
{
    law_placed_line_cuts_on_boundaries(l);
    law_transposed_line_placed(l, steps);
}

/// The index of a one- or two-character note name, read through trimming.
proof fn lemma_note_clean(n: Seq<char>)
    requires
        1 <= n.len() <= 2,
        !is_ws(n[0]),
        !is_ws(n.last()),
    ensures
        trim(n) == n,
{
    lemma_trim_of_clean(n);
}

/// Two names of one pitch (a sharp and the flat above it, or a natural spelled as a
/// sharp or flat) move together: by any number of half steps they give the same name.
pub proof fn law_enharmonic_names_move_together(steps: int)
    ensures
        transposed_note(seq!['A', '#'], steps) == transposed_note(seq!['B', 'b'], steps),
        transposed_note(seq!['C', '#'], steps) == transposed_note(seq!['D', 'b'], steps),
        transposed_note(seq!['D', '#'], steps) == transposed_note(seq!['E', 'b'], steps),
        transposed_note(seq!['F', '#'], steps) == transposed_note(seq!['G', 'b'], steps),
        transposed_note(seq!['G', '#'], steps) == transposed_note(seq!['A', 'b'], steps),
        transposed_note(seq!['B'], steps) == transposed_note(seq!['C', 'b'], steps),
        transposed_note(seq!['C'], steps) == transposed_note(seq!['B', '#'], steps),
        transposed_note(seq!['E'], steps) == transposed_note(seq!['F', 'b'], steps),
        transposed_note(seq!['F'], steps) == transposed_note(seq!['E', '#'], steps),
{
    lemma_note_clean(seq!['A', '#']);
    lemma_note_clean(seq!['B', 'b']);
    lemma_note_clean(seq!['C', '#']);
    lemma_note_clean(seq!['D', 'b']);
    lemma_note_clean(seq!['D', '#']);
    lemma_note_clean(seq!['E', 'b']);
    lemma_note_clean(seq!['F', '#']);
    lemma_note_clean(seq!['G', 'b']);
    lemma_note_clean(seq!['G', '#']);
    lemma_note_clean(seq!['A', 'b']);
    lemma_note_clean(seq!['B']);
    lemma_note_clean(seq!['C', 'b']);
    lemma_note_clean(seq!['C']);
    lemma_note_clean(seq!['B', '#']);
    lemma_note_clean(seq!['E']);
    lemma_note_clean(seq!['F', 'b']);
    lemma_note_clean(seq!['F']);
    lemma_note_clean(seq!['E', '#']);
}

/// A flat lies one half step below its natural and a sharp one half step above: for
/// every letter X and any number of steps, X♭ moved by one more half step, and X♯
/// moved by one fewer, name the same note as X.
pub proof fn law_flats_and_sharps_are_half_steps(steps: int)
    ensures
        transposed_note(seq!['A', 'b'], steps + 1) == transposed_note(seq!['A'], steps),
        transposed_note(seq!['B', 'b'], steps + 1) == transposed_note(seq!['B'], steps),
        transposed_note(seq!['C', 'b'], steps + 1) == transposed_note(seq!['C'], steps),
        transposed_note(seq!['D', 'b'], steps + 1) == transposed_note(seq!['D'], steps),
        transposed_note(seq!['E', 'b'], steps + 1) == transposed_note(seq!['E'], steps),
        transposed_note(seq!['F', 'b'], steps + 1) == transposed_note(seq!['F'], steps),
        transposed_note(seq!['G', 'b'], steps + 1) == transposed_note(seq!['G'], steps),
        transposed_note(seq!['A', '#'], steps - 1) == transposed_note(seq!['A'], steps),
        transposed_note(seq!['B', '#'], steps - 1) == transposed_note(seq!['B'], steps),
        transposed_note(seq!['C', '#'], steps - 1) == transposed_note(seq!['C'], steps),
        transposed_note(seq!['D', '#'], steps - 1) == transposed_note(seq!['D'], steps),
        transposed_note(seq!['E', '#'], steps - 1) == transposed_note(seq!['E'], steps),
        transposed_note(seq!['F', '#'], steps - 1) == transposed_note(seq!['F'], steps),
        transposed_note(seq!['G', '#'], steps - 1) == transposed_note(seq!['G'], steps),
{
    lemma_note_clean(seq!['A', 'b']);
    lemma_note_clean(seq!['B', 'b']);
    lemma_note_clean(seq!['C', 'b']);
    lemma_note_clean(seq!['D', 'b']);
    lemma_note_clean(seq!['E', 'b']);
    lemma_note_clean(seq!['F', 'b']);
    lemma_note_clean(seq!['G', 'b']);
    lemma_note_clean(seq!['A', '#']);
    lemma_note_clean(seq!['B', '#']);
    lemma_note_clean(seq!['C', '#']);
    lemma_note_clean(seq!['D', '#']);
    lemma_note_clean(seq!['E', '#']);
    lemma_note_clean(seq!['F', '#']);
    lemma_note_clean(seq!['G', '#']);
    lemma_note_clean(seq!['A']);
    lemma_note_clean(seq!['B']);
    lemma_note_clean(seq!['C']);
    lemma_note_clean(seq!['D']);
    lemma_note_clean(seq!['E']);
    lemma_note_clean(seq!['F']);
    lemma_note_clean(seq!['G']);
    assert((11 + (steps + 1)) % 12 == (0 + steps) % 12) by (nonlinear_arith);
}

/// The natural notes keep their names when not moved, and lie in the scale
/// A, B, C, D, E, F, G with whole steps between them except for the half steps B–C
/// and E–F.
pub proof fn law_natural_scale()
    ensures
        transposed_note(seq!['A'], 0) == seq!['A'],
        transposed_note(seq!['B'], 0) == seq!['B'],
        transposed_note(seq!['C'], 0) == seq!['C'],
        transposed_note(seq!['D'], 0) == seq!['D'],
        transposed_note(seq!['E'], 0) == seq!['E'],
        transposed_note(seq!['F'], 0) == seq!['F'],
        transposed_note(seq!['G'], 0) == seq!['G'],
        transposed_note(seq!['A'], 2) == seq!['B'],
        transposed_note(seq!['B'], 1) == seq!['C'],
        transposed_note(seq!['C'], 2) == seq!['D'],
        transposed_note(seq!['D'], 2) == seq!['E'],
        transposed_note(seq!['E'], 1) == seq!['F'],
        transposed_note(seq!['F'], 2) == seq!['G'],
        transposed_note(seq!['G'], 2) == seq!['A'],
{
    lemma_note_clean(seq!['A']);
    lemma_note_clean(seq!['B']);
    lemma_note_clean(seq!['C']);
    lemma_note_clean(seq!['D']);
    lemma_note_clean(seq!['E']);
    lemma_note_clean(seq!['F']);
    lemma_note_clean(seq!['G']);
}

} // verus!
