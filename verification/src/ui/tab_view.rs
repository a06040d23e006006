use vstd::prelude::*;

use crate::data::models::{chord_display, line_views, LineKind, LineView, ParsedLine};
use crate::music::parser;
use crate::music::parser::{
    build, chord_spans, clean_content, lemma_chord_spans, parse_line_spec, parse_tab_spec, span_text,
    Span,
};
use crate::music::transpose::{
    byte_slice, byte_slice_chars, byte_to_index, chord_slices_ok, copy_line, end_before,
    char_index, law_parsed_chords_within_line, law_parsed_line_cuts_on_boundaries,
    law_transposed_chords_in_order, law_transposed_line_chords, law_transposed_names_in_text,
    lemma_build_chord, lemma_build_prefix, lemma_char_index, lemma_char_index_of_prefix,
    lemma_end_before, lemma_prefix_boundary, lemma_prefix_len_strict, name_in_text, slice_ok,
    transposed_line,
};
use crate::text::{
    chars_of, decimal, lemma_utf8_len_concat, push_decimal, push_str, string_from_chars, utf8_len,
    utf8_len_checked, utf8_len_range,
};

verus! {

// ---------------------------------------------------------------------------
// Rendering lines into tagged text
// ---------------------------------------------------------------------------

/// The tag a piece of text is shown with: chords and section headers are bold and
/// coloured.
#[derive(Debug, Clone, Copy, PartialEq, Eq, Structural)]
pub enum TextTag {
    Plain,
    Chord,
    Section,
}

/// A piece of text, inserted into a column's buffer with its tag.
#[derive(Debug)]
pub struct Segment {
    pub text: String,
    pub tag: TextTag,
}

impl View for Segment {
    type V = (Seq<char>, TextTag);

    open spec fn view(&self) -> (Seq<char>, TextTag) {
        (self.text@, self.tag)
    }
}

pub open spec fn segment_views(s: Seq<Segment>) -> Seq<(Seq<char>, TextTag)> {
    s.map_values(|g: Segment| g@)
}

/// The pieces of the first `n` chords of a chord line: for each chord, the text from
/// the end of the previous chord up to it (when it starts after that and within the
/// line), then the chord's name.
pub open spec fn chord_pieces(l: LineView, n: int) -> Seq<(Seq<char>, TextTag)>
    decreases n,
{
    if n <= 0 {
        Seq::empty()
    } else {
        let c = l.chords[n - 1];
        let last = end_before(l.chords, n - 1);
        let before = if c.column > last && c.column <= utf8_len(l.content) {
            seq![(byte_slice(l.content, last, c.column), TextTag::Plain)]
        } else {
            Seq::empty()
        };
        chord_pieces(l, n - 1) + before + seq![(chord_display(c), TextTag::Chord)]
    }
}

/// How one line is shown: nothing for an empty line, the whole text in the section
/// colour for a header, and for other lines the text with each chord's name in the
/// chord colour, followed by whatever text comes after the last chord.
pub open spec fn line_segments(l: LineView) -> Seq<(Seq<char>, TextTag)> {
    match l.kind {
        LineKind::Empty => Seq::empty(),
        LineKind::SectionHeader => seq![(l.content, TextTag::Section)],
        _ => if l.chords.len() == 0 {
            seq![(l.content, TextTag::Plain)]
        } else {
            let n = l.chords.len() as int;
            let last = end_before(l.chords, n);
            chord_pieces(l, n) + if last < utf8_len(l.content) {
                seq![(byte_slice(l.content, last, utf8_len(l.content) as int), TextTag::Plain)]
            } else {
                Seq::empty()
            }
        },
    }
}

/// The contents of one column's buffer: its lines, one per row.
pub open spec fn buffer_segments(ls: Seq<LineView>) -> Seq<(Seq<char>, TextTag)>
    decreases ls.len(),
{
    if ls.len() == 0 {
        Seq::empty()
    } else {
        buffer_segments(ls.drop_last()) + (if ls.len() > 1 {
            seq![(seq!['\n'], TextTag::Plain)]
        } else {
            Seq::empty()
        }) + line_segments(ls.last())
    }
}

/// Chord `i` of a line can be shown: the offset after its name fits in `usize`, and
/// the text before it is cut on character boundaries.
pub open spec fn chord_renders(l: LineView, i: int) -> bool {
    let c = l.chords[i];
    let last = end_before(l.chords, i);
    &&& c.column + utf8_len(chord_display(c)) <= usize::MAX
    &&& (c.column > last && c.column <= utf8_len(l.content) ==> slice_ok(l.content, last, c.column))
}

/// The cuts that showing a line makes in its text fall on character boundaries, and
/// its byte offsets fit in `usize`.
pub open spec fn line_renders(l: LineView) -> bool {
    (l.kind != LineKind::Empty && l.kind != LineKind::SectionHeader && l.chords.len() > 0) ==> {
        let len = utf8_len(l.content) as int;
        let n = l.chords.len() as int;
        &&& len <= usize::MAX
        &&& forall|i: int| 0 <= i < n ==> #[trigger] chord_renders(l, i)
        &&& end_before(l.chords, n) < len ==> slice_ok(l.content, end_before(l.chords, n), len)
    }
}

proof fn lemma_segment_views_push(s: Seq<Segment>, g: Segment)
    ensures
        segment_views(s.push(g)) == segment_views(s).push(g@),
{
    assert(segment_views(s.push(g)) =~= segment_views(s).push(g@));
}

fn push_segment(out: &mut Vec<Segment>, text: Vec<char>, tag: TextTag)
    ensures
        segment_views(final(out)@) == segment_views(old(out)@).push((text@, tag)),
{
    let g = Segment { text: string_from_chars(&text), tag };
    proof {
        lemma_segment_views_push(out@, g);
    }
    out.push(g);
}

/// Whether a line can be shown (`line_renders`), checked on the line itself.
pub fn line_can_render(line: &ParsedLine) -> (b: bool)
    ensures
        b == line_renders(line@),
{
    let ghost l = line@;
    if line.kind == LineKind::Empty || line.kind == LineKind::SectionHeader || line.chords.len()
        == 0 {
        return true;
    }
    let content = chars_of(line.content.as_str());
    let len = match utf8_len_checked(&content) {
        Some(n) => n,
        None => {
            return false;
        },
    };
    let mut last: usize = 0;
    let mut i: usize = 0;
    while i < line.chords.len()
        invariant
            l == line@,
            l.kind != LineKind::Empty && l.kind != LineKind::SectionHeader,
            l.chords.len() > 0,
            content@ == l.content,
            len == utf8_len(l.content),
            i <= l.chords.len(),
            last == end_before(l.chords, i as int),
            forall|j: int| 0 <= j < i ==> #[trigger] chord_renders(l, j),
        decreases l.chords.len() - i,
    {
        let c = &line.chords[i];
        proof {
            assert(l.chords[i as int] == c@);
        }
        let name = c.display_chars();
        let nl = match utf8_len_checked(&name) {
            Some(n) => n,
            None => {
                proof {
                    assert(!chord_renders(l, i as int));
                }
                return false;
            },
        };
        if c.column > usize::MAX - nl {
            proof {
                assert(!chord_renders(l, i as int));
            }
            return false;
        }
        if c.column > last && c.column <= len {
            let a = byte_to_index(&content, last);
            let z = byte_to_index(&content, c.column);
            if a.is_none() || z.is_none() {
                proof {
                    assert(!chord_renders(l, i as int));
                }
                return false;
            }
        }
        proof {
            assert(chord_renders(l, i as int));
        }
        last = c.column + nl;
        i = i + 1;
    }
    if last < len {
        let a = byte_to_index(&content, last);
        let z = byte_to_index(&content, len);
        if a.is_none() || z.is_none() {
            return false;
        }
    }
    true
}

/// Appends the pieces of one line (`render_chord_line_static` for chord lines).
pub fn render_line(out: &mut Vec<Segment>, line: &ParsedLine)
    requires
        line_renders(line@),
    ensures
        segment_views(final(out)@) == segment_views(old(out)@) + line_segments(line@),
{
    let ghost l = line@;
    let ghost start = segment_views(out@);
    match line.kind {
        LineKind::Empty => {
            assert(start + line_segments(l) =~= start);
        },
        LineKind::SectionHeader => {
            push_segment(out, chars_of(line.content.as_str()), TextTag::Section);
            assert(start.push((l.content, TextTag::Section)) =~= start + line_segments(l));
        },
        _ => {
            if line.chords.len() == 0 {
                push_segment(out, chars_of(line.content.as_str()), TextTag::Plain);
                assert(start.push((l.content, TextTag::Plain)) =~= start + line_segments(l));
            } else {
                let content = chars_of(line.content.as_str());
                let n = content.len();
                proof {
                    assert(content@.subrange(0, n as int) =~= content@);
                }
                let len = utf8_len_range(&content, 0, n);
                let mut last: usize = 0;
                let mut i: usize = 0;
                proof {
                    assert(start + chord_pieces(l, 0) =~= start);
                }
                while i < line.chords.len()
                    invariant
                        l == line@,
                        line_renders(l),
                        l.kind != LineKind::Empty && l.kind != LineKind::SectionHeader,
                        l.chords.len() > 0,
                        content@ == l.content,
                        len == utf8_len(l.content),
                        i <= l.chords.len(),
                        last == end_before(l.chords, i as int),
                        segment_views(out@) == start + chord_pieces(l, i as int),
                    decreases l.chords.len() - i,
                {
                    let c = &line.chords[i];
                    proof {
                        assert(l.chords[i as int] == c@);
                        assert(chord_renders(l, i as int));
                    }
                    if c.column > last && c.column <= len {
                        let gap = byte_slice_chars(&content, last, c.column);
                        push_segment(out, gap, TextTag::Plain);
                    }
                    let name = c.display_chars();
                    let name_len = name.len();
                    proof {
                        assert(name@.subrange(0, name_len as int) =~= name@);
                    }
                    let nl = utf8_len_range(&name, 0, name_len);
                    push_segment(out, name, TextTag::Chord);
                    proof {
                        assert(segment_views(out@) =~= start + chord_pieces(l, i + 1));
                    }
                    last = c.column + nl;
                    i = i + 1;
                }
                if last < len {
                    let tail = byte_slice_chars(&content, last, len);
                    push_segment(out, tail, TextTag::Plain);
                }
                assert(segment_views(out@) =~= start + line_segments(l));
            }
        },
    }
}

/// The tagged text of a column holding `lines` (`render_lines_into_buffer`).
pub fn render_lines_into_buffer(lines: &[ParsedLine]) -> (r: Vec<Segment>)
    requires
        forall|i: int| 0 <= i < lines@.len() ==> line_renders(#[trigger] lines@[i]@),
    ensures
        segment_views(r@) == buffer_segments(line_views(lines@)),
{
    let mut out: Vec<Segment> = Vec::new();
    let mut i: usize = 0;
    proof {
        assert(line_views(lines@).take(0) =~= Seq::<LineView>::empty());
        assert(segment_views(out@) =~= Seq::<(Seq<char>, TextTag)>::empty());
    }
    while i < lines.len()
        invariant
            i <= lines@.len(),
            forall|k: int| 0 <= k < lines@.len() ==> line_renders(#[trigger] lines@[k]@),
            segment_views(out@) == buffer_segments(line_views(lines@).take(i as int)),
        decreases lines@.len() - i,
    {
        let ghost prev = segment_views(out@);
        let ghost t = line_views(lines@).take(i + 1);
        proof {
            assert(t.drop_last() =~= line_views(lines@).take(i as int));
            assert(t.last() == lines@[i as int]@);
            assert(line_renders(lines@[i as int]@));
        }
        if i > 0 {
            let mut nl: Vec<char> = Vec::new();
            nl.push('\n');
            assert(nl@ =~= seq!['\n']);
            push_segment(&mut out, nl, TextTag::Plain);
        }
        let ghost mid = segment_views(out@);
        proof {
            if i > 0 {
                assert(mid =~= prev + seq![(seq!['\n'], TextTag::Plain)]);
            } else {
                assert(mid =~= prev + Seq::<(Seq<char>, TextTag)>::empty());
            }
        }
        render_line(&mut out, &lines[i]);
        proof {
            assert(buffer_segments(t) == buffer_segments(t.drop_last()) + (if t.len() > 1 {
                seq![(seq!['\n'], TextTag::Plain)]
            } else {
                Seq::empty()
            }) + line_segments(t.last()));
        }
        i = i + 1;
    }
    assert(line_views(lines@).take(lines@.len() as int) =~= line_views(lines@));
    out
}

// ---------------------------------------------------------------------------
// Columns
// ---------------------------------------------------------------------------

/// `s` cut into consecutive runs of `size` items, the last one possibly shorter.
pub open spec fn chunks<A>(s: Seq<A>, size: nat) -> Seq<Seq<A>>
    decreases s.len(),
{
    if size == 0 || s.len() <= size {
        seq![s]
    } else {
        seq![s.take(size as int)] + chunks(s.skip(size as int), size)
    }
}

/// How the lines of a tab are spread over `cols` columns: in runs of ⌈n / cols⌉
/// lines, all in one column when there is one column or no line.
pub open spec fn column_split<A>(s: Seq<A>, cols: int) -> Seq<Seq<A>> {
    if cols <= 1 || s.len() == 0 {
        seq![s]
    } else {
        chunks(s, ((s.len() + cols - 1) / cols) as nat)
    }
}

pub open spec fn chunk_views(cs: Seq<Vec<ParsedLine>>) -> Seq<Seq<LineView>> {
    cs.map_values(|c: Vec<ParsedLine>| line_views(c@))
}

fn copy_lines(lines: &[ParsedLine], from: usize, to: usize) -> (r: Vec<ParsedLine>)
    requires
        from <= to <= lines@.len(),
    ensures
        line_views(r@) == line_views(lines@).subrange(from as int, to as int),
{
    let mut r: Vec<ParsedLine> = Vec::new();
    let mut i = from;
    while i < to
        invariant
            from <= i <= to,
            to <= lines@.len(),
            line_views(r@) == line_views(lines@).subrange(from as int, i as int),
        decreases to - i,
    {
        let c = copy_line(&lines[i]);
        proof {
            assert(line_views(lines@)[i as int] == c@);
            assert(line_views(r@.push(c)) =~= line_views(r@).push(c@));
            assert(line_views(r@.push(c)) =~= line_views(lines@).subrange(from as int, i + 1));
        }
        r.push(c);
        i = i + 1;
    }
    r
}

/// The lines of each column (`split_lines`).
pub fn split_lines(lines: &[ParsedLine], cols: usize) -> (r: Vec<Vec<ParsedLine>>)
    requires
        cols <= 1 || lines@.len() == 0 || lines@.len() + cols <= usize::MAX,
    ensures
        chunk_views(r@) == column_split(line_views(lines@), cols as int),
{
    let total = lines.len();
    let ghost s = line_views(lines@);
    let mut r: Vec<Vec<ParsedLine>> = Vec::new();
    if cols <= 1 || total == 0 {
        let all = copy_lines(lines, 0, total);
        proof {
            assert(s.subrange(0, total as int) =~= s);
            assert(chunk_views(r@.push(all)) =~= seq![s]);
        }
        r.push(all);
        return r;
    }
    let size = (total + cols - 1) / cols;
    proof {
        assert(size >= 1) by (nonlinear_arith)
            requires
                total >= 1,
                cols >= 2,
                size == (total + cols - 1) as int / cols as int,
        ;
        assert(chunk_views(r@) =~= Seq::<Seq<LineView>>::empty());
        assert(s.skip(0) =~= s);
    }
    let mut start: usize = 0;
    while start < total
        invariant
            total == lines@.len(),
            s == line_views(lines@),
            size >= 1,
            start <= total,
            start < total ==> chunks(s, size as nat) == chunk_views(r@) + chunks(
                s.skip(start as int),
                size as nat,
            ),
            start >= total ==> chunks(s, size as nat) == chunk_views(r@),
        decreases total - start,
    {
        let rem = total - start;
        let ghost rest = s.skip(start as int);
        if rem <= size {
            let c = copy_lines(lines, start, total);
            proof {
                assert(s.subrange(start as int, total as int) =~= rest);
                assert(chunk_views(r@.push(c)) =~= chunk_views(r@) + seq![rest]);
            }
            r.push(c);
            start = total;
        } else {
            let c = copy_lines(lines, start, start + size);
            proof {
                assert(s.subrange(start as int, start + size) =~= rest.take(size as int));
                assert(rest.skip(size as int) =~= s.skip(start + size));
                assert(chunk_views(r@.push(c)) =~= chunk_views(r@) + seq![rest.take(size as int)]);
                assert(chunks(rest, size as nat) == seq![rest.take(size as int)] + chunks(
                    rest.skip(size as int),
                    size as nat,
                ));
            }
            r.push(c);
            start = start + size;
        }
    }
    r
}

proof fn lemma_chunks_flatten<A>(s: Seq<A>, size: nat)
    ensures
        chunks(s, size).flatten() == s,
    decreases s.len(),
{
    if size == 0 || s.len() <= size {
        lemma_flatten_one(s);
    } else {
        lemma_chunks_flatten(s.skip(size as int), size);
        let c = chunks(s, size);
        assert(c.first() == s.take(size as int));
        assert(c.drop_first() =~= chunks(s.skip(size as int), size));
        assert(s.take(size as int) + s.skip(size as int) =~= s);
        assert(c.flatten() == c.first() + c.drop_first().flatten());
    }
}

proof fn lemma_flatten_one<A>(s: Seq<A>)
    ensures
        seq![s].flatten() == s,
{
    let one = seq![s];
    assert(one.drop_first() =~= Seq::<Seq<A>>::empty());
    assert(Seq::<Seq<A>>::empty().flatten() == Seq::<A>::empty());
    assert(one.flatten() == one.first() + one.drop_first().flatten());
    assert(s + Seq::<A>::empty() =~= s);
}

proof fn lemma_chunks_count<A>(s: Seq<A>, size: nat, m: int)
    requires
        size >= 1,
        m >= 1,
        m * size >= s.len(),
    ensures
        chunks(s, size).len() <= m,
    decreases s.len(),
{
    if s.len() > size {
        assert((m - 1) * size >= s.len() - size) by (nonlinear_arith)
            requires
                m * size >= s.len(),
        ;
        assert(m >= 2) by (nonlinear_arith)
            requires
                m * size >= s.len(),
                s.len() > size,
                m >= 1,
        ;
        lemma_chunks_count(s.skip(size as int), size, m - 1);
    }
}

/// Spreading the lines over columns keeps every line, in order, and uses at most
/// the number of columns asked for.
pub proof fn law_columns_keep_every_line<A>(s: Seq<A>, cols: int)
    ensures
        column_split(s, cols).flatten() == s,
        cols >= 1 ==> column_split(s, cols).len() <= cols,
{
    if cols <= 1 || s.len() == 0 {
        lemma_flatten_one(s);
    } else {
        let size = ((s.len() + cols - 1) / cols) as nat;
        assert(size >= 1 && cols * size >= s.len()) by (nonlinear_arith)
            requires
                s.len() >= 1,
                cols >= 2,
                size == (s.len() + cols - 1) / cols,
        ;
        lemma_chunks_flatten(s, size);
        lemma_chunks_count(s, size, cols);
    }
}

// ---------------------------------------------------------------------------
// The view's state
// ---------------------------------------------------------------------------

/// `x` brought into `lo..=hi`.
pub open spec fn clamp(x: int, lo: int, hi: int) -> int {
    if x < lo {
        lo
    } else if x > hi {
        hi
    } else {
        x
    }
}

/// The CSS that sets the text views' font.
pub open spec fn font_css_spec(family: Seq<char>, size: nat) -> Seq<char> {
    "textview { font-family: \""@ + family + "\"; font-size: "@ + decimal(size) + "pt; }"@
}

/// What the tab view shows and how: its font, colours, number of columns,
/// auto-scroll speed and state, and the lines of the tab.
pub struct TabView {
    font_family: String,
    font_size: i32,
    chord_color: String,
    section_color: String,
    column_count: i32,
    scroll_speed_ms: u32,
    scrolling: bool,
    lines: Vec<ParsedLine>,
}

/// Abstract value of a `TabView`.
pub struct TabViewState {
    pub font_family: Seq<char>,
    pub font_size: i32,
    pub chord_color: Seq<char>,
    pub section_color: Seq<char>,
    pub column_count: i32,
    pub scroll_speed_ms: u32,
    pub scrolling: bool,
    pub lines: Seq<LineView>,
}

impl View for TabView {
    type V = TabViewState;

    closed spec fn view(&self) -> TabViewState {
        TabViewState {
            font_family: self.font_family@,
            font_size: self.font_size,
            chord_color: self.chord_color@,
            section_color: self.section_color@,
            column_count: self.column_count,
            scroll_speed_ms: self.scroll_speed_ms,
            scrolling: self.scrolling,
            lines: line_views(self.lines@),
        }
    }
}

impl TabView {
    /// The font size stays within 8..=32 points, the columns within 1..=4, and the
    /// scroll interval is at least 10 ms.
    #[verifier::type_invariant]
    spec fn in_range(self) -> bool {
        &&& 8 <= self.font_size <= 32
        &&& 1 <= self.column_count <= 4
        &&& self.scroll_speed_ms >= 10
    }

    /// A view with no lines, a 14 pt monospace font, the default colours, one column,
    /// and auto-scroll stopped with a 500 ms step.
    pub fn new() -> (v: TabView)
        ensures
            v@.font_family == "Monospace"@,
            v@.font_size == 14,
            v@.chord_color == "#3584e4"@,
            v@.section_color == "#e66100"@,
            v@.column_count == 1,
            v@.scroll_speed_ms == 500,
            !v@.scrolling,
            v@.lines.len() == 0,
    {
        let v = TabView {
            font_family: "Monospace".to_owned(),
            font_size: 14,
            chord_color: "#3584e4".to_owned(),
            section_color: "#e66100".to_owned(),
            column_count: 1,
            scroll_speed_ms: 500,
            scrolling: false,
            lines: Vec::new(),
        };
        assert(line_views(v.lines@) =~= Seq::<LineView>::empty());
        v
    }

    /// Keeps a copy of the lines to show.
    pub fn render_lines(&mut self, lines: &[ParsedLine])
        ensures
            final(self)@ == (TabViewState { lines: line_views(lines@), ..old(self)@ }),
    {
        proof {
            use_type_invariant(&*self);
        }
        let n = lines.len();
        self.lines = copy_lines(lines, 0, n);
        assert(line_views(lines@).subrange(0, n as int) =~= line_views(lines@));
    }

    /// The tagged text of each column (`rebuild_columns`): the lines spread over the
    /// columns, each column rendered on its own.
    pub fn columns(&self) -> (r: Vec<Vec<Segment>>)
        requires
            all_render(self@.lines),
            self@.lines.len() + self@.column_count <= usize::MAX,
        ensures
            r@.len() == column_split(self@.lines, self@.column_count as int).len(),
            forall|k: int|
                0 <= k < r@.len() ==> segment_views(#[trigger] r@[k]@) == buffer_segments(
                    column_split(self@.lines, self@.column_count as int)[k],
                ),
    {
        proof {
            use_type_invariant(self);
            lemma_columns_render(self@.lines, self@.column_count as int);
        }
        let cols = self.column_count as usize;
        let chunks = split_lines(self.lines.as_slice(), cols);
        let ghost split = column_split(line_views(self.lines@), cols as int);
        let mut r: Vec<Vec<Segment>> = Vec::new();
        let mut k: usize = 0;
        while k < chunks.len()
            invariant
                chunk_views(chunks@) == split,
                split == column_split(self@.lines, self@.column_count as int),
                forall|j: int| 0 <= j < split.len() ==> all_render(#[trigger] split[j]),
                k <= chunks@.len(),
                r@.len() == k,
                forall|j: int|
                    0 <= j < k ==> segment_views(#[trigger] r@[j]@) == buffer_segments(split[j]),
            decreases chunks@.len() - k,
        {
            proof {
                assert(chunk_views(chunks@)[k as int] == line_views(chunks@[k as int]@));
                assert(all_render(split[k as int]));
                assert forall|i: int| 0 <= i < chunks@[k as int]@.len() implies line_renders(
                    #[trigger] chunks@[k as int]@[i]@,
                ) by {
                    assert(line_views(chunks@[k as int]@)[i] == chunks@[k as int]@[i]@);
                }
            }
            let segs = render_lines_into_buffer(chunks[k].as_slice());
            r.push(segs);
            k = k + 1;
        }
        r
    }

    /// Whether the lines can be laid out in columns (what `columns` needs).
    pub fn can_lay_out(&self) -> (b: bool)
        ensures
            b == (all_render(self@.lines) && self@.lines.len() + self@.column_count <= usize::MAX),
    {
        proof {
            use_type_invariant(self);
        }
        let n = self.lines.len();
        if n > usize::MAX - (self.column_count as usize) {
            return false;
        }
        let ghost lv = self@.lines;
        let mut i: usize = 0;
        while i < n
            invariant
                n == self.lines@.len(),
                lv == line_views(self.lines@),
                lv == self@.lines,
                i <= n,
                forall|j: int| 0 <= j < i ==> line_renders(#[trigger] lv[j]),
            decreases n - i,
        {
            proof {
                assert(lv[i as int] == self.lines@[i as int]@);
            }
            if !line_can_render(&self.lines[i]) {
                return false;
            }
            i = i + 1;
        }
        true
    }

    /// Sets the font size, brought into 8..=32.
    pub fn set_font_size(&mut self, size: i32)
        ensures
            final(self)@ == (TabViewState { font_size: clamp(size as int, 8, 32) as i32, ..old(self)@ }),
    {
        proof {
            use_type_invariant(&*self);
        }
        self.font_size = if size < 8 {
            8
        } else if size > 32 {
            32
        } else {
            size
        };
    }

    pub fn get_font_size(&self) -> (n: i32)
        ensures
            n == self@.font_size,
            8 <= n <= 32,
    {
        proof {
            use_type_invariant(self);
        }
        self.font_size
    }

    pub fn set_font_family(&mut self, family: &str)
        ensures
            final(self)@ == (TabViewState { font_family: family@, ..old(self)@ }),
    {
        proof {
            use_type_invariant(&*self);
        }
        self.font_family = family.to_owned();
    }

    pub fn font_family(&self) -> (r: &str)
        ensures
            r@ == self@.font_family,
    {
        self.font_family.as_str()
    }

    /// The CSS that gives the text views the view's font (`apply_font`).
    pub fn font_css(&self) -> (r: String)
        ensures
            r@ == font_css_spec(self@.font_family, self@.font_size as nat),
    {
        proof {
            use_type_invariant(self);
        }
        let mut v: Vec<char> = Vec::new();
        push_str(&mut v, "textview { font-family: \"");
        push_str(&mut v, self.font_family.as_str());
        push_str(&mut v, "\"; font-size: ");
        push_decimal(&mut v, self.font_size as u64);
        push_str(&mut v, "pt; }");
        string_from_chars(&v)
    }

    pub fn set_chord_color(&mut self, color: &str)
        ensures
            final(self)@ == (TabViewState { chord_color: color@, ..old(self)@ }),
    {
        proof {
            use_type_invariant(&*self);
        }
        self.chord_color = color.to_owned();
    }

    pub fn chord_color(&self) -> (r: &str)
        ensures
            r@ == self@.chord_color,
    {
        self.chord_color.as_str()
    }

    pub fn set_section_color(&mut self, color: &str)
        ensures
            final(self)@ == (TabViewState { section_color: color@, ..old(self)@ }),
    {
        proof {
            use_type_invariant(&*self);
        }
        self.section_color = color.to_owned();
    }

    pub fn section_color(&self) -> (r: &str)
        ensures
            r@ == self@.section_color,
    {
        self.section_color.as_str()
    }

    /// Sets the number of columns, brought into 1..=4; says whether it changed, so
    /// that the columns are laid out again.
    pub fn set_columns(&mut self, cols: i32) -> (changed: bool)
        ensures
            final(self)@ == (TabViewState { column_count: clamp(cols as int, 1, 4) as i32, ..old(self)@ }),
            changed == (clamp(cols as int, 1, 4) != old(self)@.column_count),
    {
        proof {
            use_type_invariant(&*self);
        }
        let clamped: i32 = if cols < 1 {
            1
        } else if cols > 4 {
            4
        } else {
            cols
        };
        if clamped != self.column_count {
            self.column_count = clamped;
            true
        } else {
            false
        }
    }

    pub fn column_count(&self) -> (n: i32)
        ensures
            n == self@.column_count,
            1 <= n <= 4,
    {
        proof {
            use_type_invariant(self);
        }
        self.column_count
    }

    /// Sets the auto-scroll step interval, at least 10 ms; says whether a running
    /// auto-scroll has to be started again at the new speed.
    pub fn set_scroll_speed(&mut self, ms: u32) -> (restart: bool)
        ensures
            final(self)@ == (TabViewState {
                scroll_speed_ms: if ms < 10 {
                    10
                } else {
                    ms
                },
                ..old(self)@
            }),
            restart == old(self)@.scrolling,
    {
        proof {
            use_type_invariant(&*self);
        }
        self.scroll_speed_ms = if ms < 10 {
            10
        } else {
            ms
        };
        self.scrolling
    }

    pub fn scroll_speed_ms(&self) -> (n: u32)
        ensures
            n == self@.scroll_speed_ms,
            n >= 10,
    {
        proof {
            use_type_invariant(self);
        }
        self.scroll_speed_ms
    }

    /// Starts auto-scroll when there is something to scroll (`can_scroll`: the content
    /// is taller than the window); says whether the step timer is to run.
    pub fn start_autoscroll(&mut self, can_scroll: bool) -> (started: bool)
        ensures
            final(self)@ == (TabViewState { scrolling: can_scroll, ..old(self)@ }),
            started == can_scroll,
    {
        proof {
            use_type_invariant(&*self);
        }
        self.scrolling = can_scroll;
        can_scroll
    }

    /// Stops auto-scroll; says whether the step timer was running.
    pub fn stop_autoscroll(&mut self) -> (was_running: bool)
        ensures
            final(self)@ == (TabViewState { scrolling: false, ..old(self)@ }),
            was_running == old(self)@.scrolling,
    {
        proof {
            use_type_invariant(&*self);
        }
        let was = self.scrolling;
        self.scrolling = false;
        was
    }

    /// One auto-scroll step: it goes on until the end of the content is reached, where
    /// the timer ends by itself.
    pub fn scroll_step(&mut self, at_end: bool) -> (go_on: bool)
        ensures
            final(self)@ == (TabViewState { scrolling: old(self)@.scrolling && !at_end, ..old(self)@ }),
            go_on == !at_end,
    {
        proof {
            use_type_invariant(&*self);
        }
        if at_end {
            self.scrolling = false;
            false
        } else {
            true
        }
    }

    pub fn is_scrolling(&self) -> (b: bool)
        ensures
            b == self@.scrolling,
    {
        self.scrolling
    }
}

/// Every line can be shown.
pub open spec fn all_render(s: Seq<LineView>) -> bool {
    forall|i: int| 0 <= i < s.len() ==> line_renders(#[trigger] s[i])
}

proof fn lemma_chunks_render(s: Seq<LineView>, size: nat)
    requires
        all_render(s),
    ensures
        forall|k: int| 0 <= k < chunks(s, size).len() ==> all_render(#[trigger] chunks(s, size)[k]),
    decreases s.len(),
{
    if !(size == 0 || s.len() <= size) {
        let rest = s.skip(size as int);
        assert(all_render(rest)) by {
            assert forall|i: int| 0 <= i < rest.len() implies line_renders(#[trigger] rest[i]) by {
                assert(rest[i] == s[i + size]);
            }
        }
        assert(all_render(s.take(size as int))) by {
            assert forall|i: int| 0 <= i < size implies line_renders(#[trigger] s.take(size as int)[i]) by {
                assert(s.take(size as int)[i] == s[i]);
            }
        }
        lemma_chunks_render(rest, size);
        let c = chunks(s, size);
        assert forall|k: int| 0 <= k < c.len() implies all_render(#[trigger] c[k]) by {
            if k > 0 {
                assert(c[k] == chunks(rest, size)[k - 1]);
            }
        }
    }
}

proof fn lemma_columns_render(s: Seq<LineView>, cols: int)
    requires
        all_render(s),
    ensures
        forall|k: int|
            0 <= k < column_split(s, cols).len() ==> all_render(#[trigger] column_split(s, cols)[k]),
{
    if !(cols <= 1 || s.len() == 0) {
        lemma_chunks_render(s, ((s.len() + cols - 1) / cols) as nat);
    }
}

/// Every line the parser makes of a tab can be shown, provided its text's byte length
/// fits in `usize`.
pub proof fn law_parsed_lines_render(raw: Seq<char>)
    ensures
        forall|i: int|
            0 <= i < parse_tab_spec(raw).len() && utf8_len(parse_tab_spec(raw)[i].content)
                <= usize::MAX ==> line_renders(#[trigger] parse_tab_spec(raw)[i]),
{
    assert forall|i: int|
        0 <= i < parse_tab_spec(raw).len() && utf8_len(parse_tab_spec(raw)[i].content)
            <= usize::MAX implies line_renders(#[trigger] parse_tab_spec(raw)[i]) by {
        let line = parser::split_lines(clean_content(raw))[i];
        let l = parse_line_spec(line);
        assert(parse_tab_spec(raw)[i] == l);
        law_parsed_line_cuts_on_boundaries(line);
        law_parsed_chords_within_line(line);
        if l.kind != LineKind::Empty && l.kind != LineKind::SectionHeader && l.chords.len() > 0 {
            assert forall|j: int| 0 <= j < l.chords.len() implies #[trigger] chord_renders(l, j) by {
                assert(chord_slices_ok(l, j));
                assert(l.chords[j].column + utf8_len(chord_display(l.chords[j])) <= utf8_len(
                    l.content,
                ));
            }
        }
    }
}

/// The text of the pieces, one after another.
pub open spec fn segments_text(s: Seq<(Seq<char>, TextTag)>) -> Seq<char>
    decreases s.len(),
{
    if s.len() == 0 {
        Seq::empty()
    } else {
        segments_text(s.drop_last()) + s.last().0
    }
}

proof fn lemma_segments_text_concat(a: Seq<(Seq<char>, TextTag)>, b: Seq<(Seq<char>, TextTag)>)
    ensures
        segments_text(a + b) == segments_text(a) + segments_text(b),
    decreases b.len(),
{
    if b.len() > 0 {
        lemma_segments_text_concat(a, b.drop_last());
        assert((a + b).drop_last() =~= a + b.drop_last());
        assert((a + b).last() == b.last());
    } else {
        assert(a + b =~= a);
    }
}

proof fn lemma_segments_text_one(t: Seq<char>, g: TextTag)
    ensures
        segments_text(seq![(t, g)]) == t,
{
    let s = seq![(t, g)];
    assert(s.len() == 1);
    assert(s.drop_last() =~= Seq::<(Seq<char>, TextTag)>::empty());
    assert(s.last() == (t, g));
    assert(segments_text(s.drop_last()) == Seq::<char>::empty());
    assert(Seq::<char>::empty() + t =~= t);
}

proof fn lemma_utf8_len_at_least(s: Seq<char>)
    ensures
        utf8_len(s) >= s.len(),
{
    lemma_prefix_len_strict(s, 0, s.len() as int);
    assert(s.take(0) =~= Seq::<char>::empty());
    assert(s.take(s.len() as int) =~= s);
}

/// The pieces of the first `k` chords of a parsed line are the text built from its
/// first `k` markers.
proof fn lemma_parsed_pieces(raw: Seq<char>, k: int)
    requires
        parse_line_spec(raw).chords.len() > 0,
        0 <= k <= parse_line_spec(raw).chords.len(),
    ensures
        segments_text(chord_pieces(parse_line_spec(raw), k)) == build(
            raw,
            chord_spans(raw, 0).take(k),
        ).plain,
    decreases k,
{
    let l = parse_line_spec(raw);
    let ms = chord_spans(raw, 0);
    let b = build(raw, ms);
    let c = b.plain + raw.subrange(b.last, raw.len() as int);
    lemma_chord_spans(raw, 0);
    lemma_build_prefix(raw, ms, 0);
    assert(l.chords == b.chords);
    assert(l.content == c);
    if k == 0 {
        assert(ms.take(0) =~= Seq::<Span>::empty());
    } else {
        let j = k - 1;
        lemma_parsed_pieces(raw, j);
        lemma_build_chord(raw, ms, j);
        lemma_end_before(raw, ms, j);
        lemma_build_prefix(raw, ms, j);
        lemma_build_prefix(raw, ms, k);
        let bj = build(raw, ms.take(j));
        let gap = raw.subrange(bj.last, ms[j].start);
        let before = bj.plain + gap;
        let name = span_text(raw, ms[j]);
        let next = build(raw, ms.take(k)).plain;
        assert(next == before + name);
        assert(c.subrange(0, next.len() as int) =~= next) by {
            assert(c.subrange(0, b.plain.len() as int) =~= b.plain);
        }
        assert(c.subrange(0, before.len() as int) =~= before) by {
            assert(next.subrange(0, before.len() as int) =~= before);
        }
        assert(c.subrange(0, bj.plain.len() as int) =~= bj.plain) by {
            assert(before.subrange(0, bj.plain.len() as int) =~= bj.plain);
        }
        lemma_prefix_boundary(c, bj.plain);
        lemma_prefix_boundary(c, before);
        lemma_prefix_boundary(c, next);
        lemma_utf8_len_concat(bj.plain, gap);
        lemma_utf8_len_at_least(gap);
        let ch = l.chords[j];
        assert(ch.column == utf8_len(before));
        assert(end_before(l.chords, j) == utf8_len(bj.plain));
        assert(chord_display(ch) == name);
        let prev = chord_pieces(l, j);
        let piece = if ch.column > end_before(l.chords, j) && ch.column <= utf8_len(l.content) {
            seq![(byte_slice(l.content, end_before(l.chords, j), ch.column), TextTag::Plain)]
        } else {
            Seq::empty()
        };
        assert(chord_pieces(l, k) == prev + piece + seq![(name, TextTag::Chord)]);
        lemma_segments_text_concat(prev + piece, seq![(name, TextTag::Chord)]);
        lemma_segments_text_concat(prev, piece);
        lemma_segments_text_one(name, TextTag::Chord);
        if gap.len() > 0 {
            assert(byte_slice(l.content, end_before(l.chords, j), ch.column) =~= gap) by {
                assert(before.subrange(bj.plain.len() as int, before.len() as int) =~= gap);
            }
            lemma_segments_text_one(gap, TextTag::Plain);
        } else {
            assert(gap =~= Seq::<char>::empty());
            assert(bj.plain + gap =~= bj.plain);
            assert(piece =~= Seq::<(Seq<char>, TextTag)>::empty());
            assert(segments_text(piece) =~= gap);
        }
        assert(segments_text(chord_pieces(l, k)) =~= next);
    }
}

proof fn lemma_parsed_chord_line_text(raw: Seq<char>)
    requires
        parse_line_spec(raw).chords.len() > 0,
    ensures
        ({
            let l = parse_line_spec(raw);
            let n = l.chords.len() as int;
            let last = end_before(l.chords, n);
            segments_text(chord_pieces(l, n) + if last < utf8_len(l.content) {
                seq![(byte_slice(l.content, last, utf8_len(l.content) as int), TextTag::Plain)]
            } else {
                Seq::empty()
            }) == l.content
        }),
{
    let l = parse_line_spec(raw);
    let ms = chord_spans(raw, 0);
    let b = build(raw, ms);
    let c = b.plain + raw.subrange(b.last, raw.len() as int);
    let n = l.chords.len() as int;
    lemma_chord_spans(raw, 0);
    lemma_build_prefix(raw, ms, 0);
    assert(l.chords == b.chords);
    assert(l.content == c);
    lemma_parsed_pieces(raw, n);
    assert(ms.take(n) =~= ms);
    lemma_end_before(raw, ms, n);
    let tail = raw.subrange(b.last, raw.len() as int);
    assert(c.subrange(0, b.plain.len() as int) =~= b.plain);
    assert(c.subrange(0, c.len() as int) =~= c);
    lemma_prefix_boundary(c, b.plain);
    lemma_prefix_boundary(c, c);
    lemma_utf8_len_concat(b.plain, tail);
    lemma_utf8_len_at_least(tail);
    let last = end_before(l.chords, n);
    let rest = if last < utf8_len(l.content) {
        seq![(byte_slice(l.content, last, utf8_len(l.content) as int), TextTag::Plain)]
    } else {
        Seq::empty()
    };
    lemma_segments_text_concat(chord_pieces(l, n), rest);
    if tail.len() > 0 {
        assert(byte_slice(l.content, last, utf8_len(l.content) as int) =~= tail) by {
            assert(c.subrange(b.plain.len() as int, c.len() as int) =~= tail);
        }
        lemma_segments_text_one(tail, TextTag::Plain);
    } else {
        assert(tail =~= Seq::<char>::empty());
        assert(rest =~= Seq::<(Seq<char>, TextTag)>::empty());
        assert(segments_text(rest) == Seq::<char>::empty());
        assert(b.plain + tail =~= b.plain);
    }
    assert(segments_text(chord_pieces(l, n) + rest) =~= c);
}

/// Showing a line that parsing produced shows exactly the line's text: the tags only
/// colour it.
pub proof fn law_parsed_line_shows_its_text(raw: Seq<char>)
    ensures
        segments_text(line_segments(parse_line_spec(raw))) == parse_line_spec(raw).content,
{
    let l = parse_line_spec(raw);
    match l.kind {
        LineKind::Empty => {
            assert(l.content =~= Seq::<char>::empty());
            assert(line_segments(l) =~= Seq::<(Seq<char>, TextTag)>::empty());
        },
        LineKind::SectionHeader => {
            lemma_segments_text_one(l.content, TextTag::Section);
        },
        _ => {
            if l.chords.len() == 0 {
                lemma_segments_text_one(l.content, TextTag::Plain);
            } else {
                lemma_parsed_chord_line_text(raw);
            }
        },
    }
}

/// The chords of a line stand in order, none starting before the previous name ends,
/// each name in the text at its column.
pub open spec fn chords_in_place(l: LineView) -> bool {
    &&& forall|k: int| 0 <= k < l.chords.len() ==> #[trigger] name_in_text(l, k)
    &&& forall|k: int|
        0 <= k < l.chords.len() ==> (#[trigger] l.chords[k]).column >= end_before(l.chords, k)
}

proof fn lemma_index_order(s: Seq<char>, a: int, b: int)
    requires
        a <= b,
        char_index(s, a) is Some,
        char_index(s, b) is Some,
    ensures
        0 <= char_index(s, a)->0 <= char_index(s, b)->0,
        char_index(s, b)->0 <= s.len(),
        utf8_len(s.take(char_index(s, b)->0)) == b,
        utf8_len(s.take(char_index(s, a)->0)) == a,
{
    lemma_char_index(s, a);
    lemma_char_index(s, b);
    let i = char_index(s, a)->0;
    let j = char_index(s, b)->0;
    if i > j {
        lemma_prefix_len_strict(s, j, i);
    }
}

proof fn lemma_in_place_pieces(l: LineView, k: int)
    requires
        chords_in_place(l),
        0 <= k <= l.chords.len(),
    ensures
        char_index(l.content, end_before(l.chords, k)) is Some,
        segments_text(chord_pieces(l, k)) == l.content.take(
            char_index(l.content, end_before(l.chords, k))->0,
        ),
    decreases k,
{
    let s = l.content;
    if k == 0 {
        assert(s.take(0) =~= Seq::<char>::empty());
    } else {
        let j = k - 1;
        lemma_in_place_pieces(l, j);
        let c = l.chords[j];
        let last = end_before(l.chords, j);
        let e = end_before(l.chords, k);
        assert(name_in_text(l, j));
        assert(c.column >= last);
        let name = chord_display(c);
        assert(e == c.column + utf8_len(name));
        lemma_index_order(s, last, c.column);
        lemma_index_order(s, c.column, e);
        let il = char_index(s, last)->0;
        let ic = char_index(s, c.column)->0;
        let ie = char_index(s, e)->0;
        lemma_prefix_len_strict(s, ie, s.len() as int);
        assert(s.take(s.len() as int) =~= s);
        let prev = chord_pieces(l, j);
        let piece = if c.column > last && c.column <= utf8_len(s) {
            seq![(byte_slice(s, last, c.column), TextTag::Plain)]
        } else {
            Seq::empty()
        };
        assert(chord_pieces(l, k) == prev + piece + seq![(name, TextTag::Chord)]);
        lemma_segments_text_concat(prev + piece, seq![(name, TextTag::Chord)]);
        lemma_segments_text_concat(prev, piece);
        lemma_segments_text_one(name, TextTag::Chord);
        assert(byte_slice(s, c.column, e) == name);
        if c.column > last {
            lemma_segments_text_one(byte_slice(s, last, c.column), TextTag::Plain);
            assert(s.take(il) + s.subrange(il, ic) + s.subrange(ic, ie) =~= s.take(ie));
        } else {
            assert(ic == il);
            assert(piece =~= Seq::<(Seq<char>, TextTag)>::empty());
            assert(segments_text(piece) == Seq::<char>::empty());
            assert(s.take(il) + Seq::<char>::empty() + s.subrange(ic, ie) =~= s.take(ie));
        }
    }
}

/// Showing a line whose chords are in place shows exactly the line's text (an empty
/// line shows nothing, so its text must be empty): the tags only colour it.
pub proof fn law_in_place_line_shows_its_text(l: LineView)
    requires
        chords_in_place(l),
        l.kind == LineKind::Empty ==> l.content.len() == 0,
    ensures
        segments_text(line_segments(l)) == l.content,
{
    match l.kind {
        LineKind::Empty => {
            assert(l.content =~= Seq::<char>::empty());
            assert(line_segments(l) =~= Seq::<(Seq<char>, TextTag)>::empty());
        },
        LineKind::SectionHeader => {
            lemma_segments_text_one(l.content, TextTag::Section);
        },
        _ => {
            if l.chords.len() == 0 {
                lemma_segments_text_one(l.content, TextTag::Plain);
            } else {
                let s = l.content;
                let n = l.chords.len() as int;
                lemma_in_place_pieces(l, n);
                let last = end_before(l.chords, n);
                let len = utf8_len(s) as int;
                assert(s.take(s.len() as int) =~= s);
                lemma_char_index_of_prefix(s, s.len() as int);
                assert(char_index(s, len) == Some(s.len() as int));
                let il = char_index(s, last)->0;
                lemma_char_index(s, last);
                lemma_prefix_len_strict(s, il, s.len() as int);
                let rest = if last < len {
                    seq![(byte_slice(s, last, len), TextTag::Plain)]
                } else {
                    Seq::empty()
                };
                assert(line_segments(l) == chord_pieces(l, n) + rest);
                lemma_segments_text_concat(chord_pieces(l, n), rest);
                if last < len {
                    lemma_segments_text_one(byte_slice(s, last, len), TextTag::Plain);
                    assert(s.take(il) + s.subrange(il, s.len() as int) =~= s);
                } else {
                    if il < s.len() {
                        lemma_prefix_len_strict(s, il, il + 1);
                        lemma_prefix_len_strict(s, il + 1, s.len() as int);
                    }
                    assert(il == s.len());
                    assert(rest =~= Seq::<(Seq<char>, TextTag)>::empty());
                    assert(segments_text(rest) == Seq::<char>::empty());
                    assert(s.take(il) + Seq::<char>::empty() =~= s);
                }
            }
        },
    }
}

/// Showing a parsed line transposed by any number of half steps shows exactly its
/// text.
pub proof fn law_transposed_line_shows_its_text(raw: Seq<char>, steps: int)
    ensures
        segments_text(line_segments(transposed_line(parse_line_spec(raw), steps)))
            == transposed_line(parse_line_spec(raw), steps).content,
{
    let l = parse_line_spec(raw);
    if steps == 0 || l.chords.len() == 0 {
        law_parsed_line_shows_its_text(raw);
    } else {
        let t = transposed_line(l, steps);
        law_transposed_names_in_text(l, steps);
        law_transposed_chords_in_order(l, steps);
        law_transposed_line_chords(l, steps);
        assert(l.kind != LineKind::Empty);
        law_in_place_line_shows_its_text(t);
    }
}

} // verus!
