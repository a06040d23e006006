use chords::data::models::{ChordPosition, LineKind, ParsedLine};
use chords::music::parser::{parse_line, parse_tab_content};
use chords::music::transpose::transpose_lines;
use chords::ui::tab_view::{
    line_can_render, render_lines_into_buffer, split_lines, Segment, TabView, TextTag,
};

fn pieces(segs: &[Segment]) -> Vec<(String, TextTag)> {
    segs.iter().map(|s| (s.text.clone(), s.tag)).collect()
}

fn plain_line(text: &str) -> ParsedLine {
    ParsedLine { kind: LineKind::LyricLine, content: text.to_string(), chords: Vec::new() }
}

#[test]
fn split_lines_spreads_evenly() {
    let lines: Vec<ParsedLine> = (0..10).map(|i| plain_line(&format!("line {}", i))).collect();
    let cols = split_lines(&lines, 3);
    let sizes: Vec<usize> = cols.iter().map(|c| c.len()).collect();
    assert_eq!(sizes, vec![4, 4, 2]);
    assert_eq!(cols[1][0].content, "line 4");
    assert_eq!(cols[2][1].content, "line 9");

    let one = split_lines(&lines, 1);
    assert_eq!(one.len(), 1);
    assert_eq!(one[0].len(), 10);

    let none = split_lines(&[], 4);
    assert_eq!(none.len(), 1);
    assert!(none[0].is_empty());

    let two = split_lines(&lines[..2], 4);
    assert_eq!(two.iter().map(|c| c.len()).collect::<Vec<_>>(), vec![1, 1]);
}

#[test]
fn split_lines_keeps_every_line_in_order() {
    let lines: Vec<ParsedLine> = (0..17).map(|i| plain_line(&format!("{}", i))).collect();
    for cols in 0..6usize {
        let chunks = split_lines(&lines, cols);
        assert!(chunks.len() <= cols.max(1));
        let joined: Vec<String> = chunks.iter().flatten().map(|l| l.content.clone()).collect();
        let expected: Vec<String> = lines.iter().map(|l| l.content.clone()).collect();
        assert_eq!(joined, expected);
    }
}

#[test]
fn render_chord_line_tags_chords() {
    let line = parse_line("[ch]G[/ch]    [ch]D[/ch] la");
    assert!(line_can_render(&line));
    let segs = render_lines_into_buffer(&[line]);
    assert_eq!(
        pieces(&segs),
        vec![
            ("G".to_string(), TextTag::Chord),
            ("    ".to_string(), TextTag::Plain),
            ("D".to_string(), TextTag::Chord),
            (" la".to_string(), TextTag::Plain),
        ]
    );
}

#[test]
fn render_buffer_joins_lines() {
    let lines = parse_tab_content("[Verse 1]\n[ch]G[/ch]    [ch]D[/ch]\nHello world\n");
    let segs = render_lines_into_buffer(&lines);
    let text: String = segs.iter().map(|s| s.text.as_str()).collect();
    assert_eq!(text, "[Verse 1]\nG    D\nHello world\n");
    assert_eq!(segs[0].tag, TextTag::Section);
    assert_eq!(segs[0].text, "[Verse 1]");
    assert_eq!(segs[2].tag, TextTag::Chord);
}

#[test]
fn render_overlapping_chord_skips_gap() {
    let line = ParsedLine {
        kind: LineKind::ChordLine,
        content: "Am  C".to_string(),
        chords: vec![
            ChordPosition { column: 0, root: "A".to_string(), quality: "m".to_string(), bass: None },
            ChordPosition { column: 1, root: "C".to_string(), quality: String::new(), bass: None },
        ],
    };
    assert!(line_can_render(&line));
    let segs = render_lines_into_buffer(&[line]);
    assert_eq!(
        pieces(&segs),
        vec![
            ("Am".to_string(), TextTag::Chord),
            ("C".to_string(), TextTag::Chord),
            ("  C".to_string(), TextTag::Plain),
        ]
    );
}

#[test]
fn line_can_render_rejects_cut_inside_character() {
    let line = ParsedLine {
        kind: LineKind::ChordLine,
        content: "é G".to_string(),
        chords: vec![ChordPosition {
            column: 1,
            root: "G".to_string(),
            quality: String::new(),
            bass: None,
        }],
    };
    assert!(!line_can_render(&line));
    assert!(line_can_render(&plain_line("é")));
}

#[test]
fn tab_view_defaults() {
    let v = TabView::new();
    assert_eq!(v.get_font_size(), 14);
    assert_eq!(v.font_family(), "Monospace");
    assert_eq!(v.chord_color(), "#3584e4");
    assert_eq!(v.section_color(), "#e66100");
    assert_eq!(v.column_count(), 1);
    assert_eq!(v.scroll_speed_ms(), 500);
    assert!(!v.is_scrolling());
    assert_eq!(v.font_css(), "textview { font-family: \"Monospace\"; font-size: 14pt; }");
}

#[test]
fn tab_view_clamps_settings() {
    let mut v = TabView::new();
    v.set_font_size(40);
    assert_eq!(v.get_font_size(), 32);
    v.set_font_size(2);
    assert_eq!(v.get_font_size(), 8);
    v.set_font_size(20);
    assert_eq!(v.get_font_size(), 20);
    assert!(v.set_columns(9));
    assert_eq!(v.column_count(), 4);
    assert!(!v.set_columns(4));
    assert!(v.set_columns(-3));
    assert_eq!(v.column_count(), 1);
    assert!(!v.set_scroll_speed(3));
    assert_eq!(v.scroll_speed_ms(), 10);
    v.set_font_family("Fira Mono");
    assert_eq!(v.font_css(), "textview { font-family: \"Fira Mono\"; font-size: 20pt; }");
    v.set_chord_color("#ff0000");
    assert_eq!(v.chord_color(), "#ff0000");
    v.set_section_color("#00ff00");
    assert_eq!(v.section_color(), "#00ff00");
}

#[test]
fn tab_view_autoscroll_states() {
    let mut v = TabView::new();
    assert!(!v.start_autoscroll(false));
    assert!(!v.is_scrolling());
    assert!(v.start_autoscroll(true));
    assert!(v.is_scrolling());
    assert!(v.set_scroll_speed(200));
    assert!(v.scroll_step(false));
    assert!(v.is_scrolling());
    assert!(!v.scroll_step(true));
    assert!(!v.is_scrolling());
    assert!(!v.stop_autoscroll());
    v.start_autoscroll(true);
    assert!(v.stop_autoscroll());
    assert!(!v.is_scrolling());
}

#[test]
fn tab_view_columns_render_each_chunk() {
    let mut v = TabView::new();
    let lines = parse_tab_content("a\nb\nc\nd\ne");
    v.render_lines(&lines);
    v.set_columns(2);
    let cols = v.columns();
    assert_eq!(cols.len(), 2);
    let texts: Vec<String> =
        cols.iter().map(|c| c.iter().map(|s| s.text.as_str()).collect()).collect();
    assert_eq!(texts, vec!["a\nb\nc".to_string(), "d\ne".to_string()]);
}

#[test]
fn tab_view_checks_lines_before_layout() {
    let mut v = TabView::new();
    assert!(v.can_lay_out());
    v.render_lines(&parse_tab_content("[ch]Am[/ch] la"));
    assert!(v.can_lay_out());
    let bad = ParsedLine {
        kind: LineKind::ChordLine,
        content: "é G".to_string(),
        chords: vec![ChordPosition { column: 1, root: "G".to_string(), quality: String::new(), bass: None }],
    };
    v.render_lines(&[bad]);
    assert!(!v.can_lay_out());
}

#[test]
fn parsed_lines_show_their_own_text() {
    let raw = "[Chorus]\n  [ch]A[/ch][ch]B7[/ch] la é [ch]C/G[/ch]\nno chords here\n\n[ch]F#m[/ch]\n   \nà [ch]Dm[/ch] [ch]x";
    for line in parse_tab_content(raw) {
        assert!(line_can_render(&line));
        let text: String = render_lines_into_buffer(&[line.clone()]).iter().map(|s| s.text.as_str()).collect();
        assert_eq!(text, line.content);
    }
}

#[test]
fn transposed_lines_show_their_own_text() {
    let lines = parse_tab_content("[ch]E[/ch]  [ch]Bbm7/Ab[/ch] é [ch]F#[/ch]\n[ch]Am7/G[/ch][ch]D[/ch] x\n[Verse]");
    for steps in [-11, -3, 1, 2, 5, 11] {
        for line in transpose_lines(&lines, steps) {
            assert!(line_can_render(&line));
            let text: String = render_lines_into_buffer(&[line.clone()]).iter().map(|s| s.text.as_str()).collect();
            assert_eq!(text, line.content);
        }
    }
}
