use chords::data::models::{ChordPosition, LineKind, ParsedLine};
use chords::music::parser::parse_tab_content;
use chords::music::transpose::{
    line_can_transpose, lines_can_transpose, transpose_line, transpose_lines, transpose_note,
};

fn names(l: &ParsedLine) -> Vec<(usize, String)> {
    l.chords.iter().map(|c| (c.column, c.display())).collect()
}

#[test]
fn transpose_lines_rewrites_content_and_columns() {
    let lines = parse_tab_content("[ch]G[/ch]    [ch]D[/ch]\nHello");
    assert!(lines_can_transpose(&lines, 2));
    let up = transpose_lines(&lines, 2);
    assert_eq!(up[0].content, "A    E");
    assert_eq!(names(&up[0]), vec![(0, "A".to_string()), (5, "E".to_string())]);
    assert_eq!(up[1].content, "Hello");
    assert_eq!(up[1].kind, LineKind::LyricLine);
}

#[test]
fn shorter_name_is_padded_longer_name_shifts() {
    let lines = parse_tab_content("[ch]F#m[/ch] x\n[ch]E[/ch] [ch]A[/ch]");
    let up = transpose_lines(&lines, 1);
    assert_eq!(up[0].content, "Gm  x");
    assert_eq!(names(&up[0]), vec![(0, "Gm".to_string())]);
    let up = transpose_lines(&lines, 2);
    assert_eq!(up[1].content, "F# B");
    assert_eq!(names(&up[1]), vec![(0, "F#".to_string()), (3, "B".to_string())]);
}

#[test]
fn bass_note_moves_too() {
    let lines = parse_tab_content("[ch]Am7/G[/ch]");
    let up = transpose_lines(&lines, 2);
    assert_eq!(up[0].content, "Bm7/A");
    assert_eq!(up[0].chords[0].bass, Some("A".to_string()));
}

#[test]
fn zero_steps_and_octave_keep_names() {
    let lines = parse_tab_content("[ch]C[/ch]  [ch]G/B[/ch] la\n[Chorus]");
    let same = transpose_lines(&lines, 0);
    assert_eq!(same[0].content, lines[0].content);
    let octave = transpose_lines(&lines, 12);
    assert_eq!(octave[0].content, lines[0].content);
    assert_eq!(names(&octave[0]), names(&lines[0]));
    assert_eq!(octave[1].content, "[Chorus]");
}

#[test]
fn notes_round_trip() {
    for n in ["A", "A#", "B", "C", "C#", "D", "D#", "E", "F", "F#", "G", "G#"] {
        for s in -11..=11 {
            assert_eq!(transpose_note(&transpose_note(n, s), -s), n);
        }
    }
    assert_eq!(transpose_note(&transpose_note("Bb", 3), -3), "A#");
}

#[test]
fn transposability_is_checked() {
    let bad = ParsedLine {
        kind: LineKind::ChordLine,
        content: "é G".to_string(),
        chords: vec![ChordPosition { column: 1, root: "G".to_string(), quality: String::new(), bass: None }],
    };
    assert!(!line_can_transpose(&bad, 1));
    assert!(line_can_transpose(&bad, 0));
    let huge = ParsedLine {
        kind: LineKind::ChordLine,
        content: "G".to_string(),
        chords: vec![ChordPosition { column: 0, root: "B".to_string(), quality: String::new(), bass: None }],
    };
    assert!(!line_can_transpose(&huge, i32::MAX));
    assert!(line_can_transpose(&huge, 5));
    let t = transpose_line(&huge, 1);
    assert_eq!(t.content, "C");
}

#[test]
fn chord_names_stand_at_their_columns() {
    let lines = parse_tab_content(
        "[ch]E[/ch]  [ch]Bbm7/Ab[/ch] é [ch]F#[/ch]\n[ch]Am7/G[/ch]    [ch]D[/ch]   text",
    );
    for steps in [-11, -5, -1, 1, 2, 7, 11] {
        for line in transpose_lines(&lines, steps).iter().chain(lines.iter()) {
            for c in &line.chords {
                let name = c.display();
                assert_eq!(&line.content[c.column..c.column + name.len()], name);
            }
        }
    }
}

#[test]
fn transposing_twice_adds_steps_to_names() {
    let lines = parse_tab_content("[ch]Bbm7/Ab[/ch] x [ch]C#[/ch]");
    let twice = transpose_lines(&transpose_lines(&lines, 3), 4);
    let once = transpose_lines(&lines, 7);
    let a: Vec<String> = twice[0].chords.iter().map(|c| c.display()).collect();
    let b: Vec<String> = once[0].chords.iter().map(|c| c.display()).collect();
    assert_eq!(a, b);
}

fn placed(l: &ParsedLine) -> bool {
    let named = l.chords.iter().all(|c| {
        let d = c.display();
        l.content.get(c.column..c.column + d.len()) == Some(d.as_str())
    });
    let apart = l
        .chords
        .windows(2)
        .all(|w| w[0].column + w[0].display().len() <= w[1].column);
    named && apart
}

#[test]
fn parsed_and_transposed_chords_stay_placed() {
    let raw = "[ch]C/G[/ch] [ch]F#m7[/ch]x[ch]Bb[/ch]\nà [ch]E[/ch][ch]A[/ch] la\n[Verse 1]";
    let lines = parse_tab_content(raw);
    assert!(lines.iter().all(placed));
    for steps in [-13, -1, 1, 2, 5, 11] {
        assert!(lines_can_transpose(&lines, steps));
        let moved = transpose_lines(&lines, steps);
        assert!(moved.iter().all(placed));
    }
}

#[test]
fn a_placed_line_can_be_transposed() {
    let line = ParsedLine {
        kind: LineKind::ChordLine,
        content: "é G  à Am7/E".to_string(),
        chords: vec![
            ChordPosition { column: 3, root: "G".to_string(), quality: String::new(), bass: None },
            ChordPosition {
                column: 9,
                root: "A".to_string(),
                quality: "m7".to_string(),
                bass: Some("E".to_string()),
            },
        ],
    };
    assert!(placed(&line));
    let lines = vec![line];
    for steps in [-5, 1, 3] {
        assert!(lines_can_transpose(&lines, steps));
        assert!(transpose_lines(&lines, steps).iter().all(placed));
    }
}
