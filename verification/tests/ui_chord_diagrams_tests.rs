use chords::music::parser::parse_tab_content;
use chords::music::transpose::transpose_lines;
use chords::ui::chord_diagrams::{fret_offset, voicing_fits};
use chords::music::chord_db::ChordDb;
use chords::ui::chord_diagrams::{
    chord_name_can_transpose, diagram_chords, diagram_layout, position_label, transpose_chord_name,
    ChordDiagramPanel, StringMark,
};

#[test]
fn chord_names_transpose_root_and_bass() {
    assert_eq!(transpose_chord_name("Am7", 2), "Bm7");
    assert_eq!(transpose_chord_name("F#m", 1), "Gm");
    assert_eq!(transpose_chord_name("Bbmaj7", 2), "Cmaj7");
    assert_eq!(transpose_chord_name("G", 0), "G");
    assert_eq!(transpose_chord_name("", 3), "");
    assert_eq!(transpose_chord_name("Xyz", 3), "Xyz");
    assert_eq!(transpose_chord_name("C/G", 2), "D/A");
    assert_eq!(transpose_chord_name("Am7/G#", -1), "G#m7/G");
    assert_eq!(transpose_chord_name("Bb/F", 1), "B/F#");
    assert_eq!(transpose_chord_name("D/", 2), "E/");
}

#[test]
fn chord_name_checks() {
    assert!(chord_name_can_transpose("Am", 5));
    assert!(chord_name_can_transpose("Émaj", 0));
    assert!(!chord_name_can_transpose("Émaj", 1));
    assert!(chord_name_can_transpose("", 1));
    assert!(chord_name_can_transpose("A", i32::MAX));
    assert!(!chord_name_can_transpose("B", i32::MAX));
    assert!(chord_name_can_transpose("B", i32::MAX - 2));
    assert!(chord_name_can_transpose("A/A", i32::MAX));
    assert!(!chord_name_can_transpose("A/B", i32::MAX));
}

#[test]
fn open_chord_layout() {
    let l = diagram_layout(&[None, Some(0), Some(2), Some(2), Some(2), Some(0)]);
    assert_eq!(l.fret_offset, 0);
    assert_eq!(
        l.marks,
        [
            StringMark::Muted,
            StringMark::Open,
            StringMark::Dot(2),
            StringMark::Dot(2),
            StringMark::Dot(2),
            StringMark::Open
        ]
    );
    assert_eq!(position_label(&l), None);
}

#[test]
fn barre_chord_layout_starts_below_lowest_fret() {
    let l = diagram_layout(&[Some(5), Some(7), Some(7), Some(6), Some(5), Some(5)]);
    assert_eq!(l.fret_offset, 4);
    assert_eq!(
        l.marks,
        [
            StringMark::Dot(1),
            StringMark::Dot(3),
            StringMark::Dot(3),
            StringMark::Dot(2),
            StringMark::Dot(1),
            StringMark::Dot(1)
        ]
    );
    assert_eq!(position_label(&l), Some("5fr".to_string()));
}

#[test]
fn wide_chord_hides_far_frets() {
    let l = diagram_layout(&[Some(1), Some(9), None, None, None, None]);
    assert_eq!(l.fret_offset, 0);
    assert_eq!(l.marks[0], StringMark::Dot(1));
    assert_eq!(l.marks[1], StringMark::Hidden);
}

#[test]
fn diagrams_follow_transposition() {
    let db = ChordDb::load();
    let names = vec!["A".to_string(), "Xzz99".to_string(), "Am".to_string()];
    let shown = diagram_chords(&db, &names, 0);
    let shown_names: Vec<&str> = shown.iter().map(|(n, _)| n.as_str()).collect();
    assert_eq!(shown_names, vec!["A", "Am"]);
    assert_eq!(shown[0].1, [None, Some(0), Some(2), Some(2), Some(2), Some(0)]);
    let up = diagram_chords(&db, &names, 2);
    let up_names: Vec<&str> = up.iter().map(|(n, _)| n.as_str()).collect();
    assert_eq!(up_names, vec!["B", "Bm"]);
}

#[test]
fn panel_state() {
    let db = ChordDb::load();
    let mut p = ChordDiagramPanel::new();
    assert!(p.diagrams(&db).is_empty());
    p.set_chord_names(&["G".to_string(), "D".to_string()]);
    assert!(p.can_show());
    assert_eq!(p.diagrams(&db).len(), 2);
    p.set_transpose(-2);
    let names: Vec<String> = p.diagrams(&db).into_iter().map(|(n, _)| n).collect();
    assert_eq!(names, vec!["F", "C"]);
    p.clear();
    assert!(p.diagrams(&db).is_empty());
}

#[test]
fn voicing_checks_and_offsets() {
    assert_eq!(fret_offset(&[None, Some(0), Some(2), Some(2), Some(2), Some(0)]), 0);
    assert_eq!(fret_offset(&[Some(8), Some(10), Some(10), Some(9), Some(8), Some(8)]), 7);
    assert_eq!(fret_offset(&[None, None, None, None, None, None]), 0);
    assert!(voicing_fits(&[Some(-3), Some(7), None, None, None, None]));
    assert!(!voicing_fits(&[Some(i32::MIN), Some(7), None, None, None, None]));
    assert!(voicing_fits(&[Some(i32::MIN), Some(2), None, None, None, None]));
}

#[test]
fn diagram_names_match_the_transposed_sheet() {
    let lines = parse_tab_content("[ch]C/G[/ch] [ch]Am7/G#[/ch] [ch]Bbmaj7[/ch] [ch]F#[/ch]");
    for steps in [-3, 2, 7] {
        let moved = transpose_lines(&lines, steps);
        for (a, b) in lines[0].chords.iter().zip(moved[0].chords.iter()) {
            assert_eq!(transpose_chord_name(&a.display(), steps), b.display());
        }
    }
    assert_eq!(transpose_lines(&lines, 2)[0].chords[0].display(), "D/A");
}
