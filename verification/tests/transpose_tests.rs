use chords::music::transpose::transpose_note;

#[test]
fn test_transpose_note_up() {
    assert_eq!(transpose_note("C", 2), "D");
    assert_eq!(transpose_note("G", 1), "G#");
    assert_eq!(transpose_note("B", 1), "C");
}

#[test]
fn test_transpose_note_down() {
    assert_eq!(transpose_note("C", -1), "B");
    assert_eq!(transpose_note("A", -2), "G");
    assert_eq!(transpose_note("D", -3), "B");
}

#[test]
fn test_transpose_note_wrap() {
    assert_eq!(transpose_note("G", 5), "C");
    assert_eq!(transpose_note("A", 12), "A"); // Full octave = same note
}

#[test]
fn test_transpose_sharp() {
    assert_eq!(transpose_note("F#", 1), "G");
    assert_eq!(transpose_note("C#", -1), "C");
}

#[test]
fn test_transpose_flat() {
    assert_eq!(transpose_note("Bb", 1), "B");
    assert_eq!(transpose_note("Eb", 2), "F");
}

#[test]
fn test_unknown_note() {
    assert_eq!(transpose_note("X", 1), "X");
}
