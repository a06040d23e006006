use chords::data::models::LineKind;
use chords::music::parser::{parse_line, parse_tab_content};

#[test]
fn test_parse_chord_line() {
    let line = "[ch]G[/ch]            [ch]D[/ch]                 [ch]Em[/ch]  [ch]Bm[/ch]";
    let parsed = parse_line(line);
    assert_eq!(parsed.kind, LineKind::ChordLine);
    assert_eq!(parsed.chords.len(), 4);
    assert_eq!(parsed.chords[0].root, "G");
    assert_eq!(parsed.chords[1].root, "D");
    assert_eq!(parsed.chords[2].root, "E");
    assert_eq!(parsed.chords[2].quality, "m");
    assert_eq!(parsed.chords[3].root, "B");
    assert_eq!(parsed.chords[3].quality, "m");
}

#[test]
fn test_parse_lyric_line() {
    let line = "It's nice to hear your voice again";
    let parsed = parse_line(line);
    assert_eq!(parsed.kind, LineKind::LyricLine);
    assert!(parsed.chords.is_empty());
}

#[test]
fn test_parse_section_header() {
    let line = "[Verse 1]";
    let parsed = parse_line(line);
    assert_eq!(parsed.kind, LineKind::SectionHeader);
}

#[test]
fn test_parse_empty_line() {
    let parsed = parse_line("");
    assert_eq!(parsed.kind, LineKind::Empty);
}

#[test]
fn test_chord_with_bass() {
    let line = "[ch]Am7/G[/ch]";
    let parsed = parse_line(line);
    assert_eq!(parsed.chords.len(), 1);
    assert_eq!(parsed.chords[0].root, "A");
    assert_eq!(parsed.chords[0].quality, "m7");
    assert_eq!(parsed.chords[0].bass.as_deref(), Some("G"));
}

#[test]
fn test_parse_full_content() {
    let content = "[Verse 1]\n[ch]G[/ch]    [ch]D[/ch]\nHello world\n\n[Chorus]";
    let lines = parse_tab_content(content);
    assert_eq!(lines.len(), 5);
    assert_eq!(lines[0].kind, LineKind::SectionHeader);
    assert_eq!(lines[1].kind, LineKind::ChordLine);
    assert_eq!(lines[2].kind, LineKind::LyricLine);
    assert_eq!(lines[3].kind, LineKind::Empty);
    assert_eq!(lines[4].kind, LineKind::SectionHeader);
}
