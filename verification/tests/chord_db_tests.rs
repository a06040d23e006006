use chords::music::chord_db::{chord_count, get_all_voicings, get_voicing, parse_database, parse_voicing};

#[test]
fn test_database_loads() {
    let count = chord_count();
    assert!(count > 1000, "Expected >1000 chords, got {}", count);
    println!("Loaded {} chords from database", count);
}

#[test]
fn test_lookup_a() {
    let voicing = get_voicing("A").expect("A chord not found");
    // A = x 0 2 2 2 0 (first voicing)
    assert_eq!(voicing[0], None); // 6th string muted
    assert_eq!(voicing[1], Some(0)); // 5th string open
    assert_eq!(voicing[2], Some(2)); // 4th string fret 2
    assert_eq!(voicing[3], Some(2));
    assert_eq!(voicing[4], Some(2));
    assert_eq!(voicing[5], Some(0)); // 1st string open
}

#[test]
fn test_lookup_am() {
    let voicing = get_voicing("Am").expect("Am chord not found");
    assert!(voicing[1] == Some(0)); // 5th string open
}

#[test]
fn test_lookup_missing() {
    assert!(get_voicing("Xzz99").is_none());
}

#[test]
fn test_multiple_voicings() {
    let voicings = get_all_voicings("A");
    assert!(voicings.len() > 1, "A should have multiple voicings");
    println!("A has {} voicings", voicings.len());
}

#[test]
fn lookup_falls_back_to_case_insensitive_match() {
    assert_eq!(get_voicing("am"), get_voicing("Am"));
    assert_eq!(get_voicing("aMIN7"), get_voicing("Amin7"));
}

#[test]
fn parse_voicing_reads_fields() {
    assert_eq!(parse_voicing("x 0 2 2 1 0"), Some([None, Some(0), Some(2), Some(2), Some(1), Some(0)]));
    assert_eq!(parse_voicing("  X\t10 12 +3 -1 0 "), Some([None, Some(10), Some(12), Some(3), Some(-1), Some(0)]));
    assert_eq!(parse_voicing("x 0 2 2 1"), None);
    assert_eq!(parse_voicing("x 0 2 2 1 0 0"), None);
    assert_eq!(parse_voicing("x 0 2 2 y 0"), None);
    assert_eq!(parse_voicing("x 0 2 2 - 0"), None);
    assert_eq!(parse_voicing("x 0 2 2 2147483648 0"), None);
    assert_eq!(parse_voicing("x 0 2 2 -2147483648 0"), Some([None, Some(0), Some(2), Some(2), Some(-2147483648), Some(0)]));
}

#[test]
fn parse_database_blocks() {
    let db = parse_database("A\nx 0 2 2 2 0\n5 7 7 6 5 5\n\nB\nnot a voicing\n\nC\r\nx 3 2 0 1 0\r\n\nA\n0 0 0 0 0 0\n");
    assert_eq!(db.len(), 2);
    assert_eq!(db.voicing("A"), Some([Some(0), Some(0), Some(0), Some(0), Some(0), Some(0)]));
    assert_eq!(db.voicings("C").len(), 1);
    assert_eq!(db.voicing("B"), None);
    assert_eq!(db.voicings("Q").len(), 0);
}
