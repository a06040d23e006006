use vstd::prelude::*;

verus! {

/// Chords with root A.
pub const CHORDS_A: &'static str = "A
x 0 2 2 2 0
5 7 7 6 5 5
5 0 2 2 2 0
5 0 2 2 2 5

Am
x 0 2 2 1 0
5 7 7 5 5 5
5 0 2 5 5 0
5 0 2 5 5 5

A5
5 0 2 2 5 0
5 0 2 2 5 5
x x 7 9 10 0

A6
x 0 2 2 2 2
5 0 4 6 5 0
5 0 4 6 5 5
5 4 4 6 5 0

Am6
5 0 4 5 5 0
5 0 4 5 5 5
5 3 4 5 5 0

A69
5 4 4 4 0 0
5 4 4 4 0 5
5 4 4 4 5 0

Am69
5 0 4 5 0 0
5 0 4 5 0 5
5 3 4 4 0 0

A7
x 0 2 0 2 0
5 4 5 0 5 0
5 4 5 0 5 5
5 4 5 0 5 3

Am7
x 0 2 0 1 0
5 0 5 5 5 3
5 3 5 0 5 0
5 3 5 0 5 3

Amaj7
x 0 2 1 2 0
5 0 6 6 5 4
5 4 6 6 5 0
5 4 6 6 5 4

Ammaj7
5 0 6 5 5 4
5 7 6 5 5 5
5 0 2 5 5 4

Adim
5 0 7 5 4 5
5 6 7 5 4 5
x 12 13 14 13 11

Adim7
5 0 4 5 4 5
5 3 4 5 4 5
5 6 4 5 4 5

Aaug
5 0 3 2 2 5
5 4 3 2 2 5
5 0 3 6 6 5

Am7b5
5 0 5 5 4 5
5 0 5 5 4 3
5 3 5 0 4 3

Asus2
x 0 2 2 0 0
5 0 2 2 0 0
5 0 2 2 0 5
5 0 2 4 0 0

Asus4
x 0 2 2 3 0
5 5 7 7 5 5
5 7 7 7 5 5
5 0 0 2 3 0

A7sus4
5 0 0 0 3 0
5 0 0 0 5 3
5 0 5 0 3 0

A7sus2
5 0 5 4 0 0
5 0 5 4 5 0
5 0 5 4 5 5

Aadd9
5 7 7 6 5 7
5 0 2 4 2 0
5 0 2 4 2 5

Amadd9
5 7 7 5 5 7
5 0 2 5 0 0
5 0 2 5 0 5

A9
5 4 5 0 0 0
5 4 5 0 0 5
5 4 5 4 0 0

Am9
5 0 5 5 0 3
5 3 5 0 0 0
5 3 5 0 0 3

Amaj9
5 0 6 6 0 4
5 4 6 4 0 0
5 4 6 4 0 4

A11
5 5 5 4 0 0
5 5 5 4 0 5
5 5 5 4 5 0

Am11
5 5 5 5 5 5
5 0 0 5 3 3
5 0 0 5 5 3

A13
5 4 4 0 5 0
5 4 4 0 5 5
5 4 4 0 5 3

Am13
5 0 4 5 5 3
5 3 4 0 5 0
5 3 4 0 5 3

Amaj13
5 0 4 6 5 4
5 4 4 6 5 4
5 7 6 6 7 5

A7b9
5 4 5 3 5 0
5 4 5 3 5 3
5 4 5 3 5 5

A7#9
5 4 5 5 5 0
5 4 5 5 5 5
5 4 5 5 5 3

A7b5
5 4 5 0 4 5
5 4 5 0 4 3
5 0 5 6 4 5

A7#5
5 4 5 0 6 5
5 4 5 6 6 5
5 0 3 0 2 3

A9sus4
5 5 5 4 0 0
5 5 5 4 0 5
5 5 5 4 5 0

Aadd11
5 4 0 6 5 0
5 4 0 6 5 5
5 5 7 6 5 5

Amaj7#11
5 6 6 6 5 5
5 0 6 6 4 0
5 0 6 6 4 4

A7#11
5 4 5 0 4 0
5 4 5 0 4 5
5 6 5 6 5 5

A9b5
5 4 5 4 4 5
5 4 5 4 4 3
5 6 5 6 0 3

A9#5
5 4 3 0 0 3
5 4 3 0 0 5
5 4 3 4 0 3

A7b13
5 4 3 0 5 0
5 4 3 0 5 3
5 4 3 0 5 5

Am7#5
5 0 3 5 6 3
5 0 5 5 6 3
5 3 3 0 6 3

Amaj7b5
5 0 6 6 4 4
5 0 6 6 4 5
5 4 6 6 4 4

Amaj7#5
5 0 6 6 6 4
5 4 6 6 6 4
5 4 6 6 6 5

Ammaj9
5 0 6 5 0 4
5 7 6 5 5 7
5 0 2 5 0 4

Asus2sus4
5 0 0 4 0 0
5 0 0 4 5 0
5 0 0 4 5 5

A6sus4
5 7 7 7 7 5
5 0 0 2 5 2
5 0 2 2 3 2

Am7b9
5 3 5 3 5 0
5 3 5 3 5 3
5 3 5 3 5 5

A13sus4
5 5 4 0 5 0
5 5 4 0 5 5
5 0 4 0 3 0

A7b9b5
5 4 5 3 4 3
5 4 5 3 4 5
5 0 5 6 4 6

A7#9b5
5 4 5 5 4 5
5 4 5 5 4 3
5 3 5 6 4 3

A7b9#5
5 4 5 0 6 6
5 4 5 6 6 6
5 0 3 3 2 3

A7#9#5
5 4 5 5 6 5
5 0 3 5 2 3
5 3 3 0 2 3

Aadd2
5 7 7 6 5 7
5 0 2 4 2 0
5 0 2 4 2 5

Amadd11
5 0 0 5 3 0
5 3 0 5 3 0
5 3 0 5 5 0

Amaj
5 7 7 6 5 5
5 0 2 2 2 0
5 0 2 2 2 5

Amin
5 7 7 5 5 5
5 0 2 5 5 0
5 0 2 5 5 5

AM7
5 0 6 6 5 4
5 4 6 6 5 0
5 4 6 6 5 4

Amin7
5 0 5 5 5 3
5 3 5 0 5 0
5 3 5 0 5 3

A+
5 0 3 2 2 5
5 4 3 2 2 5
5 0 3 6 6 5

Asus
5 5 7 7 5 5
5 7 7 7 5 5
5 0 0 2 3 0

";

/// Chords with root A#.
pub const CHORDS_A_SHARP: &'static str = "A#
6 8 8 7 6 6
6 5 0 3 6 6
6 5 3 3 3 6

A#m
6 8 8 6 6 6
6 4 3 3 6 6
6 4 3 6 6 6

A#5
x x 8 10 11 x
6 8 8 x 6 6
6 x 3 3 6 6

A#6
6 5 5 7 6 6
6 8 8 7 8 6
6 5 0 0 6 3

A#m6
6 4 5 0 6 6
6 4 5 6 6 6
6 8 8 6 8 6

A#69
6 5 5 5 6 6
6 8 8 7 8 8
6 3 0 0 6 3

A#m69
6 4 5 5 6 6
6 8 8 6 8 8
6 3 3 6 6 3

A#7
6 5 6 7 6 6
6 8 6 7 6 6
6 5 0 3 6 4

A#m7
6 4 6 6 6 4
6 4 6 6 6 6
6 8 6 6 6 6

A#maj7
6 5 7 7 6 5
6 5 7 7 6 6
6 8 7 7 6 6

A#mmaj7
6 8 7 6 6 6
6 0 3 6 6 5
6 0 3 6 6 6

A#dim
6 7 8 6 5 6
x 1 2 3 2 0
x x 8 6 5 6

A#dim7
6 4 5 0 5 0
6 4 5 0 5 6
6 4 5 6 5 0

A#aug
6 5 4 3 3 6
6 5 4 7 7 6
6 5 8 7 7 6

A#m7b5
6 4 6 6 5 0
6 4 6 6 5 4
6 4 6 6 5 6

A#sus2
6 3 3 3 6 6
6 3 3 5 6 6
6 8 8 5 6 6

A#sus4
6 6 8 8 6 6
6 8 8 8 6 6
6 6 3 3 4 6

A#7sus4
6 6 6 8 6 6
6 8 6 8 6 6
6 6 3 3 4 4

A#7sus2
6 3 3 3 6 4
6 3 3 5 6 4
6 3 6 3 6 4

A#add9
6 8 8 7 6 8
6 3 0 3 6 6
6 3 0 5 6 6

A#madd9
6 8 8 6 6 8
6 3 3 6 6 6
6 4 3 5 6 6

A#9
6 5 6 5 6 6
6 5 0 5 6 4
6 5 6 5 6 4

A#m9
6 4 6 5 6 4
6 4 6 5 6 6
6 8 6 6 6 8

A#maj9
6 5 7 5 6 5
6 5 7 5 6 6
6 8 7 7 6 8

A#11
6 6 6 5 6 6
6 6 6 5 6 4
6 6 6 8 6 8

A#m11
6 6 6 6 6 6
6 6 6 6 6 4
6 4 3 3 4 4

A#13
6 5 0 0 6 4
6 5 5 0 6 4
6 5 6 0 6 4

A#m13
6 4 5 0 6 4
6 4 5 6 6 4
6 4 6 0 6 4

A#maj13
6 5 5 7 6 5
6 8 7 7 8 6
6 0 0 0 6 3

A#7b9
6 5 0 4 6 4
6 5 6 4 6 4
6 5 6 4 6 6

A#7#9
6 5 6 6 6 6
6 4 0 6 6 4
6 5 0 6 6 4

A#7b5
6 5 6 7 5 6
6 7 6 7 5 6
6 5 0 3 5 4

A#7#5
6 5 6 7 7 6
6 5 4 3 3 4
6 5 0 7 7 4

A#9sus4
6 6 6 5 6 6
6 6 6 5 6 4
6 6 6 8 6 8

A#add11
6 6 8 7 6 6
6 5 3 3 4 6
6 6 0 3 6 6

A#maj7#11
6 7 7 7 6 6
6 5 7 7 6 5
6 5 7 7 6 6

A#7#11
6 7 6 7 6 6
6 5 6 7 6 6
6 8 6 7 6 6

A#9b5
6 5 6 5 5 6
6 5 0 5 5 4
6 5 6 5 5 4

A#9#5
6 5 6 5 7 6
6 3 4 3 3 4
6 3 4 5 3 4

A#7b13
6 8 6 7 7 6
6 5 4 3 6 4
6 5 4 7 6 4

A#m7#5
6 4 4 6 7 4
6 4 6 6 7 4
6 4 6 6 7 6

A#maj7b5
6 5 7 7 5 5
6 5 7 7 5 6
6 7 7 7 5 5

A#maj7#5
6 5 7 7 7 5
6 5 7 7 7 6
6 0 4 3 3 5

A#mmaj9
6 8 7 6 6 8
6 3 3 6 6 5
6 4 3 5 6 5

A#sus2sus4
6 6 8 8 6 8
6 8 8 8 6 8
6 3 3 3 4 6

A#6sus4
6 8 8 8 8 6
6 6 3 0 4 3
6 6 3 0 4 6

A#m7b9
6 4 6 4 6 4
6 4 6 4 6 6
6 8 6 6 6 7

A#13sus4
6 6 5 0 6 4
6 6 6 0 6 4
6 8 6 8 8 6

A#7b9b5
6 5 0 4 0 4
6 5 0 4 5 4
6 5 6 4 0 0

A#7#9b5
6 5 6 6 5 6
6 4 0 6 5 4
6 5 0 6 5 4

A#7b9#5
6 5 4 4 0 4
6 5 6 7 7 7
6 5 4 3 0 4

A#7#9#5
6 5 6 6 7 6
6 4 4 3 3 4
6 4 4 6 3 4

A#add2
6 8 8 7 6 8
6 3 0 3 6 6
6 3 0 5 6 6

A#madd11
6 6 8 6 6 6
6 4 3 3 4 6
6 4 3 6 4 6

A#maj
6 8 8 7 6 6
6 5 0 3 6 6
6 5 3 3 3 6

A#min
6 8 8 6 6 6
6 4 3 3 6 6
6 4 3 6 6 6

A#M7
6 5 7 7 6 5
6 5 7 7 6 6
6 8 7 7 6 6

A#min7
6 4 6 6 6 4
6 4 6 6 6 6
6 8 6 6 6 6

A#+
6 5 4 3 3 6
6 5 4 7 7 6
6 5 8 7 7 6

A#sus
6 6 8 8 6 6
6 8 8 8 6 6
6 6 3 3 4 6

";

/// Chords with root Bb.
pub const CHORDS_B_FLAT: &'static str = "Bb
6 8 8 7 6 6
6 5 0 3 6 6
6 5 3 3 3 6

Bbm
6 8 8 6 6 6
6 4 3 3 6 6
6 4 3 6 6 6

Bb5
x x 8 10 11 x
6 8 8 x 6 6
6 x 3 3 6 6

Bb6
6 5 5 7 6 6
6 8 8 7 8 6
6 5 0 0 6 3

Bbm6
6 4 5 0 6 6
6 4 5 6 6 6
6 8 8 6 8 6

Bb69
6 5 5 5 6 6
6 8 8 7 8 8
6 3 0 0 6 3

Bbm69
6 4 5 5 6 6
6 8 8 6 8 8
6 3 3 6 6 3

Bb7
6 5 6 7 6 6
6 8 6 7 6 6
6 5 0 3 6 4

Bbm7
6 4 6 6 6 4
6 4 6 6 6 6
6 8 6 6 6 6

Bbmaj7
6 5 7 7 6 5
6 5 7 7 6 6
6 8 7 7 6 6

Bbmmaj7
6 8 7 6 6 6
6 0 3 6 6 5
6 0 3 6 6 6

Bbdim
6 7 8 6 5 6
x 1 2 3 2 0
x x 8 6 5 6

Bbdim7
6 4 5 0 5 0
6 4 5 0 5 6
6 4 5 6 5 0

Bbaug
6 5 4 3 3 6
6 5 4 7 7 6
6 5 8 7 7 6

Bbm7b5
6 4 6 6 5 0
6 4 6 6 5 4
6 4 6 6 5 6

Bbsus2
6 3 3 3 6 6
6 3 3 5 6 6
6 8 8 5 6 6

Bbsus4
6 6 8 8 6 6
6 8 8 8 6 6
6 6 3 3 4 6

Bb7sus4
6 6 6 8 6 6
6 8 6 8 6 6
6 6 3 3 4 4

Bb7sus2
6 3 3 3 6 4
6 3 3 5 6 4
6 3 6 3 6 4

Bbadd9
6 8 8 7 6 8
6 3 0 3 6 6
6 3 0 5 6 6

Bbmadd9
6 8 8 6 6 8
6 3 3 6 6 6
6 4 3 5 6 6

Bb9
6 5 6 5 6 6
6 5 0 5 6 4
6 5 6 5 6 4

Bbm9
6 4 6 5 6 4
6 4 6 5 6 6
6 8 6 6 6 8

Bbmaj9
6 5 7 5 6 5
6 5 7 5 6 6
6 8 7 7 6 8

Bb11
6 6 6 5 6 6
6 6 6 5 6 4
6 6 6 8 6 8

Bbm11
6 6 6 6 6 6
6 6 6 6 6 4
6 4 3 3 4 4

Bb13
6 5 0 0 6 4
6 5 5 0 6 4
6 5 6 0 6 4

Bbm13
6 4 5 0 6 4
6 4 5 6 6 4
6 4 6 0 6 4

Bbmaj13
6 5 5 7 6 5
6 8 7 7 8 6
6 0 0 0 6 3

Bb7b9
6 5 0 4 6 4
6 5 6 4 6 4
6 5 6 4 6 6

Bb7#9
6 5 6 6 6 6
6 4 0 6 6 4
6 5 0 6 6 4

Bb7b5
6 5 6 7 5 6
6 7 6 7 5 6
6 5 0 3 5 4

Bb7#5
6 5 6 7 7 6
6 5 4 3 3 4
6 5 0 7 7 4

Bb9sus4
6 6 6 5 6 6
6 6 6 5 6 4
6 6 6 8 6 8

Bbadd11
6 6 8 7 6 6
6 5 3 3 4 6
6 6 0 3 6 6

Bbmaj7#11
6 7 7 7 6 6
6 5 7 7 6 5
6 5 7 7 6 6

Bb7#11
6 7 6 7 6 6
6 5 6 7 6 6
6 8 6 7 6 6

Bb9b5
6 5 6 5 5 6
6 5 0 5 5 4
6 5 6 5 5 4

Bb9#5
6 5 6 5 7 6
6 3 4 3 3 4
6 3 4 5 3 4

Bb7b13
6 8 6 7 7 6
6 5 4 3 6 4
6 5 4 7 6 4

Bbm7#5
6 4 4 6 7 4
6 4 6 6 7 4
6 4 6 6 7 6

Bbmaj7b5
6 5 7 7 5 5
6 5 7 7 5 6
6 7 7 7 5 5

Bbmaj7#5
6 5 7 7 7 5
6 5 7 7 7 6
6 0 4 3 3 5

Bbmmaj9
6 8 7 6 6 8
6 3 3 6 6 5
6 4 3 5 6 5

Bbsus2sus4
6 6 8 8 6 8
6 8 8 8 6 8
6 3 3 3 4 6

Bb6sus4
6 8 8 8 8 6
6 6 3 0 4 3
6 6 3 0 4 6

Bbm7b9
6 4 6 4 6 4
6 4 6 4 6 6
6 8 6 6 6 7

Bb13sus4
6 6 5 0 6 4
6 6 6 0 6 4
6 8 6 8 8 6

Bb7b9b5
6 5 0 4 0 4
6 5 0 4 5 4
6 5 6 4 0 0

Bb7#9b5
6 5 6 6 5 6
6 4 0 6 5 4
6 5 0 6 5 4

Bb7b9#5
6 5 4 4 0 4
6 5 6 7 7 7
6 5 4 3 0 4

Bb7#9#5
6 5 6 6 7 6
6 4 4 3 3 4
6 4 4 6 3 4

Bbadd2
6 8 8 7 6 8
6 3 0 3 6 6
6 3 0 5 6 6

Bbmadd11
6 6 8 6 6 6
6 4 3 3 4 6
6 4 3 6 4 6

Bbmaj
6 8 8 7 6 6
6 5 0 3 6 6
6 5 3 3 3 6

Bbmin
6 8 8 6 6 6
6 4 3 3 6 6
6 4 3 6 6 6

BbM7
6 5 7 7 6 5
6 5 7 7 6 6
6 8 7 7 6 6

Bbmin7
6 4 6 6 6 4
6 4 6 6 6 6
6 8 6 6 6 6

Bb+
6 5 4 3 3 6
6 5 4 7 7 6
6 5 8 7 7 6

Bbsus
6 6 8 8 6 6
6 8 8 8 6 6
6 6 3 3 4 6

";

/// Chords with root B.
pub const CHORDS_B: &'static str = "B
7 9 9 8 7 7
7 6 4 4 0 7
7 6 4 4 4 7

Bm
x 2 4 4 3 2
7 9 9 7 7 7
7 5 0 4 7 7
7 5 4 4 0 7

B5
x 2 4 4 0 2
x 2 4 4 0 x
x x 9 11 12 x

B6
7 6 6 8 7 7
7 9 9 8 9 7
7 6 4 4 0 4

Bm6
7 5 6 7 7 7
7 9 9 7 9 7
7 5 0 4 7 4

B69
7 6 6 6 7 7
7 9 9 8 9 9
7 4 4 4 4 4

Bm69
7 5 6 6 7 7
7 9 9 7 9 9
7 4 0 4 7 4

B7
x 2 1 2 0 2
7 6 7 8 7 7
7 9 7 8 7 7
7 0 4 4 4 5

Bm7
7 5 7 7 7 5
7 5 7 7 7 7
7 9 7 7 7 7

Bmaj7
7 6 8 8 7 6
7 6 8 8 7 7
7 9 8 8 7 7

Bmmaj7
7 9 8 7 7 7
7 5 0 4 7 6
7 5 4 4 0 6

Bdim
7 5 0 4 6 7
7 8 9 7 6 7
x 2 0 4 0 1

Bdim7
7 5 6 7 6 7
7 8 6 7 6 7
7 8 9 7 9 7

Baug
7 6 5 0 4 7
7 6 5 4 0 7
7 6 5 4 4 7

Bm7b5
7 5 7 7 6 5
7 5 7 7 6 7
7 8 7 7 6 7

Bsus2
7 4 4 4 0 7
7 4 4 4 7 7
7 4 4 6 0 7

Bsus4
7 7 9 9 7 7
7 9 9 9 7 7
7 7 4 4 0 0

B7sus4
7 7 7 9 7 7
7 9 7 9 7 7
7 0 4 4 0 0

B7sus2
7 0 4 6 0 5
7 0 4 6 0 7
7 0 4 6 7 5

Badd9
7 9 9 8 7 9
7 4 4 4 4 7
7 4 4 6 4 7

Bmadd9
7 9 9 7 7 9
7 4 0 4 7 7
7 4 0 6 7 7

B9
7 6 7 6 7 7
7 6 7 6 7 5
7 9 7 8 7 9

Bm9
7 5 7 6 7 5
7 5 7 6 7 7
7 9 7 7 7 9

Bmaj9
7 6 8 6 7 6
7 6 8 6 7 7
7 9 8 8 7 9

B11
7 7 7 6 7 7
7 7 7 6 7 5
7 7 7 9 7 9

Bm11
7 7 7 7 7 7
7 5 7 7 7 5
7 5 7 7 7 7

B13
7 9 7 8 9 7
7 0 4 4 4 4
7 6 6 4 7 5

Bm13
7 5 6 7 7 5
7 9 7 7 9 7
7 0 0 4 7 4

Bmaj13
7 6 6 8 7 6
7 9 8 8 9 7
7 6 6 4 7 6

B7b9
7 6 7 5 7 5
7 6 7 5 7 7
7 6 7 8 7 8

B7#9
7 6 7 7 7 7
7 6 7 7 7 5
7 0 4 7 4 5

B7b5
7 6 7 8 6 7
7 8 7 8 6 7
7 6 7 4 6 5

B7#5
7 6 7 8 8 7
7 0 5 0 4 5
7 0 5 0 4 7

B9sus4
7 7 7 6 7 7
7 7 7 6 7 5
7 7 7 9 7 9

Badd11
7 7 9 8 7 7
7 6 4 4 0 0
7 6 4 4 4 0

Bmaj7#11
7 8 8 8 7 7
7 8 8 8 7 6
7 6 4 4 6 6

B7#11
7 8 7 8 7 7
7 6 4 4 6 5
7 8 7 8 7 5

B9b5
7 6 7 6 6 7
7 6 7 6 6 5
7 6 7 6 6 9

B9#5
7 6 7 6 8 7
7 0 5 6 4 5
7 0 5 6 4 7

B7b13
7 9 7 8 8 7
7 0 4 0 4 5
7 0 4 0 4 7

Bm7#5
7 5 5 4 0 5
7 5 5 7 8 5
7 5 7 7 8 5

Bmaj7b5
7 6 8 8 6 6
7 6 8 8 6 7
7 8 8 8 6 6

Bmaj7#5
7 6 8 8 8 6
7 6 8 8 8 7
7 6 5 0 4 6

Bmmaj9
7 9 8 7 7 9
7 4 0 4 7 6
7 4 0 6 7 6

Bsus2sus4
7 7 9 9 7 9
7 9 9 9 7 9
7 4 4 4 0 0

B6sus4
7 9 9 9 9 7
7 7 4 4 0 4
7 7 4 4 5 4

Bm7b9
7 5 7 5 7 5
7 5 7 5 7 7
7 9 7 7 7 8

B13sus4
7 9 7 9 9 7
7 0 4 4 0 4
7 0 4 4 5 4

B7b9b5
7 6 7 5 6 5
7 6 7 5 6 7
7 6 7 8 6 8

B7#9b5
7 6 7 7 6 7
7 6 7 7 6 5
7 6 0 4 6 5

B7b9#5
7 6 7 8 8 8
7 0 5 5 4 5
7 0 5 5 4 7

B7#9#5
7 6 7 7 8 7
7 0 0 0 4 5
7 0 0 0 4 7

Badd2
7 9 9 8 7 9
7 4 4 4 4 7
7 4 4 6 4 7

Bmadd11
7 7 9 7 7 7
7 5 0 4 7 0
7 5 4 4 0 0

Bmaj
7 9 9 8 7 7
7 6 4 4 0 7
7 6 4 4 4 7

Bmin
7 9 9 7 7 7
7 5 0 4 7 7
7 5 4 4 0 7

BM7
7 6 8 8 7 6
7 6 8 8 7 7
7 9 8 8 7 7

Bmin7
7 5 7 7 7 5
7 5 7 7 7 7
7 9 7 7 7 7

B+
7 6 5 0 4 7
7 6 5 4 0 7
7 6 5 4 4 7

Bsus
7 7 9 9 7 7
7 9 9 9 7 7
7 7 4 4 0 0

";

/// Chords with root C.
pub const CHORDS_C: &'static str = "C
x 3 2 0 1 0
8 10 10 9 8 8
8 7 5 5 5 8
8 7 5 5 8 8

Cm
8 10 10 8 8 8
8 6 5 5 8 8
8 6 5 8 8 8

C5
8 10 10 0 8 8
x x 10 0 8 8
x x 10 12 13 x

C6
8 7 7 9 8 8
8 10 10 9 10 8
8 7 5 5 5 5

Cm6
8 6 7 8 8 8
8 10 10 8 10 8
8 6 5 5 8 5

C69
8 7 7 7 8 8
8 10 10 9 10 10
8 5 5 5 5 5

Cm69
8 6 7 7 8 8
8 10 10 8 10 10
8 5 5 8 8 5

C7
x 3 2 3 1 0
8 7 8 9 8 8
8 10 8 9 8 8
8 7 5 5 5 6

Cm7
8 6 8 8 8 6
8 6 8 8 8 8
8 10 8 8 8 8

Cmaj7
x 3 2 0 0 0
8 7 9 9 8 7
8 7 9 9 8 8
8 10 9 9 8 8

Cmmaj7
8 10 9 8 8 8
8 6 5 5 8 7
8 6 5 8 8 7

Cdim
8 9 10 8 7 8
x 3 4 5 4 2
x x 10 8 7 8

Cdim7
8 6 7 8 7 8
8 9 7 8 7 8
8 9 10 8 10 8

Caug
8 7 6 5 5 8
8 7 6 9 9 8
8 7 10 9 9 8

Cm7b5
8 6 8 8 7 6
8 6 8 8 7 8
8 9 8 8 7 8

Csus2
8 5 5 5 8 8
8 5 5 7 8 8
8 10 10 7 8 8

Csus4
8 8 10 10 8 8
8 10 10 10 8 8
8 8 5 5 6 8

C7sus4
8 8 8 10 8 8
8 10 8 10 8 8
8 8 5 5 6 6

C7sus2
8 5 5 5 8 6
8 5 5 7 8 6
8 5 8 5 8 6

Cadd9
x 3 2 0 3 0
8 10 10 9 8 10
8 5 5 5 5 8
8 5 5 7 5 8

Cmadd9
8 10 10 8 8 10
8 5 5 8 8 8
8 6 5 7 8 8

C9
8 7 8 7 8 8
8 7 8 7 8 6
8 10 8 9 8 10

Cm9
8 6 8 7 8 6
8 6 8 7 8 8
8 10 8 8 8 10

Cmaj9
8 7 9 7 8 7
8 7 9 7 8 8
8 10 9 9 8 10

C11
8 8 8 7 8 8
8 8 8 7 8 6
8 8 8 10 8 10

Cm11
8 8 8 8 8 8
8 8 8 8 8 6
8 6 5 5 6 6

C13
8 10 8 9 10 8
8 7 7 5 8 6
8 7 8 5 8 5

Cm13
8 6 7 8 8 6
8 10 8 8 10 8
8 6 7 5 8 6

Cmaj13
8 7 7 9 8 7
8 10 9 9 10 8
8 7 7 5 8 7

C7b9
8 7 8 6 8 6
8 7 8 6 8 8
8 7 8 9 8 9

C7#9
8 7 8 8 8 8
8 6 8 8 8 6
8 6 8 8 8 8

C7b5
8 7 8 9 7 8
8 9 8 9 7 8
8 7 8 5 7 6

C7#5
8 7 8 9 9 8
8 7 6 5 5 6
8 7 6 9 9 6

C9sus4
8 8 8 7 8 8
8 8 8 7 8 6
8 8 8 10 8 10

Cadd11
8 8 10 9 8 8
8 7 5 5 6 8
8 8 5 5 5 8

Cmaj7#11
8 9 9 9 8 8
8 9 9 9 8 7
8 7 5 5 7 7

C7#11
8 9 8 9 8 8
8 7 5 5 7 6
8 9 8 9 8 6

C9b5
8 7 8 7 7 8
8 7 8 7 7 6
8 9 8 7 7 8

C9#5
8 7 8 7 9 8
8 5 6 5 5 6
8 5 6 7 5 6

C7b13
8 10 8 9 9 8
8 7 6 5 8 6
8 7 6 9 8 6

Cm7#5
8 6 6 8 9 6
8 6 8 8 9 6
8 6 8 8 9 8

Cmaj7b5
8 7 9 9 7 7
8 7 9 9 7 8
8 9 9 9 7 7

Cmaj7#5
8 7 9 9 9 7
8 7 9 9 9 8
8 7 6 5 5 7

Cmmaj9
8 10 9 8 8 10
8 5 5 8 8 7
8 6 5 7 8 7

Csus2sus4
8 8 10 10 8 10
8 10 10 10 8 10
8 5 5 5 6 8

C6sus4
8 10 10 10 10 8
8 8 5 5 6 5
8 8 5 5 8 5

Cm7b9
8 6 8 6 8 6
8 6 8 6 8 8
8 10 8 8 8 9

C13sus4
8 10 8 10 10 8
8 8 7 5 8 6
8 8 8 5 8 5

C7b9b5
8 7 8 6 7 6
8 7 8 6 7 8
8 7 8 9 7 9

C7#9b5
8 7 8 8 7 8
8 6 8 8 7 6
8 6 8 8 7 8

C7b9#5
8 7 8 9 9 9
8 7 6 6 5 6
8 7 6 6 9 6

C7#9#5
8 7 8 8 9 8
8 6 6 5 5 6
8 6 6 8 5 6

Cadd2
8 10 10 9 8 10
8 5 5 5 5 8
8 5 5 7 5 8

Cmadd11
8 8 10 8 8 8
8 6 5 5 6 8
8 6 5 8 6 8

Cmaj
8 10 10 9 8 8
8 7 5 5 5 8
8 7 5 5 8 8

Cmin
8 10 10 8 8 8
8 6 5 5 8 8
8 6 5 8 8 8

CM7
8 7 9 9 8 7
8 7 9 9 8 8
8 10 9 9 8 8

Cmin7
8 6 8 8 8 6
8 6 8 8 8 8
8 10 8 8 8 8

C+
8 7 6 5 5 8
8 7 6 9 9 8
8 7 10 9 9 8

Csus
8 8 10 10 8 8
8 10 10 10 8 8
8 8 5 5 6 8

";

/// Chords with root C#.
pub const CHORDS_C_SHARP: &'static str = "C#
9 11 11 10 9 9
9 8 6 6 6 9
9 8 6 6 9 9

C#m
9 11 11 9 9 9
9 7 6 6 9 9
9 7 6 9 9 9

C#5
x x 11 13 14 x
9 11 11 x 9 9
9 x 6 6 9 9

C#6
9 8 8 10 9 9
9 11 11 10 11 9
9 8 6 6 6 6

C#m6
9 7 8 9 9 9
9 11 11 9 11 9
9 7 6 6 9 6

C#69
9 8 8 8 9 9
9 11 11 10 11 11
9 6 6 6 6 6

C#m69
9 7 8 8 9 9
9 11 11 9 11 11
9 6 6 6 9 6

C#7
9 8 9 10 9 9
9 11 9 10 9 9
9 8 6 6 6 7

C#m7
9 7 9 9 9 7
9 7 9 9 9 9
9 11 9 9 9 9

C#maj7
9 8 10 10 9 8
9 8 10 10 9 9
9 11 10 10 9 9

C#mmaj7
9 11 10 9 9 9
9 7 6 6 9 8
9 7 6 9 9 8

C#dim
9 10 11 9 8 9
x 4 5 0 5 0
x 4 2 0 2 0

C#dim7
9 7 8 9 8 9
9 10 8 9 8 9
9 10 11 9 11 9

C#aug
9 8 7 6 6 9
9 8 7 10 10 9
9 8 11 10 10 9

C#m7b5
9 7 9 9 8 7
9 7 9 9 8 9
9 10 9 9 8 9

C#sus2
9 6 6 6 9 9
9 6 6 8 9 9
9 11 11 8 9 9

C#sus4
9 9 11 11 9 9
9 11 11 11 9 9
9 9 6 6 7 9

C#7sus4
9 9 9 11 9 9
9 11 9 11 9 9
9 9 6 6 7 7

C#7sus2
9 6 6 6 9 7
9 6 6 8 9 7
9 6 9 6 9 7

C#add9
9 11 11 10 9 11
9 6 6 6 6 9
9 6 6 8 6 9

C#madd9
9 11 11 9 9 11
9 6 6 9 9 9
9 7 6 8 9 9

C#9
9 8 9 8 9 9
9 8 9 8 9 7
9 11 9 10 9 11

C#m9
9 7 9 8 9 7
9 7 9 8 9 9
9 11 9 9 9 11

C#maj9
9 8 10 8 9 8
9 8 10 8 9 9
9 11 10 10 9 11

C#11
9 9 9 8 9 9
9 9 9 8 9 7
9 9 9 11 9 11

C#m11
9 9 9 9 9 9
9 9 9 9 9 7
9 9 9 11 9 9

C#13
9 11 9 10 11 9
9 8 8 6 9 7
9 8 9 6 9 6

C#m13
9 7 8 9 9 7
9 11 9 9 11 9
9 7 8 6 9 7

C#maj13
9 8 8 10 9 8
9 11 10 10 11 9
9 8 8 6 9 8

C#7b9
9 8 9 7 9 7
9 8 9 7 9 9
9 8 9 10 9 10

C#7#9
9 8 9 9 9 9
9 8 9 9 9 7
9 8 9 10 9 9

C#7b5
9 8 9 10 8 9
9 10 9 10 8 9
9 8 9 6 8 7

C#7#5
9 8 9 10 10 9
9 8 7 6 6 7
9 8 7 10 10 7

C#9sus4
9 9 9 8 9 9
9 9 9 8 9 7
9 9 9 11 9 11

C#add11
9 9 11 10 9 9
9 8 6 6 7 9
9 9 6 6 6 9

C#maj7#11
9 10 10 10 9 9
9 10 10 10 9 8
9 8 6 6 8 8

C#7#11
9 10 9 10 9 9
9 8 6 6 8 7
9 10 9 10 9 7

C#9b5
9 8 9 8 8 9
9 8 9 8 8 7
9 8 9 8 8 11

C#9#5
9 8 9 8 10 9
9 6 7 6 6 7
9 6 7 8 6 7

C#7b13
9 11 9 10 10 9
9 8 7 6 9 7
9 8 7 10 9 7

C#m7#5
9 7 7 9 10 7
9 7 9 9 10 7
9 7 9 9 10 9

C#maj7b5
9 8 10 10 8 8
9 8 10 10 8 9
9 10 10 10 8 8

C#maj7#5
9 8 10 10 10 8
9 8 10 10 10 9
9 8 7 6 6 8

C#mmaj9
9 11 10 9 9 11
9 6 6 6 9 8
9 6 6 8 9 8

C#sus2sus4
9 9 11 11 9 11
9 11 11 11 9 11
9 6 6 6 7 9

C#6sus4
9 11 11 11 11 9
9 9 6 6 7 6
9 9 6 6 9 6

C#m7b9
9 7 9 7 9 7
9 7 9 7 9 9
9 11 9 9 9 10

C#13sus4
9 11 9 11 11 9
9 9 8 6 9 7
9 9 9 6 9 6

C#7b9b5
9 8 9 7 8 7
9 8 9 7 8 9
9 8 9 10 8 10

C#7#9b5
9 8 9 9 8 9
9 8 9 9 8 7
9 8 9 10 8 9

C#7b9#5
9 8 9 10 10 10
9 8 7 7 6 7
9 8 7 7 10 7

C#7#9#5
9 8 9 9 10 9
9 8 9 10 10 9
9 7 7 6 6 7

C#add2
9 11 11 10 9 11
9 6 6 6 6 9
9 6 6 8 6 9

C#madd11
9 9 11 9 9 9
9 7 6 6 7 9
9 7 6 9 7 9

C#maj
9 11 11 10 9 9
9 8 6 6 6 9
9 8 6 6 9 9

C#min
9 11 11 9 9 9
9 7 6 6 9 9
9 7 6 9 9 9

C#M7
9 8 10 10 9 8
9 8 10 10 9 9
9 11 10 10 9 9

C#min7
9 7 9 9 9 7
9 7 9 9 9 9
9 11 9 9 9 9

C#+
9 8 7 6 6 9
9 8 7 10 10 9
9 8 11 10 10 9

C#sus
9 9 11 11 9 9
9 11 11 11 9 9
9 9 6 6 7 9

";

/// Chords with root Db.
pub const CHORDS_D_FLAT: &'static str = "Db
9 11 11 10 9 9
9 8 6 6 6 9
9 8 6 6 9 9

Dbm
9 11 11 9 9 9
9 7 6 6 9 9
9 7 6 9 9 9

Db5
x x 11 13 14 x
9 11 11 x 9 9
9 x 6 6 9 9

Db6
9 8 8 10 9 9
9 11 11 10 11 9
9 8 6 6 6 6

Dbm6
9 7 8 9 9 9
9 11 11 9 11 9
9 7 6 6 9 6

Db69
9 8 8 8 9 9
9 11 11 10 11 11
9 6 6 6 6 6

Dbm69
9 7 8 8 9 9
9 11 11 9 11 11
9 6 6 6 9 6

Db7
9 8 9 10 9 9
9 11 9 10 9 9
9 8 6 6 6 7

Dbm7
9 7 9 9 9 7
9 7 9 9 9 9
9 11 9 9 9 9

Dbmaj7
9 8 10 10 9 8
9 8 10 10 9 9
9 11 10 10 9 9

Dbmmaj7
9 11 10 9 9 9
9 7 6 6 9 8
9 7 6 9 9 8

Dbdim
9 10 11 9 8 9
x 4 5 0 5 0
x 4 2 0 2 0

Dbdim7
9 7 8 9 8 9
9 10 8 9 8 9
9 10 11 9 11 9

Dbaug
9 8 7 6 6 9
9 8 7 10 10 9
9 8 11 10 10 9

Dbm7b5
9 7 9 9 8 7
9 7 9 9 8 9
9 10 9 9 8 9

Dbsus2
9 6 6 6 9 9
9 6 6 8 9 9
9 11 11 8 9 9

Dbsus4
9 9 11 11 9 9
9 11 11 11 9 9
9 9 6 6 7 9

Db7sus4
9 9 9 11 9 9
9 11 9 11 9 9
9 9 6 6 7 7

Db7sus2
9 6 6 6 9 7
9 6 6 8 9 7
9 6 9 6 9 7

Dbadd9
9 11 11 10 9 11
9 6 6 6 6 9
9 6 6 8 6 9

Dbmadd9
9 11 11 9 9 11
9 6 6 9 9 9
9 7 6 8 9 9

Db9
9 8 9 8 9 9
9 8 9 8 9 7
9 11 9 10 9 11

Dbm9
9 7 9 8 9 7
9 7 9 8 9 9
9 11 9 9 9 11

Dbmaj9
9 8 10 8 9 8
9 8 10 8 9 9
9 11 10 10 9 11

Db11
9 9 9 8 9 9
9 9 9 8 9 7
9 9 9 11 9 11

Dbm11
9 9 9 9 9 9
9 9 9 9 9 7
9 9 9 11 9 9

Db13
9 11 9 10 11 9
9 8 8 6 9 7
9 8 9 6 9 6

Dbm13
9 7 8 9 9 7
9 11 9 9 11 9
9 7 8 6 9 7

Dbmaj13
9 8 8 10 9 8
9 11 10 10 11 9
9 8 8 6 9 8

Db7b9
9 8 9 7 9 7
9 8 9 7 9 9
9 8 9 10 9 10

Db7#9
9 8 9 9 9 9
9 8 9 9 9 7
9 8 9 10 9 9

Db7b5
9 8 9 10 8 9
9 10 9 10 8 9
9 8 9 6 8 7

Db7#5
9 8 9 10 10 9
9 8 7 6 6 7
9 8 7 10 10 7

Db9sus4
9 9 9 8 9 9
9 9 9 8 9 7
9 9 9 11 9 11

Dbadd11
9 9 11 10 9 9
9 8 6 6 7 9
9 9 6 6 6 9

Dbmaj7#11
9 10 10 10 9 9
9 10 10 10 9 8
9 8 6 6 8 8

Db7#11
9 10 9 10 9 9
9 8 6 6 8 7
9 10 9 10 9 7

Db9b5
9 8 9 8 8 9
9 8 9 8 8 7
9 8 9 8 8 11

Db9#5
9 8 9 8 10 9
9 6 7 6 6 7
9 6 7 8 6 7

Db7b13
9 11 9 10 10 9
9 8 7 6 9 7
9 8 7 10 9 7

Dbm7#5
9 7 7 9 10 7
9 7 9 9 10 7
9 7 9 9 10 9

Dbmaj7b5
9 8 10 10 8 8
9 8 10 10 8 9
9 10 10 10 8 8

Dbmaj7#5
9 8 10 10 10 8
9 8 10 10 10 9
9 8 7 6 6 8

Dbmmaj9
9 11 10 9 9 11
9 6 6 6 9 8
9 6 6 8 9 8

Dbsus2sus4
9 9 11 11 9 11
9 11 11 11 9 11
9 6 6 6 7 9

Db6sus4
9 11 11 11 11 9
9 9 6 6 7 6
9 9 6 6 9 6

Dbm7b9
9 7 9 7 9 7
9 7 9 7 9 9
9 11 9 9 9 10

Db13sus4
9 11 9 11 11 9
9 9 8 6 9 7
9 9 9 6 9 6

Db7b9b5
9 8 9 7 8 7
9 8 9 7 8 9
9 8 9 10 8 10

Db7#9b5
9 8 9 9 8 9
9 8 9 9 8 7
9 8 9 10 8 9

Db7b9#5
9 8 9 10 10 10
9 8 7 7 6 7
9 8 7 7 10 7

Db7#9#5
9 8 9 9 10 9
9 8 9 10 10 9
9 7 7 6 6 7

Dbadd2
9 11 11 10 9 11
9 6 6 6 6 9
9 6 6 8 6 9

Dbmadd11
9 9 11 9 9 9
9 7 6 6 7 9
9 7 6 9 7 9

Dbmaj
9 11 11 10 9 9
9 8 6 6 6 9
9 8 6 6 9 9

Dbmin
9 11 11 9 9 9
9 7 6 6 9 9
9 7 6 9 9 9

DbM7
9 8 10 10 9 8
9 8 10 10 9 9
9 11 10 10 9 9

Dbmin7
9 7 9 9 9 7
9 7 9 9 9 9
9 11 9 9 9 9

Db+
9 8 7 6 6 9
9 8 7 10 10 9
9 8 11 10 10 9

Dbsus
9 9 11 11 9 9
9 11 11 11 9 9
9 9 6 6 7 9

";

/// Chords with root D.
pub const CHORDS_D: &'static str = "D
x x 0 2 3 2
10 12 12 11 10 10
10 9 7 7 7 10
10 9 7 7 10 10

Dm
x x 0 2 3 1
10 12 12 10 10 10
10 8 7 7 10 10
10 8 7 10 10 10

D5
x 5 0 2 3 5
10 0 0 7 10 10
10 0 7 7 10 10

D6
10 9 9 11 10 10
10 12 12 11 12 10
10 9 7 7 7 7

Dm6
10 8 9 10 10 10
10 12 12 10 12 10
10 8 7 7 10 7

D69
10 9 9 9 10 10
10 9 9 11 10 10
10 12 12 11 12 10

Dm69
10 8 9 9 10 10
10 8 9 10 10 10
10 12 12 10 12 10

D7
x x 0 2 1 2
10 9 10 11 10 10
10 12 10 11 10 10
10 9 7 7 7 8

Dm7
x x 0 2 1 1
10 8 10 10 10 8
10 8 10 10 10 10
10 12 10 10 10 10

Dmaj7
x x 0 2 2 2
10 9 11 11 10 9
10 9 11 11 10 10
10 12 11 11 10 10

Dmmaj7
10 12 11 10 10 10
10 8 7 7 10 9
10 8 7 10 10 9

Ddim
10 11 12 10 9 10
x 5 0 7 6 4
x 5 6 7 6 4

Ddim7
10 8 9 10 9 10
10 11 9 10 9 10
10 11 12 10 12 10

Daug
10 9 8 7 7 10
10 9 8 11 11 10
10 9 12 11 11 10

Dm7b5
10 8 10 10 9 8
10 8 10 10 9 10
10 11 10 10 9 10

Dsus2
x x 0 2 3 0
10 7 7 7 10 10
10 7 7 9 10 10
10 12 12 9 10 10

Dsus4
x x 0 2 3 3
10 10 12 12 10 10
10 12 12 12 10 10
10 10 7 7 8 10

D7sus4
10 10 10 12 10 10
10 12 10 12 10 10
10 10 7 7 8 8

D7sus2
10 7 7 7 10 8
10 7 7 9 10 8
10 7 10 7 10 8

Dadd9
10 12 12 11 10 12
10 7 7 7 7 10
10 7 7 9 7 10

Dmadd9
10 12 12 10 10 12
10 7 7 10 10 10
10 8 7 9 10 10

D9
10 9 10 9 10 10
10 9 10 9 10 8
10 9 10 11 10 10

Dm9
10 8 10 9 10 8
10 8 10 9 10 10
10 8 10 10 10 8

Dmaj9
10 9 11 9 10 9
10 9 11 9 10 10
10 9 11 11 10 9

D11
10 10 10 9 10 10
10 10 10 9 10 8
10 10 10 12 10 10

Dm11
10 10 10 10 10 10
10 10 10 10 10 8
10 8 7 7 8 8

D13
10 12 10 11 12 10
10 9 9 7 10 8
10 9 10 7 10 7

Dm13
10 8 9 10 10 8
10 12 10 10 12 10
10 8 9 7 10 8

Dmaj13
10 9 9 11 10 9
10 12 11 11 12 10
10 9 9 7 10 9

D7b9
10 9 10 8 10 8
10 9 10 8 10 10
10 9 10 11 10 11

D7#9
10 9 10 10 10 10
10 9 10 10 10 8
10 8 7 7 7 8

D7b5
10 9 10 11 9 10
10 11 10 11 9 10
10 9 10 7 9 8

D7#5
10 9 10 11 11 10
10 9 8 7 7 8
10 9 8 11 11 8

D9sus4
10 10 10 9 10 10
10 10 10 9 10 8
10 10 10 12 10 10

Dadd11
10 10 12 11 10 10
10 9 7 7 8 10
10 10 7 7 7 10

Dmaj7#11
10 11 11 11 10 10
10 11 11 11 10 9
10 9 7 7 9 9

D7#11
10 11 10 11 10 10
10 9 7 7 9 8
10 11 10 11 10 8

D9b5
10 9 10 9 9 10
10 9 10 9 9 8
10 9 10 11 9 10

D9#5
10 9 10 9 11 10
10 9 10 11 11 10
10 7 8 7 7 8

D7b13
10 12 10 11 11 10
10 9 8 7 10 8
10 9 8 11 10 8

Dm7#5
10 8 8 10 11 8
10 8 10 10 11 8
10 8 10 10 11 10

Dmaj7b5
10 9 11 11 9 9
10 9 11 11 9 10
10 11 11 11 9 9

Dmaj7#5
10 9 11 11 11 9
10 9 11 11 11 10
10 9 8 7 7 9

Dmmaj9
10 12 11 10 10 10
10 12 11 10 10 12
10 7 7 10 10 9

Dsus2sus4
10 10 12 12 10 12
10 12 12 12 10 12
10 7 7 7 8 10

D6sus4
10 12 12 12 12 10
10 10 7 7 8 7
10 10 7 7 10 7

Dm7b9
10 8 10 8 10 8
10 8 10 8 10 10
10 12 10 10 10 11

D13sus4
10 12 10 12 12 10
10 10 9 7 10 8
10 10 10 7 10 7

D7b9b5
10 9 10 8 9 8
10 9 10 8 9 10
10 9 10 11 9 11

D7#9b5
10 9 10 10 9 10
10 9 10 10 9 8
10 8 10 11 9 8

D7b9#5
10 9 10 11 11 11
10 9 8 8 7 8
10 9 8 8 11 8

D7#9#5
10 9 10 10 11 10
10 8 8 7 7 8
10 8 8 10 7 8

Dadd2
10 12 12 11 10 12
10 7 7 7 7 10
10 7 7 9 7 10

Dmadd11
10 10 12 10 10 10
10 8 7 7 8 10
10 8 7 10 8 10

Dmaj
10 12 12 11 10 10
10 9 7 7 7 10
10 9 7 7 10 10

Dmin
10 12 12 10 10 10
10 8 7 7 10 10
10 8 7 10 10 10

DM7
10 9 11 11 10 9
10 9 11 11 10 10
10 12 11 11 10 10

Dmin7
10 8 10 10 10 8
10 8 10 10 10 10
10 12 10 10 10 10

D+
10 9 8 7 7 10
10 9 8 11 11 10
10 9 12 11 11 10

Dsus
10 10 12 12 10 10
10 12 12 12 10 10
10 10 7 7 8 10

";

/// Chords with root D#.
pub const CHORDS_D_SHARP: &'static str = "D#
11 13 13 12 11 11
11 10 8 8 8 11
11 10 8 8 11 11

D#m
11 13 13 11 11 11
11 9 8 8 11 11
11 9 8 11 11 11

D#5
x x 1 3 4 x
11 13 13 x 11 11
11 x 8 8 11 11

D#6
11 10 10 12 11 11
11 13 13 12 13 11
11 10 8 8 8 8

D#m6
11 9 10 11 11 11
11 13 13 11 13 11
11 9 8 8 11 8

D#69
11 10 10 10 11 11
11 13 13 12 13 13
11 8 8 8 8 8

D#m69
11 9 10 10 11 11
11 13 13 11 13 13
11 8 8 11 11 8

D#7
11 10 11 12 11 11
11 13 11 12 11 11
11 10 8 8 8 9

D#m7
11 9 11 11 11 9
11 9 11 11 11 11
11 13 11 11 11 11

D#maj7
11 10 12 12 11 10
11 10 12 12 11 11
11 13 12 12 11 11

D#mmaj7
11 13 12 11 11 11
11 9 8 8 11 10
11 9 8 11 11 10

D#dim
11 12 13 11 10 11
x 6 7 8 7 5
x x 1 2 4 2

D#dim7
11 9 10 11 10 11
11 12 10 11 10 11
11 12 13 11 13 11

D#aug
11 10 9 8 8 11
11 10 9 12 12 11
11 10 13 12 12 11

D#m7b5
11 9 11 11 10 9
11 9 11 11 10 11
11 12 11 11 10 11

D#sus2
11 8 8 8 11 11
11 8 8 10 11 11
11 13 13 10 11 11

D#sus4
11 11 13 13 11 11
11 13 13 13 11 11
11 11 8 8 9 11

D#7sus4
11 11 11 13 11 11
11 13 11 13 11 11
11 11 8 8 9 9

D#7sus2
11 8 8 8 11 9
11 8 8 10 11 9
11 8 11 8 11 9

D#add9
11 13 13 12 11 13
11 8 8 8 8 11
11 8 8 10 8 11

D#madd9
11 13 13 11 11 13
11 8 8 11 11 11
11 9 8 10 11 11

D#9
11 10 11 10 11 11
11 10 11 10 11 9
11 13 11 12 11 13

D#m9
11 9 11 10 11 9
11 9 11 10 11 11
11 13 11 11 11 13

D#maj9
11 10 12 10 11 10
11 10 12 10 11 11
11 13 12 12 11 13

D#11
11 11 11 10 11 11
11 11 11 10 11 9
11 11 11 13 11 13

D#m11
11 11 11 11 11 11
11 11 11 11 11 9
11 9 8 8 9 9

D#13
11 13 11 12 13 11
11 10 10 8 11 9
11 10 11 8 11 8

D#m13
11 9 10 11 11 9
11 13 11 11 13 11
11 9 10 8 11 9

D#maj13
11 10 10 12 11 10
11 13 12 12 13 11
11 10 10 8 11 10

D#7b9
11 10 11 9 11 9
11 10 11 9 11 11
11 10 11 12 11 11

D#7#9
11 10 11 11 11 11
11 10 11 11 11 9
11 9 8 8 8 9

D#7b5
11 10 11 12 10 11
11 12 11 12 10 11
11 10 11 8 10 9

D#7#5
11 10 11 12 12 11
11 10 9 8 8 9
11 10 9 12 12 9

D#9sus4
11 11 11 10 11 11
11 11 11 10 11 9
11 11 11 13 11 13

D#add11
11 11 13 12 11 11
11 10 8 8 9 11
11 11 8 8 8 11

D#maj7#11
11 12 12 12 11 11
11 12 12 12 11 10
11 10 8 8 10 10

D#7#11
11 12 11 12 11 11
11 10 8 8 10 9
11 12 11 12 11 9

D#9b5
11 10 11 10 10 11
11 10 11 10 10 9
11 10 11 10 10 13

D#9#5
11 10 11 10 12 11
11 8 9 8 8 9
11 8 9 10 8 9

D#7b13
11 13 11 12 12 11
11 10 9 8 11 9
11 10 9 12 11 9

D#m7#5
11 9 9 11 12 9
11 9 11 11 12 9
11 9 11 11 12 11

D#maj7b5
11 10 12 12 10 10
11 10 12 12 10 11
11 12 12 12 10 10

D#maj7#5
11 10 12 12 12 10
11 10 12 12 12 11
11 10 9 8 8 10

D#mmaj9
11 13 12 11 11 13
11 8 8 11 11 10
11 9 8 10 11 10

D#sus2sus4
11 11 13 13 11 13
11 13 13 13 11 13
11 8 8 8 9 11

D#6sus4
11 13 13 13 13 11
11 11 8 8 9 8
11 11 8 8 11 8

D#m7b9
11 9 11 9 11 9
11 9 11 9 11 11
11 9 11 11 11 9

D#13sus4
11 13 11 13 13 11
11 11 10 8 11 9
11 11 11 8 11 8

D#7b9b5
11 10 11 9 10 9
11 10 11 9 10 11
11 10 11 12 10 11

D#7#9b5
11 10 11 11 10 11
11 10 11 11 10 9
11 9 11 12 10 9

D#7b9#5
11 10 11 12 12 11
11 10 11 12 12 12
11 10 9 8 8 9

D#7#9#5
11 10 11 11 12 11
11 9 9 8 8 9
11 9 9 11 8 9

D#add2
11 13 13 12 11 13
11 8 8 8 8 11
11 8 8 10 8 11

D#madd11
11 11 13 11 11 11
11 9 8 8 9 11
11 9 8 11 9 11

D#maj
11 13 13 12 11 11
11 10 8 8 8 11
11 10 8 8 11 11

D#min
11 13 13 11 11 11
11 9 8 8 11 11
11 9 8 11 11 11

D#M7
11 10 12 12 11 10
11 10 12 12 11 11
11 13 12 12 11 11

D#min7
11 9 11 11 11 9
11 9 11 11 11 11
11 13 11 11 11 11

D#+
11 10 9 8 8 11
11 10 9 12 12 11
11 10 13 12 12 11

D#sus
11 11 13 13 11 11
11 13 13 13 11 11
11 11 8 8 9 11

";

/// Chords with root Eb.
pub const CHORDS_E_FLAT: &'static str = "Eb
11 13 13 12 11 11
11 10 8 8 8 11
11 10 8 8 11 11

Ebm
11 13 13 11 11 11
11 9 8 8 11 11
11 9 8 11 11 11

Eb5
x x 1 3 4 x
11 13 13 x 11 11
11 x 8 8 11 11

Eb6
11 10 10 12 11 11
11 13 13 12 13 11
11 10 8 8 8 8

Ebm6
11 9 10 11 11 11
11 13 13 11 13 11
11 9 8 8 11 8

Eb69
11 10 10 10 11 11
11 13 13 12 13 13
11 8 8 8 8 8

Ebm69
11 9 10 10 11 11
11 13 13 11 13 13
11 8 8 11 11 8

Eb7
11 10 11 12 11 11
11 13 11 12 11 11
11 10 8 8 8 9

Ebm7
11 9 11 11 11 9
11 9 11 11 11 11
11 13 11 11 11 11

Ebmaj7
11 10 12 12 11 10
11 10 12 12 11 11
11 13 12 12 11 11

Ebmmaj7
11 13 12 11 11 11
11 9 8 8 11 10
11 9 8 11 11 10

Ebdim
11 12 13 11 10 11
x 6 7 8 7 5
x x 1 2 4 2

Ebdim7
11 9 10 11 10 11
11 12 10 11 10 11
11 12 13 11 13 11

Ebaug
11 10 9 8 8 11
11 10 9 12 12 11
11 10 13 12 12 11

Ebm7b5
11 9 11 11 10 9
11 9 11 11 10 11
11 12 11 11 10 11

Ebsus2
11 8 8 8 11 11
11 8 8 10 11 11
11 13 13 10 11 11

Ebsus4
11 11 13 13 11 11
11 13 13 13 11 11
11 11 8 8 9 11

Eb7sus4
11 11 11 13 11 11
11 13 11 13 11 11
11 11 8 8 9 9

Eb7sus2
11 8 8 8 11 9
11 8 8 10 11 9
11 8 11 8 11 9

Ebadd9
11 13 13 12 11 13
11 8 8 8 8 11
11 8 8 10 8 11

Ebmadd9
11 13 13 11 11 13
11 8 8 11 11 11
11 9 8 10 11 11

Eb9
11 10 11 10 11 11
11 10 11 10 11 9
11 13 11 12 11 13

Ebm9
11 9 11 10 11 9
11 9 11 10 11 11
11 13 11 11 11 13

Ebmaj9
11 10 12 10 11 10
11 10 12 10 11 11
11 13 12 12 11 13

Eb11
11 11 11 10 11 11
11 11 11 10 11 9
11 11 11 13 11 13

Ebm11
11 11 11 11 11 11
11 11 11 11 11 9
11 9 8 8 9 9

Eb13
11 13 11 12 13 11
11 10 10 8 11 9
11 10 11 8 11 8

Ebm13
11 9 10 11 11 9
11 13 11 11 13 11
11 9 10 8 11 9

Ebmaj13
11 10 10 12 11 10
11 13 12 12 13 11
11 10 10 8 11 10

Eb7b9
11 10 11 9 11 9
11 10 11 9 11 11
11 10 11 12 11 11

Eb7#9
11 10 11 11 11 11
11 10 11 11 11 9
11 9 8 8 8 9

Eb7b5
11 10 11 12 10 11
11 12 11 12 10 11
11 10 11 8 10 9

Eb7#5
11 10 11 12 12 11
11 10 9 8 8 9
11 10 9 12 12 9

Eb9sus4
11 11 11 10 11 11
11 11 11 10 11 9
11 11 11 13 11 13

Ebadd11
11 11 13 12 11 11
11 10 8 8 9 11
11 11 8 8 8 11

Ebmaj7#11
11 12 12 12 11 11
11 12 12 12 11 10
11 10 8 8 10 10

Eb7#11
11 12 11 12 11 11
11 10 8 8 10 9
11 12 11 12 11 9

Eb9b5
11 10 11 10 10 11
11 10 11 10 10 9
11 10 11 10 10 13

Eb9#5
11 10 11 10 12 11
11 8 9 8 8 9
11 8 9 10 8 9

Eb7b13
11 13 11 12 12 11
11 10 9 8 11 9
11 10 9 12 11 9

Ebm7#5
11 9 9 11 12 9
11 9 11 11 12 9
11 9 11 11 12 11

Ebmaj7b5
11 10 12 12 10 10
11 10 12 12 10 11
11 12 12 12 10 10

Ebmaj7#5
11 10 12 12 12 10
11 10 12 12 12 11
11 10 9 8 8 10

Ebmmaj9
11 13 12 11 11 13
11 8 8 11 11 10
11 9 8 10 11 10

Ebsus2sus4
11 11 13 13 11 13
11 13 13 13 11 13
11 8 8 8 9 11

Eb6sus4
11 13 13 13 13 11
11 11 8 8 9 8
11 11 8 8 11 8

Ebm7b9
11 9 11 9 11 9
11 9 11 9 11 11
11 9 11 11 11 9

Eb13sus4
11 13 11 13 13 11
11 11 10 8 11 9
11 11 11 8 11 8

Eb7b9b5
11 10 11 9 10 9
11 10 11 9 10 11
11 10 11 12 10 11

Eb7#9b5
11 10 11 11 10 11
11 10 11 11 10 9
11 9 11 12 10 9

Eb7b9#5
11 10 11 12 12 11
11 10 11 12 12 12
11 10 9 8 8 9

Eb7#9#5
11 10 11 11 12 11
11 9 9 8 8 9
11 9 9 11 8 9

Ebadd2
11 13 13 12 11 13
11 8 8 8 8 11
11 8 8 10 8 11

Ebmadd11
11 11 13 11 11 11
11 9 8 8 9 11
11 9 8 11 9 11

Ebmaj
11 13 13 12 11 11
11 10 8 8 8 11
11 10 8 8 11 11

Ebmin
11 13 13 11 11 11
11 9 8 8 11 11
11 9 8 11 11 11

EbM7
11 10 12 12 11 10
11 10 12 12 11 11
11 13 12 12 11 11

Ebmin7
11 9 11 11 11 9
11 9 11 11 11 11
11 13 11 11 11 11

Eb+
11 10 9 8 8 11
11 10 9 12 12 11
11 10 13 12 12 11

Ebsus
11 11 13 13 11 11
11 13 13 13 11 11
11 11 8 8 9 11

";

/// Chords with root E.
pub const CHORDS_E: &'static str = "E
0 2 2 1 0 0
12 14 14 13 12 12
12 11 9 9 9 12

Em
0 2 2 0 0 0
0 2 2 0 0 3
12 14 14 12 12 12

E5
x x 2 4 0 0
x x 2 4 5 0
x 7 9 9 0 0

E6
0 2 2 1 2 0
12 11 11 13 12 12
12 14 14 13 14 12

Em6
0 2 2 0 2 0
0 2 2 0 2 3
12 10 11 12 12 12

E69
0 2 2 1 2 2
12 11 11 11 12 12
12 14 14 13 14 14

Em69
0 2 2 0 2 2
12 10 11 11 12 12
12 14 14 12 14 14

E7
0 2 0 1 0 0
0 2 0 1 3 0
0 2 2 1 3 0

Em7
0 2 0 0 0 0
0 2 0 0 0 3
0 2 0 0 3 0

Emaj7
0 2 1 1 0 0
12 11 13 13 12 11
12 11 13 13 12 12

Emmaj7
0 2 1 0 0 0
0 2 1 0 0 3
12 14 13 12 12 12

Edim
12 13 14 12 11 12
x 7 8 9 8 6
x x 2 3 5 3

Edim7
0 1 2 0 2 0
0 1 2 0 2 3
0 1 2 3 2 3

Eaug
0 3 2 1 1 0
12 11 10 9 9 12
12 11 10 13 13 12

Em7b5
0 1 0 0 3 0
0 1 0 0 3 3
0 1 0 3 3 3

Esus2
12 9 9 9 12 12
12 9 9 11 12 12
12 14 14 11 12 12

Esus4
0 2 2 2 0 0
0 0 2 2 0 0
12 12 14 14 12 12

E7sus4
0 0 0 2 0 0
0 2 0 2 0 0
0 2 0 2 3 0

E7sus2
12 9 9 9 12 10
12 9 9 11 12 10
12 9 12 9 12 10

Eadd9
0 2 2 1 0 2
12 14 14 13 12 14
12 9 9 9 9 12

Emadd9
0 2 2 0 0 2
12 14 14 12 12 14
12 9 9 12 12 12

E9
0 2 0 1 0 2
12 11 12 11 12 12
0 2 0 1 3 2

Em9
0 2 0 0 0 2
0 2 0 0 3 2
0 2 2 0 3 2

Emaj9
0 2 1 1 0 2
12 11 13 11 12 11
12 11 13 11 12 12

E11
0 0 0 2 0 2
0 2 0 2 0 2
0 2 0 2 3 2

Em11
0 0 0 0 0 0
0 0 0 0 0 3
12 12 12 12 12 12

E13
0 2 0 1 2 0
12 14 12 13 14 12
12 11 11 9 12 10

Em13
0 2 0 0 2 0
0 2 0 0 2 3
12 10 11 12 12 10

Emaj13
0 2 1 1 2 0
12 11 11 13 12 11
12 14 13 13 14 12

E7b9
0 2 0 1 0 1
0 2 0 1 3 1
0 2 2 1 3 1

E7#9
12 11 12 12 12 12
0 2 0 1 0 3
0 2 0 1 3 3

E7b5
0 1 0 1 3 0
0 1 2 1 3 0
12 11 12 13 11 12

E7#5
0 3 0 1 1 0
0 3 0 1 3 0
0 3 2 1 3 0

E9sus4
0 0 0 2 0 2
0 2 0 2 0 2
0 2 0 2 3 2

Eadd11
0 0 2 1 0 0
12 12 14 13 12 12
12 11 9 9 10 12

Emaj7#11
0 1 1 1 0 0
12 13 13 13 12 12
12 13 13 13 12 11

E7#11
0 1 0 1 0 0
12 13 12 13 12 12
12 11 9 9 11 10

E9b5
12 11 12 11 11 12
0 1 0 1 3 2
0 1 2 1 3 2

E9#5
0 3 0 1 1 2
0 3 0 1 3 2
0 3 2 1 3 2

E7b13
0 2 0 1 1 0
0 3 0 1 0 0
12 14 12 13 13 12

Em7#5
0 3 0 0 3 0
0 3 0 0 3 3
0 3 2 0 3 0

Emaj7b5
12 11 13 13 11 11
12 11 13 13 11 12
12 13 13 13 11 11

Emaj7#5
0 3 1 1 1 0
12 11 13 13 13 11
12 11 13 13 13 12

Emmaj9
0 2 1 0 0 2
12 14 13 12 12 14
12 9 9 12 12 11

Esus2sus4
0 0 2 2 0 2
0 2 2 2 0 2
12 12 14 14 12 14

E6sus4
0 2 2 2 2 0
12 14 14 14 14 12
12 12 9 9 10 9

Em7b9
0 2 0 0 0 1
0 2 3 0 3 0
0 2 3 0 3 3

E13sus4
0 2 0 2 2 0
12 14 12 14 14 12
12 12 11 9 12 10

E7b9b5
0 1 0 1 3 1
0 1 2 1 3 1
0 1 3 1 3 0

E7#9b5
12 11 12 12 11 12
0 1 0 1 3 3
0 1 2 1 3 3

E7b9#5
0 3 0 1 1 1
0 3 0 1 3 1
0 3 2 1 3 1

E7#9#5
0 3 0 1 1 3
0 3 0 1 3 3
0 3 2 1 3 3

Eadd2
0 2 2 1 0 2
12 14 14 13 12 14
12 9 9 9 9 12

Emadd11
0 0 2 0 0 0
0 0 2 0 0 3
0 0 2 2 0 3

Emaj
0 2 2 1 0 0
12 14 14 13 12 12
12 11 9 9 9 12

Emin
0 2 2 0 0 0
0 2 2 0 0 3
12 14 14 12 12 12

EM7
0 2 1 1 0 0
12 11 13 13 12 11
12 11 13 13 12 12

Emin7
0 2 0 0 0 0
0 2 0 0 0 3
0 2 0 0 3 0

E+
0 3 2 1 1 0
12 11 10 9 9 12
12 11 10 13 13 12

Esus
0 0 2 2 0 0
0 2 2 2 0 0
12 12 14 14 12 12

";

/// Chords with root F.
pub const CHORDS_F: &'static str = "F
1 3 3 2 1 1
1 0 3 2 1 1
x 8 10 10 10 8

Fm
1 3 3 1 1 1
1 3 3 1 1 4
x 8 10 10 9 8

F5
x x 3 5 6 x
1 3 3 x 1 1
x 8 10 10 x 8

F6
1 0 0 2 1 1
1 3 0 2 1 1
1 3 0 2 3 1

Fm6
1 3 0 1 1 1
1 3 0 1 3 1
1 3 3 1 3 1

F69
1 0 0 0 1 1
1 0 0 0 1 3
1 0 0 2 1 3

Fm69
1 3 0 1 1 3
1 3 0 1 3 3
1 3 3 1 3 3

F7
1 0 1 2 1 1
1 3 1 2 1 1
1 3 1 2 4 1

Fm7
1 3 1 1 1 1
1 3 1 1 1 4
1 3 1 1 4 1

Fmaj7
x x 3 2 1 0
1 0 2 2 1 0
1 0 2 2 1 1
1 0 3 2 1 0

Fmmaj7
1 3 2 1 1 0
1 3 2 1 1 1
1 3 3 1 1 0

Fdim
1 2 3 1 0 1
1 2 3 1 0 4
1 2 3 4 0 4

Fdim7
1 2 0 1 0 1
1 2 0 1 3 1
1 2 3 1 3 1

Faug
1 0 3 2 2 1
1 4 3 2 2 1
x 8 7 6 6 5

Fm7b5
1 2 1 1 0 1
1 2 1 1 0 4
1 2 1 1 4 1

Fsus2
1 3 3 0 1 1
1 3 3 0 1 3
x 8 10 10 8 8

Fsus4
1 1 3 3 1 1
1 3 3 3 1 1
x 8 8 5 6 6

F7sus4
1 1 1 3 1 1
1 3 1 3 1 1
1 3 1 3 4 1

F7sus2
1 3 1 0 1 1
1 3 1 0 1 3
1 3 1 0 4 1

Fadd9
1 0 3 0 1 1
1 0 3 0 1 3
1 0 3 2 1 3

Fmadd9
1 3 3 1 1 3
1 3 3 0 1 4
x 8 6 5 8 8

F9
1 0 1 0 1 1
1 0 1 0 1 3
1 0 1 2 1 3

Fm9
1 3 1 1 1 3
1 3 1 0 1 4
1 3 1 0 4 4

Fmaj9
1 0 2 0 1 0
1 0 2 0 1 1
1 0 2 0 1 3

F11
1 1 1 0 1 1
1 1 1 0 1 3
1 1 1 3 1 3

Fm11
1 1 1 1 1 1
1 1 1 1 1 4
1 1 1 3 1 4

F13
1 3 1 2 3 1
1 3 0 2 4 1
x 8 10 8 10 10

Fm13
1 3 1 1 3 1
1 3 0 1 4 1
1 3 0 1 4 4

Fmaj13
1 0 0 2 1 0
1 0 0 2 1 1
1 3 0 2 1 0

F7b9
1 0 1 2 1 2
1 3 1 2 1 2
1 3 1 2 4 2

F7#9
1 0 1 1 1 1
1 0 1 1 1 4
1 0 1 2 1 4

F7b5
1 0 1 2 0 1
1 2 1 2 0 1
1 0 1 4 0 1

F7#5
1 0 1 2 2 1
1 4 1 2 2 1
1 4 1 2 4 1

F9sus4
1 1 1 0 1 1
1 1 1 0 1 3
1 1 1 3 1 3

Fadd11
1 0 3 3 1 1
1 1 3 2 1 1
x 8 8 10 10 8

Fmaj7#11
1 2 2 2 1 0
1 2 2 2 1 1
1 2 3 2 1 0

F7#11
1 2 1 2 1 1
1 3 1 2 0 1
1 0 1 4 1 1

F9b5
1 0 1 0 0 1
1 0 1 0 0 3
1 0 1 2 0 3

F9#5
1 0 1 0 2 1
1 0 1 0 2 3
1 0 1 2 2 3

F7b13
1 3 1 2 2 1
1 4 1 2 1 1
x 8 10 8 10 9

Fm7#5
1 4 1 1 2 1
1 4 1 1 2 4
1 4 1 1 4 1

Fmaj7b5
1 0 2 2 0 0
1 0 2 2 0 1
1 2 2 2 0 0

Fmaj7#5
1 0 2 2 2 0
1 0 2 2 2 1
1 0 3 2 2 0

Fmmaj9
1 3 2 1 1 3
1 3 3 1 1 3
1 3 2 0 1 4

Fsus2sus4
1 1 3 0 1 1
1 1 3 0 1 3
1 1 3 3 1 3

F6sus4
1 1 0 3 1 1
1 3 0 3 1 1
1 3 0 3 3 1

Fm7b9
1 3 1 1 1 2
1 3 1 1 4 2
1 3 3 1 4 2

F13sus4
1 3 1 3 3 1
1 3 0 3 4 1
x 8 10 8 11 10

F7b9b5
1 0 1 2 0 2
1 2 1 2 0 2
1 0 1 4 0 2

F7#9b5
1 0 1 1 0 1
1 0 1 1 0 4
1 0 1 2 0 4

F7b9#5
1 0 1 2 2 2
1 4 1 2 2 2
1 4 1 2 4 2

F7#9#5
1 0 1 1 2 1
1 0 1 1 2 4
1 0 1 2 2 4

Fadd2
1 0 3 0 1 1
1 0 3 0 1 3
1 0 3 2 1 3

Fmadd11
1 1 3 1 1 1
1 1 3 1 1 4
1 1 3 3 1 4

Fmaj
1 0 3 2 1 1
1 3 3 2 1 1
x 8 10 10 10 8

Fmin
1 3 3 1 1 1
1 3 3 1 1 4
x 8 10 10 9 8

FM7
1 0 2 2 1 0
1 0 2 2 1 1
1 0 3 2 1 0

Fmin7
1 3 1 1 1 1
1 3 1 1 1 4
1 3 1 1 4 1

F+
1 0 3 2 2 1
1 4 3 2 2 1
x 8 7 6 6 5

Fsus
1 1 3 3 1 1
1 3 3 3 1 1
x 8 8 5 6 6

";

/// Chords with root F#.
pub const CHORDS_F_SHARP: &'static str = "F#
2 4 4 3 2 2
2 1 4 3 2 2
x 9 11 11 11 9

F#m
2 0 4 2 2 2
2 4 4 2 2 2
2 0 4 2 2 5

F#5
x x 4 6 7 x
2 4 4 x 2 2
x 9 11 11 x 9

F#6
2 1 1 3 2 2
2 4 4 3 4 2
2 4 1 3 2 2

F#m6
2 0 1 2 2 2
2 4 4 2 4 2
2 4 1 2 2 2

F#69
2 1 1 1 2 2
2 4 4 3 4 4
2 1 1 1 2 4

F#m69
2 0 1 1 2 2
2 4 4 2 4 4
2 0 1 1 2 4

F#7
2 1 2 3 2 0
2 1 2 3 2 2
2 4 2 3 2 0

F#m7
2 0 2 2 2 0
2 0 2 2 2 2
2 0 4 2 2 0

F#maj7
2 1 3 3 2 1
2 1 3 3 2 2
2 4 3 3 2 2

F#mmaj7
2 0 3 2 2 2
2 0 3 2 2 1
2 4 3 2 2 2

F#dim
2 0 4 2 1 2
2 3 4 2 1 2
x 9 10 11 10 8

F#dim7
2 0 1 2 1 2
2 3 1 2 1 2
2 3 4 2 4 2

F#aug
2 1 0 3 3 2
2 1 4 3 3 2
2 5 0 3 3 2

F#m7b5
2 0 2 2 1 0
2 0 2 2 1 2
2 3 2 2 1 0

F#sus2
2 4 4 1 2 2
2 4 4 1 2 4
x 9 11 11 9 9

F#sus4
2 2 4 4 2 2
2 4 4 4 0 2
2 4 4 4 2 2

F#7sus4
2 2 2 4 2 0
2 2 2 4 2 2
2 2 4 4 2 0

F#7sus2
2 4 2 1 2 0
2 4 2 1 2 2
2 4 2 1 2 4

F#add9
2 4 4 3 2 4
2 1 4 1 2 2
2 1 4 1 2 4

F#madd9
2 0 4 2 2 4
2 4 4 2 2 4
2 0 4 1 2 2

F#9
2 1 2 1 2 0
2 1 2 1 2 2
2 4 2 3 2 4

F#m9
2 0 2 1 2 0
2 0 2 1 2 2
2 0 2 2 2 4

F#maj9
2 1 3 1 2 1
2 1 3 1 2 2
2 4 3 3 2 4

F#11
2 2 2 1 2 0
2 2 2 1 2 2
2 2 2 4 2 4

F#m11
2 2 2 2 2 0
2 2 2 2 2 2
2 0 2 4 2 0

F#13
2 1 1 3 2 0
2 1 1 3 2 2
2 4 2 3 4 0

F#m13
2 0 1 2 2 0
2 0 1 2 2 2
2 4 2 2 4 0

F#maj13
2 1 1 3 2 1
2 4 3 3 4 2
2 4 1 3 2 1

F#7b9
2 1 2 0 2 0
2 1 2 0 2 2
2 1 2 0 2 3

F#7#9
2 1 2 2 2 0
2 1 2 2 2 2
2 0 2 3 2 0

F#7b5
2 1 2 3 1 0
2 1 2 3 1 2
2 3 2 3 1 0

F#7#5
2 1 0 3 3 0
2 1 2 3 3 0
2 1 2 3 3 2

F#9sus4
2 2 2 1 2 0
2 2 2 1 2 2
2 2 2 4 2 4

F#add11
2 2 4 3 2 2
2 4 4 3 0 2
2 1 4 4 2 2

F#maj7#11
2 3 3 3 2 2
2 3 3 3 2 1
2 3 4 3 2 1

F#7#11
2 3 2 3 2 0
2 3 2 3 2 2
2 3 4 3 2 0

F#9b5
2 1 2 1 1 0
2 1 2 1 1 2
2 1 2 1 1 4

F#9#5
2 1 0 1 3 0
2 1 0 1 3 2
2 1 2 1 3 0

F#7b13
2 1 0 3 2 0
2 1 0 3 2 2
2 4 0 3 2 0

F#m7#5
2 0 0 2 3 0
2 0 2 2 3 0
2 0 2 2 3 2

F#maj7b5
2 1 3 3 1 1
2 1 3 3 1 2
2 3 3 3 1 1

F#maj7#5
2 1 0 3 3 1
2 1 3 3 3 1
2 1 3 3 3 2

F#mmaj9
2 0 3 1 2 1
2 0 3 1 2 2
2 0 3 2 2 4

F#sus2sus4
2 2 4 4 2 4
2 4 4 4 0 4
2 4 4 4 2 4

F#6sus4
2 4 4 4 4 2
2 2 1 4 2 2
2 4 1 4 0 2

F#m7b9
2 0 2 0 2 0
2 0 2 0 2 2
2 0 2 0 2 3

F#13sus4
2 4 2 4 4 0
2 4 2 4 4 2
2 4 4 4 4 0

F#7b9b5
2 1 2 0 1 0
2 1 2 0 1 2
2 1 2 0 1 3

F#7#9b5
2 1 2 2 1 0
2 1 2 2 1 2
2 0 2 3 1 0

F#7b9#5
2 1 0 0 3 0
2 1 0 0 3 2
2 1 0 0 3 3

F#7#9#5
2 0 0 3 3 0
2 0 0 3 3 2
2 0 2 3 3 0

F#add2
2 4 4 3 2 4
2 1 4 1 2 2
2 1 4 1 2 4

F#madd11
2 0 4 4 2 2
2 2 4 2 2 2
2 4 4 2 0 2

F#maj
2 4 4 3 2 2
2 1 4 3 2 2
x 9 11 11 11 9

F#min
2 0 4 2 2 2
2 4 4 2 2 2
2 0 4 2 2 5

F#M7
2 1 3 3 2 1
2 1 3 3 2 2
2 4 3 3 2 2

F#min7
2 0 2 2 2 0
2 0 2 2 2 2
2 0 4 2 2 0

F#+
2 1 0 3 3 2
2 1 4 3 3 2
2 5 0 3 3 2

F#sus
2 2 4 4 2 2
2 4 4 4 0 2
2 4 4 4 2 2

";

/// Chords with root Gb.
pub const CHORDS_G_FLAT: &'static str = "Gb
2 4 4 3 2 2
2 1 4 3 2 2
x 9 11 11 11 9

Gbm
2 0 4 2 2 2
2 4 4 2 2 2
2 0 4 2 2 5

Gb5
x x 4 6 7 x
2 4 4 x 2 2
x 9 11 11 x 9

Gb6
2 1 1 3 2 2
2 4 4 3 4 2
2 4 1 3 2 2

Gbm6
2 0 1 2 2 2
2 4 4 2 4 2
2 4 1 2 2 2

Gb69
2 1 1 1 2 2
2 4 4 3 4 4
2 1 1 1 2 4

Gbm69
2 0 1 1 2 2
2 4 4 2 4 4
2 0 1 1 2 4

Gb7
2 1 2 3 2 0
2 1 2 3 2 2
2 4 2 3 2 0

Gbm7
2 0 2 2 2 0
2 0 2 2 2 2
2 0 4 2 2 0

Gbmaj7
2 1 3 3 2 1
2 1 3 3 2 2
2 4 3 3 2 2

Gbmmaj7
2 0 3 2 2 2
2 0 3 2 2 1
2 4 3 2 2 2

Gbdim
2 0 4 2 1 2
2 3 4 2 1 2
x 9 10 11 10 8

Gbdim7
2 0 1 2 1 2
2 3 1 2 1 2
2 3 4 2 4 2

Gbaug
2 1 0 3 3 2
2 1 4 3 3 2
2 5 0 3 3 2

Gbm7b5
2 0 2 2 1 0
2 0 2 2 1 2
2 3 2 2 1 0

Gbsus2
2 4 4 1 2 2
2 4 4 1 2 4
x 9 11 11 9 9

Gbsus4
2 2 4 4 2 2
2 4 4 4 0 2
2 4 4 4 2 2

Gb7sus4
2 2 2 4 2 0
2 2 2 4 2 2
2 2 4 4 2 0

Gb7sus2
2 4 2 1 2 0
2 4 2 1 2 2
2 4 2 1 2 4

Gbadd9
2 4 4 3 2 4
2 1 4 1 2 2
2 1 4 1 2 4

Gbmadd9
2 0 4 2 2 4
2 4 4 2 2 4
2 0 4 1 2 2

Gb9
2 1 2 1 2 0
2 1 2 1 2 2
2 4 2 3 2 4

Gbm9
2 0 2 1 2 0
2 0 2 1 2 2
2 0 2 2 2 4

Gbmaj9
2 1 3 1 2 1
2 1 3 1 2 2
2 4 3 3 2 4

Gb11
2 2 2 1 2 0
2 2 2 1 2 2
2 2 2 4 2 4

Gbm11
2 2 2 2 2 0
2 2 2 2 2 2
2 0 2 4 2 0

Gb13
2 1 1 3 2 0
2 1 1 3 2 2
2 4 2 3 4 0

Gbm13
2 0 1 2 2 0
2 0 1 2 2 2
2 4 2 2 4 0

Gbmaj13
2 1 1 3 2 1
2 4 3 3 4 2
2 4 1 3 2 1

Gb7b9
2 1 2 0 2 0
2 1 2 0 2 2
2 1 2 0 2 3

Gb7#9
2 1 2 2 2 0
2 1 2 2 2 2
2 0 2 3 2 0

Gb7b5
2 1 2 3 1 0
2 1 2 3 1 2
2 3 2 3 1 0

Gb7#5
2 1 0 3 3 0
2 1 2 3 3 0
2 1 2 3 3 2

Gb9sus4
2 2 2 1 2 0
2 2 2 1 2 2
2 2 2 4 2 4

Gbadd11
2 2 4 3 2 2
2 4 4 3 0 2
2 1 4 4 2 2

Gbmaj7#11
2 3 3 3 2 2
2 3 3 3 2 1
2 3 4 3 2 1

Gb7#11
2 3 2 3 2 0
2 3 2 3 2 2
2 3 4 3 2 0

Gb9b5
2 1 2 1 1 0
2 1 2 1 1 2
2 1 2 1 1 4

Gb9#5
2 1 0 1 3 0
2 1 0 1 3 2
2 1 2 1 3 0

Gb7b13
2 1 0 3 2 0
2 1 0 3 2 2
2 4 0 3 2 0

Gbm7#5
2 0 0 2 3 0
2 0 2 2 3 0
2 0 2 2 3 2

Gbmaj7b5
2 1 3 3 1 1
2 1 3 3 1 2
2 3 3 3 1 1

Gbmaj7#5
2 1 0 3 3 1
2 1 3 3 3 1
2 1 3 3 3 2

Gbmmaj9
2 0 3 1 2 1
2 0 3 1 2 2
2 0 3 2 2 4

Gbsus2sus4
2 2 4 4 2 4
2 4 4 4 0 4
2 4 4 4 2 4

Gb6sus4
2 4 4 4 4 2
2 2 1 4 2 2
2 4 1 4 0 2

Gbm7b9
2 0 2 0 2 0
2 0 2 0 2 2
2 0 2 0 2 3

Gb13sus4
2 4 2 4 4 0
2 4 2 4 4 2
2 4 4 4 4 0

Gb7b9b5
2 1 2 0 1 0
2 1 2 0 1 2
2 1 2 0 1 3

Gb7#9b5
2 1 2 2 1 0
2 1 2 2 1 2
2 0 2 3 1 0

Gb7b9#5
2 1 0 0 3 0
2 1 0 0 3 2
2 1 0 0 3 3

Gb7#9#5
2 0 0 3 3 0
2 0 0 3 3 2
2 0 2 3 3 0

Gbadd2
2 4 4 3 2 4
2 1 4 1 2 2
2 1 4 1 2 4

Gbmadd11
2 0 4 4 2 2
2 2 4 2 2 2
2 4 4 2 0 2

Gbmaj
2 4 4 3 2 2
2 1 4 3 2 2
x 9 11 11 11 9

Gbmin
2 0 4 2 2 2
2 4 4 2 2 2
2 0 4 2 2 5

GbM7
2 1 3 3 2 1
2 1 3 3 2 2
2 4 3 3 2 2

Gbmin7
2 0 2 2 2 0
2 0 2 2 2 2
2 0 4 2 2 0

Gb+
2 1 0 3 3 2
2 1 4 3 3 2
2 5 0 3 3 2

Gbsus
2 2 4 4 2 2
2 4 4 4 0 2
2 4 4 4 2 2

";

/// Chords with root G.
pub const CHORDS_G: &'static str = "G
3 2 0 0 0 3
3 2 0 0 3 3
3 2 0 4 0 3

Gm
3 1 0 0 3 3
3 1 0 3 3 3
3 5 0 3 3 3

G5
3 5 0 0 3 3
3 5 5 0 3 3
x x 5 0 3 3

G6
3 2 0 0 0 0
3 2 0 0 3 0
3 2 2 0 3 0

Gm6
3 1 0 0 3 0
3 1 0 3 3 0
3 1 2 0 3 0

G69
3 0 0 0 0 0
3 0 0 0 0 3
3 0 0 2 0 0

Gm69
3 0 0 3 3 0
3 0 0 3 3 3
3 0 2 3 3 0

G7
3 2 0 0 0 1
3 2 3 0 3 3
3 2 0 0 3 1

Gm7
3 1 0 0 3 1
3 1 0 3 3 1
3 1 3 0 3 1

Gmaj7
3 2 0 0 0 2
3 2 0 0 3 2
3 2 0 4 0 2

Gmmaj7
3 1 0 0 3 2
3 1 0 3 3 2
3 5 4 3 3 3

Gdim
3 4 5 3 2 3
x 10 11 12 11 9
x x 5 3 2 3

Gdim7
3 1 2 0 2 0
3 1 2 0 2 3
3 1 2 3 2 0

Gaug
3 2 1 0 0 3
3 2 1 0 4 3
3 2 1 4 0 3

Gm7b5
3 1 3 0 2 1
3 1 3 0 2 3
3 1 3 3 2 1

Gsus2
3 0 0 0 3 3
3 0 0 2 3 3
3 0 0 0 3 5

Gsus4
3 3 0 0 3 3
3 3 0 0 1 3
3 3 0 5 3 3

G7sus4
3 3 3 0 3 3
3 3 0 0 1 1
3 3 0 0 3 1

G7sus2
3 0 3 0 3 3
3 0 3 2 3 3
3 0 0 0 3 1

Gadd9
3 0 0 0 0 3
3 0 0 2 0 3
3 2 0 2 0 3

Gmadd9
3 0 0 3 3 3
3 1 0 2 3 3
3 0 0 3 3 5

G9
3 2 3 2 3 3
3 0 3 4 3 3
3 0 0 0 0 1

Gm9
3 0 3 3 3 3
3 0 0 3 3 1
3 0 3 3 3 1

Gmaj9
3 0 0 0 0 2
3 0 0 2 0 2
3 2 0 2 0 2

G11
3 3 3 2 3 3
3 0 0 0 1 1
3 0 0 2 1 1

Gm11
3 3 3 3 3 3
3 1 0 0 1 1
3 1 0 3 1 1

G13
3 2 3 0 3 0
3 2 3 0 3 3
3 2 0 0 0 1

Gm13
3 1 0 0 3 1
3 1 0 3 3 1
3 1 2 0 3 1

Gmaj13
3 2 0 0 0 2
3 2 0 0 3 2
3 2 2 0 3 2

G7b9
3 2 0 1 0 1
3 2 0 1 3 1
3 2 3 1 3 1

G7#9
3 2 3 3 3 3
3 1 0 0 0 1
3 1 0 3 0 1

G7b5
3 2 3 0 2 3
3 4 3 0 0 3
3 4 3 4 0 3

G7#5
3 2 1 0 0 1
3 2 3 0 4 3
3 2 3 4 4 3

G9sus4
3 3 3 2 3 3
3 0 0 0 1 1
3 0 0 2 1 1

Gadd11
3 3 0 0 0 3
3 3 0 4 0 3
3 3 0 4 3 3

Gmaj7#11
3 2 0 0 2 2
3 4 4 4 3 3
3 2 0 4 2 2

G7#11
3 4 3 4 3 3
3 2 0 0 2 1
3 2 0 4 2 1

G9b5
3 2 3 2 2 3
3 2 3 2 2 1
3 0 3 4 2 3

G9#5
3 0 3 4 4 3
3 0 1 0 0 1
3 0 1 2 0 1

G7b13
3 2 1 0 3 1
3 5 3 4 4 3
3 2 0 0 4 1

Gm7#5
3 1 1 0 4 1
3 1 1 3 4 1
3 1 3 0 4 1

Gmaj7b5
3 4 4 0 0 3
3 4 4 4 0 3
3 2 4 0 2 2

Gmaj7#5
3 2 1 0 0 2
3 2 4 0 4 2
3 2 4 0 4 3

Gmmaj9
3 0 0 3 3 2
3 0 4 3 3 3
3 1 0 2 3 2

Gsus2sus4
3 3 0 2 3 3
3 0 0 0 1 3
3 0 0 2 1 3

G6sus4
3 3 0 0 3 0
3 3 2 0 3 0
3 3 2 0 3 3

Gm7b9
3 1 0 1 3 1
3 1 3 1 3 1
3 1 3 1 3 3

G13sus4
3 3 3 0 3 0
3 3 3 0 3 3
3 3 0 0 1 1

G7b9b5
3 4 3 0 0 4
3 4 3 4 0 4
3 2 3 1 2 1

G7#9b5
3 2 3 3 2 3
3 4 3 3 0 3
3 2 3 3 2 1

G7b9#5
3 2 1 1 0 1
3 2 3 0 4 4
3 2 3 4 4 4

G7#9#5
3 1 1 0 0 1
3 1 1 3 0 1
3 2 1 3 0 1

Gadd2
3 0 0 0 0 3
3 0 0 2 0 3
3 2 0 2 0 3

Gmadd11
3 3 0 3 3 3
3 1 0 0 1 3
3 1 0 3 1 3

Gmaj
3 2 0 0 0 3
3 2 0 0 3 3
3 2 0 4 0 3

Gmin
3 1 0 0 3 3
3 1 0 3 3 3
3 5 0 3 3 3

GM7
3 2 0 0 0 2
3 2 0 0 3 2
3 2 0 4 0 2

Gmin7
3 1 0 0 3 1
3 1 0 3 3 1
3 1 3 0 3 1

G+
3 2 1 0 0 3
3 2 1 0 4 3
3 2 1 4 0 3

Gsus
3 3 0 0 3 3
3 3 0 0 1 3
3 3 0 5 3 3

";

/// Chords with root G#.
pub const CHORDS_G_SHARP: &'static str = "G#
4 6 6 5 4 4
4 3 1 1 1 4
4 3 1 1 4 4

G#m
4 6 6 4 0 4
4 6 6 4 4 4
4 2 1 1 0 4

G#5
x x 6 8 9 x
4 6 6 x 4 4
4 x 1 1 4 4

G#6
4 3 3 5 4 4
4 6 6 5 6 4
4 3 1 1 1 1

G#m6
4 2 3 4 4 4
4 6 6 4 6 4
4 2 1 1 0 1

G#69
4 3 3 3 4 4
4 6 6 5 6 6
4 1 1 1 1 1

G#m69
4 2 3 3 4 4
4 6 6 4 6 6
4 1 1 1 0 1

G#7
4 3 4 5 4 4
4 6 4 5 4 4
4 3 1 1 1 2

G#m7
4 2 4 4 4 2
4 2 4 4 4 4
4 6 4 4 0 4

G#maj7
4 3 5 0 4 3
4 3 5 0 4 4
4 3 5 5 4 3

G#mmaj7
4 6 5 0 0 4
4 6 5 4 0 4
4 6 5 4 4 4

G#dim
4 5 0 4 0 4
4 2 0 4 0 4
4 2 0 4 3 4

G#dim7
4 2 3 4 3 4
4 5 3 4 0 4
4 5 3 4 3 4

G#aug
4 3 2 1 1 0
4 3 2 1 1 4
4 3 2 5 5 0

G#m7b5
4 5 4 4 0 4
4 2 0 4 0 2
4 2 0 4 3 2

G#sus2
4 1 1 1 4 4
4 1 1 3 4 4
4 6 6 3 4 4

G#sus4
4 4 6 6 4 4
4 6 6 6 4 4
4 4 1 1 2 4

G#7sus4
4 4 4 6 4 4
4 6 4 6 4 4
4 4 1 1 2 2

G#7sus2
4 1 1 1 4 2
4 1 1 3 4 2
4 1 4 1 4 2

G#add9
4 6 6 5 4 6
4 1 1 1 1 4
4 1 1 3 1 4

G#madd9
4 6 6 4 0 6
4 6 6 4 4 6
4 1 1 1 0 4

G#9
4 3 4 3 4 4
4 3 4 3 4 2
4 6 4 5 4 6

G#m9
4 2 4 3 4 2
4 2 4 3 4 4
4 6 4 4 0 6

G#maj9
4 3 5 3 4 3
4 3 5 3 4 4
4 6 5 5 4 6

G#11
4 4 4 3 4 4
4 4 4 3 4 2
4 4 4 6 4 6

G#m11
4 4 4 4 4 4
4 4 4 4 4 2
4 6 4 6 0 4

G#13
4 6 4 5 6 4
4 3 3 1 4 2
4 3 4 1 4 1

G#m13
4 2 3 4 4 2
4 6 4 4 6 4
4 2 3 1 4 2

G#maj13
4 3 3 0 4 3
4 3 3 0 4 4
4 3 3 5 4 3

G#7b9
4 0 4 5 4 4
4 0 4 5 4 5
4 3 4 2 4 2

G#7#9
4 3 4 4 4 4
4 3 4 4 4 2
4 6 4 5 0 4

G#7b5
4 3 4 5 3 4
4 5 4 5 3 4
4 3 0 1 1 2

G#7#5
4 3 4 5 5 0
4 3 4 5 5 4
4 3 2 1 1 2

G#9sus4
4 4 4 3 4 4
4 4 4 3 4 2
4 4 4 6 4 6

G#add11
4 4 6 5 4 4
4 3 1 1 2 4
4 4 1 1 1 4

G#maj7#11
4 3 0 0 4 3
4 3 0 0 4 4
4 5 5 5 4 4

G#7#11
4 5 4 5 4 4
4 3 0 1 4 2
4 3 1 1 3 2

G#9b5
4 3 4 3 3 4
4 3 0 3 3 2
4 3 4 3 3 2

G#9#5
4 3 4 3 5 0
4 3 4 3 5 4
4 1 2 1 1 2

G#7b13
4 3 4 5 4 0
4 3 4 5 4 4
4 6 4 5 4 0

G#m7#5
4 2 2 4 0 2
4 2 4 4 0 0
4 2 2 1 0 2

G#maj7b5
4 3 0 0 3 3
4 3 0 0 3 4
4 3 0 5 3 3

G#maj7#5
4 3 5 0 5 0
4 3 5 0 5 3
4 3 5 0 5 4

G#mmaj9
4 6 5 0 0 6
4 6 5 4 0 6
4 6 5 4 4 6

G#sus2sus4
4 4 6 6 4 6
4 6 6 6 4 6
4 1 1 1 2 4

G#6sus4
4 6 6 6 6 4
4 4 1 1 2 1
4 4 1 1 4 1

G#m7b9
4 0 4 4 4 4
4 0 4 4 4 5
4 0 4 4 4 2

G#13sus4
4 6 4 6 6 4
4 4 3 1 4 2
4 4 4 1 4 1

G#7b9b5
4 3 0 2 3 2
4 3 4 2 3 2
4 3 4 2 3 4

G#7#9b5
4 3 4 4 3 4
4 5 4 5 0 4
4 3 0 4 0 2

G#7b9#5
4 0 4 5 5 0
4 0 4 5 5 4
4 0 4 5 5 5

G#7#9#5
4 3 4 4 0 0
4 3 4 4 0 4
4 3 2 4 0 2

G#add2
4 6 6 5 4 6
4 1 1 1 1 4
4 1 1 3 1 4

G#madd11
4 4 6 4 4 4
4 6 6 6 0 4
4 2 1 1 2 4

G#maj
4 6 6 5 4 4
4 3 1 1 1 4
4 3 1 1 4 4

G#min
4 6 6 4 0 4
4 6 6 4 4 4
4 2 1 1 0 4

G#M7
4 3 5 0 4 3
4 3 5 0 4 4
4 3 5 5 4 3

G#min7
4 2 4 4 4 2
4 2 4 4 4 4
4 6 4 4 0 4

G#+
4 3 2 1 1 0
4 3 2 1 1 4
4 3 2 5 5 0

G#sus
4 4 6 6 4 4
4 6 6 6 4 4
4 4 1 1 2 4

";

/// Chords with root Ab.
pub const CHORDS_A_FLAT: &'static str = "Ab
4 6 6 5 4 4
4 3 1 1 1 4
4 3 1 1 4 4

Abm
4 6 6 4 0 4
4 6 6 4 4 4
4 2 1 1 0 4

Ab5
x x 6 8 9 x
4 6 6 x 4 4
4 x 1 1 4 4

Ab6
4 3 3 5 4 4
4 6 6 5 6 4
4 3 1 1 1 1

Abm6
4 2 3 4 4 4
4 6 6 4 6 4
4 2 1 1 0 1

Ab69
4 3 3 3 4 4
4 6 6 5 6 6
4 1 1 1 1 1

Abm69
4 2 3 3 4 4
4 6 6 4 6 6
4 1 1 1 0 1

Ab7
4 3 4 5 4 4
4 6 4 5 4 4
4 3 1 1 1 2

Abm7
4 2 4 4 4 2
4 2 4 4 4 4
4 6 4 4 0 4

Abmaj7
4 3 5 0 4 3
4 3 5 0 4 4
4 3 5 5 4 3

Abmmaj7
4 6 5 0 0 4
4 6 5 4 0 4
4 6 5 4 4 4

Abdim
4 5 0 4 0 4
4 2 0 4 0 4
4 2 0 4 3 4

Abdim7
4 2 3 4 3 4
4 5 3 4 0 4
4 5 3 4 3 4

Abaug
4 3 2 1 1 0
4 3 2 1 1 4
4 3 2 5 5 0

Abm7b5
4 5 4 4 0 4
4 2 0 4 0 2
4 2 0 4 3 2

Absus2
4 1 1 1 4 4
4 1 1 3 4 4
4 6 6 3 4 4

Absus4
4 4 6 6 4 4
4 6 6 6 4 4
4 4 1 1 2 4

Ab7sus4
4 4 4 6 4 4
4 6 4 6 4 4
4 4 1 1 2 2

Ab7sus2
4 1 1 1 4 2
4 1 1 3 4 2
4 1 4 1 4 2

Abadd9
4 6 6 5 4 6
4 1 1 1 1 4
4 1 1 3 1 4

Abmadd9
4 6 6 4 0 6
4 6 6 4 4 6
4 1 1 1 0 4

Ab9
4 3 4 3 4 4
4 3 4 3 4 2
4 6 4 5 4 6

Abm9
4 2 4 3 4 2
4 2 4 3 4 4
4 6 4 4 0 6

Abmaj9
4 3 5 3 4 3
4 3 5 3 4 4
4 6 5 5 4 6

Ab11
4 4 4 3 4 4
4 4 4 3 4 2
4 4 4 6 4 6

Abm11
4 4 4 4 4 4
4 4 4 4 4 2
4 6 4 6 0 4

Ab13
4 6 4 5 6 4
4 3 3 1 4 2
4 3 4 1 4 1

Abm13
4 2 3 4 4 2
4 6 4 4 6 4
4 2 3 1 4 2

Abmaj13
4 3 3 0 4 3
4 3 3 0 4 4
4 3 3 5 4 3

Ab7b9
4 0 4 5 4 4
4 0 4 5 4 5
4 3 4 2 4 2

Ab7#9
4 3 4 4 4 4
4 3 4 4 4 2
4 6 4 5 0 4

Ab7b5
4 3 4 5 3 4
4 5 4 5 3 4
4 3 0 1 1 2

Ab7#5
4 3 4 5 5 0
4 3 4 5 5 4
4 3 2 1 1 2

Ab9sus4
4 4 4 3 4 4
4 4 4 3 4 2
4 4 4 6 4 6

Abadd11
4 4 6 5 4 4
4 3 1 1 2 4
4 4 1 1 1 4

Abmaj7#11
4 3 0 0 4 3
4 3 0 0 4 4
4 5 5 5 4 4

Ab7#11
4 5 4 5 4 4
4 3 0 1 4 2
4 3 1 1 3 2

Ab9b5
4 3 4 3 3 4
4 3 0 3 3 2
4 3 4 3 3 2

Ab9#5
4 3 4 3 5 0
4 3 4 3 5 4
4 1 2 1 1 2

Ab7b13
4 3 4 5 4 0
4 3 4 5 4 4
4 6 4 5 4 0

Abm7#5
4 2 2 4 0 2
4 2 4 4 0 0
4 2 2 1 0 2

Abmaj7b5
4 3 0 0 3 3
4 3 0 0 3 4
4 3 0 5 3 3

Abmaj7#5
4 3 5 0 5 0
4 3 5 0 5 3
4 3 5 0 5 4

Abmmaj9
4 6 5 0 0 6
4 6 5 4 0 6
4 6 5 4 4 6

Absus2sus4
4 4 6 6 4 6
4 6 6 6 4 6
4 1 1 1 2 4

Ab6sus4
4 6 6 6 6 4
4 4 1 1 2 1
4 4 1 1 4 1

Abm7b9
4 0 4 4 4 4
4 0 4 4 4 5
4 0 4 4 4 2

Ab13sus4
4 6 4 6 6 4
4 4 3 1 4 2
4 4 4 1 4 1

Ab7b9b5
4 3 0 2 3 2
4 3 4 2 3 2
4 3 4 2 3 4

Ab7#9b5
4 3 4 4 3 4
4 5 4 5 0 4
4 3 0 4 0 2

Ab7b9#5
4 0 4 5 5 0
4 0 4 5 5 4
4 0 4 5 5 5

Ab7#9#5
4 3 4 4 0 0
4 3 4 4 0 4
4 3 2 4 0 2

Abadd2
4 6 6 5 4 6
4 1 1 1 1 4
4 1 1 3 1 4

Abmadd11
4 4 6 4 4 4
4 6 6 6 0 4
4 2 1 1 2 4

Abmaj
4 6 6 5 4 4
4 3 1 1 1 4
4 3 1 1 4 4

Abmin
4 6 6 4 0 4
4 6 6 4 4 4
4 2 1 1 0 4

AbM7
4 3 5 0 4 3
4 3 5 0 4 4
4 3 5 5 4 3

Abmin7
4 2 4 4 4 2
4 2 4 4 4 4
4 6 4 4 0 4

Ab+
4 3 2 1 1 0
4 3 2 1 1 4
4 3 2 5 5 0

Absus
4 4 6 6 4 4
4 6 6 6 4 4
4 4 1 1 2 4

";

} // verus!
