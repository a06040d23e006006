#!/usr/bin/env python3
"""Generates the built-in guitar chord table (src/music/chord_data.rs).

Format of the table text: a chord name on a line of its own, then one voicing per
line (six fields, low E string first: `x` for a muted string, else the fret), then an
empty line. The first voicing of a chord is the usual one.

Open-position shapes are listed by hand; every other voicing is found by a search
over the fretboard in standard tuning (E A D G B E): the lowest sounding string
plays the root, every sounding note belongs to the chord, every essential tone is
present, and the fretted notes span at most four frets.
"""
import itertools, sys

OPEN = [7, 0, 5, 10, 2, 7]  # pitch classes of the open strings, A = 0

ROOTS = [("A", 0), ("A#", 1), ("Bb", 1), ("B", 2), ("C", 3), ("C#", 4), ("Db", 4),
         ("D", 5), ("D#", 6), ("Eb", 6), ("E", 7), ("F", 8), ("F#", 9), ("Gb", 9),
         ("G", 10), ("G#", 11), ("Ab", 11)]

QUALITIES = [
    ("", [0, 4, 7]), ("m", [0, 3, 7]), ("5", [0, 7]), ("6", [0, 4, 7, 9]),
    ("m6", [0, 3, 7, 9]), ("69", [0, 4, 7, 9, 2]), ("m69", [0, 3, 7, 9, 2]),
    ("7", [0, 4, 7, 10]), ("m7", [0, 3, 7, 10]), ("maj7", [0, 4, 7, 11]),
    ("mmaj7", [0, 3, 7, 11]), ("dim", [0, 3, 6]), ("dim7", [0, 3, 6, 9]),
    ("aug", [0, 4, 8]), ("m7b5", [0, 3, 6, 10]), ("sus2", [0, 2, 7]),
    ("sus4", [0, 5, 7]), ("7sus4", [0, 5, 7, 10]), ("7sus2", [0, 2, 7, 10]),
    ("add9", [0, 4, 7, 2]), ("madd9", [0, 3, 7, 2]), ("9", [0, 4, 7, 10, 2]),
    ("m9", [0, 3, 7, 10, 2]), ("maj9", [0, 4, 7, 11, 2]), ("11", [0, 7, 10, 2, 5]),
    ("m11", [0, 3, 7, 10, 5]), ("13", [0, 4, 7, 10, 9]), ("m13", [0, 3, 7, 10, 9]),
    ("maj13", [0, 4, 7, 11, 9]), ("7b9", [0, 4, 7, 10, 1]), ("7#9", [0, 4, 7, 10, 3]),
    ("7b5", [0, 4, 6, 10]), ("7#5", [0, 4, 8, 10]), ("9sus4", [0, 5, 7, 10, 2]),
    ("add11", [0, 4, 7, 5]), ("maj7#11", [0, 4, 7, 11, 6]), ("7#11", [0, 4, 7, 10, 6]),
    ("9b5", [0, 4, 6, 10, 2]), ("9#5", [0, 4, 8, 10, 2]), ("7b13", [0, 4, 7, 10, 8]),
    ("m7#5", [0, 3, 8, 10]), ("maj7b5", [0, 4, 6, 11]), ("maj7#5", [0, 4, 8, 11]),
    ("mmaj9", [0, 3, 7, 11, 2]), ("sus2sus4", [0, 2, 5, 7]), ("6sus4", [0, 5, 7, 9]),
    ("m7b9", [0, 3, 7, 10, 1]), ("13sus4", [0, 5, 7, 10, 9]), ("7b9b5", [0, 4, 6, 10, 1]),
    ("7#9b5", [0, 4, 6, 10, 3]), ("7b9#5", [0, 4, 8, 10, 1]), ("7#9#5", [0, 4, 8, 10, 3]),
    ("add2", [0, 2, 4, 7]), ("madd11", [0, 3, 7, 5]), ("maj", [0, 4, 7]),
    ("min", [0, 3, 7]), ("M7", [0, 4, 7, 11]), ("min7", [0, 3, 7, 10]),
    ("+", [0, 4, 8]), ("sus", [0, 5, 7]),
]

# Open-position shapes, listed first for their chord.
OPEN_SHAPES = {
    "A": ["x 0 2 2 2 0"], "Am": ["x 0 2 2 1 0"], "A7": ["x 0 2 0 2 0"],
    "Am7": ["x 0 2 0 1 0"], "Amaj7": ["x 0 2 1 2 0"], "Asus2": ["x 0 2 2 0 0"],
    "Asus4": ["x 0 2 2 3 0"], "A6": ["x 0 2 2 2 2"],
    "B7": ["x 2 1 2 0 2"], "Bm": ["x 2 4 4 3 2"],
    "C": ["x 3 2 0 1 0"], "C7": ["x 3 2 3 1 0"], "Cmaj7": ["x 3 2 0 0 0"],
    "Cadd9": ["x 3 2 0 3 0"],
    "D": ["x x 0 2 3 2"], "Dm": ["x x 0 2 3 1"], "D7": ["x x 0 2 1 2"],
    "Dm7": ["x x 0 2 1 1"], "Dmaj7": ["x x 0 2 2 2"], "Dsus2": ["x x 0 2 3 0"],
    "Dsus4": ["x x 0 2 3 3"],
    "E": ["0 2 2 1 0 0"], "Em": ["0 2 2 0 0 0"], "E7": ["0 2 0 1 0 0"],
    "Em7": ["0 2 0 0 0 0"], "Esus4": ["0 2 2 2 0 0"], "Emaj7": ["0 2 1 1 0 0"],
    "F": ["1 3 3 2 1 1"], "Fmaj7": ["x x 3 2 1 0"],
    "G": ["3 2 0 0 0 3"], "G7": ["3 2 0 0 0 1"], "Gmaj7": ["3 2 0 0 0 2"],
    "G6": ["3 2 0 0 0 0"],
}


def fmt(v):
    return " ".join("x" if f is None else str(f) for f in v)


def search(root, tones):
    tones = set(t % 12 for t in tones)
    need = set(tones)
    if len(tones) >= 5:
        need.discard(7)
    found = []
    for rs in (0, 1, 2):
        for base in range(0, 13):
            if (OPEN[rs] + base) % 12 != root:
                continue
            choices = []
            for s in range(rs + 1, 6):
                opts = [None]
                for f in range(0, 16):
                    if f != 0 and not (max(base - 3, 1) <= f <= base + 3):
                        continue
                    if (OPEN[s] + f) % 12 in tones:
                        opts.append(f)
                choices.append(opts)
            for rest in itertools.product(*choices):
                v = [None] * rs + [base] + list(rest)
                played = [(s, f) for s, f in enumerate(v) if f is not None]
                pcs = set((OPEN[s] + f) % 12 for s, f in played)
                if not need <= pcs:
                    continue
                fretted = [f for _, f in played if f > 0]
                span = max(fretted) - min(fretted) if fretted else 0
                if span > 3:
                    continue
                muted = sum(1 for f in v[rs:] if f is None)
                if muted > 1:
                    continue
                gaps = any(v[i] is None for i in range(rs + 1, 5)) and v[5] is not None
                opens = any(f == 0 for _, f in played)
                mixed = 1 if opens and fretted and min(fretted) > 4 else 0
                score = (muted + (2 if gaps else 0), mixed, rs, span, max(fretted) if fretted else 0)
                found.append((score, tuple(-1 if f is None else f for f in v)))
    found.sort()
    out = []
    for _, key in found:
        v = tuple(None if f < 0 else f for f in key)
        if v not in out:
            out.append(v)
        if len(out) == 3:
            break
    return [fmt(v) for v in out]


def main():
    sections = []
    total = 0
    for rname, rpc in ROOTS:
        blocks = []
        for qname, ivs in QUALITIES:
            name = rname + qname
            tones = [(rpc + i) % 12 for i in ivs]
            voicings = list(OPEN_SHAPES.get(name, []))
            for v in search(rpc, tones):
                if v not in voicings:
                    voicings.append(v)
            voicings = voicings[:4]
            if voicings:
                blocks.append(name + "\n" + "\n".join(voicings) + "\n")
        total += len(blocks)
        sections.append((rname, "\n".join(blocks) + "\n"))
    sys.stderr.write("%d chords\n" % total)
    ident = lambda r: "CHORDS_" + r.replace("#", "_SHARP").replace("b", "_FLAT").upper()
    macro = "ver" + "us"
    out = ["use vstd::prelude::*;", "", macro + "! {", ""]
    for rname, text in sections:
        out.append("/// Chords with root %s." % rname)
        out.append("pub const %s: &'static str = \"%s\";" % (ident(rname), text))
        out.append("")
    out.append("} // " + macro + "!")
    out.append("")
    sys.stdout.write("\n".join(out))
    names = [ident(r) for r, _ in sections]
    sys.stderr.write(" ".join(names) + "\n")


main()
