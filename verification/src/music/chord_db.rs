use vstd::prelude::*;

use crate::music::chord_data::{
    CHORDS_A, CHORDS_A_SHARP, CHORDS_B_FLAT, CHORDS_B, CHORDS_C, CHORDS_C_SHARP, CHORDS_D_FLAT, CHORDS_D, CHORDS_D_SHARP, CHORDS_E_FLAT, CHORDS_E, CHORDS_F, CHORDS_F_SHARP, CHORDS_G_FLAT, CHORDS_G, CHORDS_G_SHARP, CHORDS_A_FLAT,
};
use crate::music::parser::split_lines;
use crate::text::{
    chars_of, is_whitespace, is_ws, lowercase, push_all, sub_chars, to_lowercase, trim, trim_chars,
};

verus! {

/// A chord voicing: 6 strings, low E (index 0) to high E (index 5).
/// None = muted (x), Some(0) = open, Some(n) = fretted at fret n.
pub type Voicing = [Option<i32>; 6];

// ---------------------------------------------------------------------------
// Voicing lines: six whitespace-separated fields, each `x`, `X` or an integer
// ---------------------------------------------------------------------------

/// Words of `s` (`str::split_whitespace`), and whether `s` ends inside a word.
pub open spec fn words_state(s: Seq<char>) -> (Seq<Seq<char>>, bool)
    decreases s.len(),
{
    if s.len() == 0 {
        (Seq::empty(), false)
    } else {
        let (w, inside) = words_state(s.drop_last());
        let c = s.last();
        if is_ws(c) {
            (w, false)
        } else if inside {
            (w.update(w.len() - 1, w.last().push(c)), true)
        } else {
            (w.push(seq![c]), true)
        }
    }
}

/// The maximal runs of non-whitespace characters of `s`, in order.
pub open spec fn words(s: Seq<char>) -> Seq<Seq<char>> {
    words_state(s).0
}

pub open spec fn is_ascii_digit(c: char) -> bool {
    '0' <= c && c <= '9'
}

/// Every character of `t` is an ASCII digit.
pub open spec fn all_digits(t: Seq<char>) -> bool
    decreases t.len(),
{
    t.len() == 0 || (all_digits(t.drop_last()) && is_ascii_digit(t.last()))
}

/// Value of a run of ASCII digits.
pub open spec fn digits_value(t: Seq<char>) -> int
    decreases t.len(),
{
    if t.len() == 0 {
        0
    } else {
        digits_value(t.drop_last()) * 10 + (t.last() as int - 48)
    }
}

/// `i32::from_str`: an optional sign, then one or more ASCII digits, the value in range.
pub open spec fn parse_i32(w: Seq<char>) -> Option<i32> {
    let neg = w.len() > 0 && w[0] == '-';
    let d = if w.len() > 0 && (w[0] == '-' || w[0] == '+') {
        w.drop_first()
    } else {
        w
    };
    let v = if neg {
        -digits_value(d)
    } else {
        digits_value(d)
    };
    if d.len() == 0 || !all_digits(d) {
        None
    } else if i32::MIN <= v <= i32::MAX {
        Some(v as i32)
    } else {
        None
    }
}

/// One field of a voicing: `x` or `X` is a muted string, a number a fret.
pub open spec fn field_value(w: Seq<char>) -> Option<Option<i32>> {
    if w == seq!['x'] || w == seq!['X'] {
        Some(None)
    } else {
        match parse_i32(w) {
            Some(v) => Some(Some(v)),
            None => None,
        }
    }
}

/// The voicing a line denotes, if it has exactly six fields that all read.
pub open spec fn voicing_of(line: Seq<char>) -> Option<Seq<Option<i32>>> {
    let ws = words(line);
    if ws.len() == 6 && field_value(ws[0]) is Some && field_value(ws[1]) is Some && field_value(
        ws[2],
    ) is Some && field_value(ws[3]) is Some && field_value(ws[4]) is Some && field_value(ws[5]) is Some {
        Some(Seq::new(6, |i: int| field_value(ws[i])->0))
    } else {
        None
    }
}

proof fn lemma_words_state(s: Seq<char>)
    ensures
        words_state(s).1 ==> words_state(s).0.len() > 0,
    decreases s.len(),
{
    if s.len() > 0 {
        lemma_words_state(s.drop_last());
    }
}

/// `str::split_whitespace` on characters.
fn split_words(s: &[char]) -> (r: Vec<Vec<char>>)
    ensures
        r@.map_values(|w: Vec<char>| w@) == words(s@),
{
    let n = s.len();
    let mut r: Vec<Vec<char>> = Vec::new();
    let mut start: usize = 0;
    let mut inside = false;
    let mut i: usize = 0;
    proof {
        assert(s@.take(0) =~= Seq::<char>::empty());
        assert(r@.map_values(|w: Vec<char>| w@) =~= Seq::<Seq<char>>::empty());
    }
    while i < n
        invariant
            n == s@.len(),
            i <= n,
            start <= i,
            r@.map_values(|w: Vec<char>| w@) == (if inside {
                words_state(s@.take(i as int)).0.drop_last()
            } else {
                words_state(s@.take(i as int)).0
            }),
            inside == words_state(s@.take(i as int)).1,
            inside ==> words_state(s@.take(i as int)).0.len() > 0 && words_state(
                s@.take(i as int),
            ).0.last() == s@.subrange(start as int, i as int),
        decreases n - i,
    {
        let ghost prev = words_state(s@.take(i as int));
        proof {
            assert(s@.take(i + 1).drop_last() =~= s@.take(i as int));
            assert(s@.take(i + 1).last() == s@[i as int]);
        }
        if is_whitespace(s[i]) {
            if inside {
                let w = sub_chars(s, start, i);
                proof {
                    assert(r@.push(w).map_values(|w: Vec<char>| w@) =~= r@.map_values(
                        |w: Vec<char>| w@,
                    ).push(w@));
                    assert(prev.0 =~= prev.0.drop_last().push(prev.0.last()));
                }
                r.push(w);
            }
            inside = false;
        } else {
            if !inside {
                start = i;
                proof {
                    assert(prev.0.push(seq![s@[i as int]]).drop_last() =~= prev.0);
                    assert(s@.subrange(i as int, i + 1) =~= seq![s@[i as int]]);
                }
            } else {
                proof {
                    let nw = prev.0.update(prev.0.len() - 1, prev.0.last().push(s@[i as int]));
                    assert(nw.drop_last() =~= prev.0.drop_last());
                    assert(s@.subrange(start as int, i + 1) =~= s@.subrange(start as int, i as int).push(
                        s@[i as int],
                    ));
                }
            }
            inside = true;
        }
        i = i + 1;
    }
    proof {
        assert(s@.take(n as int) =~= s@);
    }
    if inside {
        let w = sub_chars(s, start, n);
        proof {
            let ws = words_state(s@).0;
            assert(r@.push(w).map_values(|w: Vec<char>| w@) =~= r@.map_values(|w: Vec<char>| w@).push(
                w@,
            ));
            assert(ws =~= ws.drop_last().push(ws.last()));
        }
        r.push(w);
    }
    r
}

proof fn lemma_digits_value_grows(t: Seq<char>, k: int)
    requires
        0 <= k <= t.len(),
        all_digits(t),
    ensures
        digits_value(t.take(k)) <= digits_value(t),
        0 <= digits_value(t),
    decreases t.len(),
{
    if t.len() > 0 {
        let p = t.drop_last();
        if k == t.len() {
            assert(t.take(k) =~= t);
            lemma_digits_value_grows(p, 0);
        } else {
            assert(t.take(k) =~= p.take(k));
            lemma_digits_value_grows(p, k);
        }
        assert(is_ascii_digit(t.last()));
    }
}

proof fn lemma_all_digits_prefix(t: Seq<char>, k: int)
    requires
        0 <= k <= t.len(),
        all_digits(t),
    ensures
        all_digits(t.take(k)),
    decreases t.len(),
{
    if k < t.len() {
        assert(t.take(k) =~= t.drop_last().take(k));
        lemma_all_digits_prefix(t.drop_last(), k);
    } else {
        assert(t.take(k) =~= t);
    }
}

/// `i32::from_str` on characters.
pub(crate) fn parse_i32_chars(w: &[char]) -> (r: Option<i32>)
    ensures
        r == parse_i32(w@),
{
    let n = w.len();
    let neg = n > 0 && w[0] == '-';
    let skip: usize = if n > 0 && (w[0] == '-' || w[0] == '+') {
        1
    } else {
        0
    };
    let ghost d = if w@.len() > 0 && (w@[0] == '-' || w@[0] == '+') {
        w@.drop_first()
    } else {
        w@
    };
    proof {
        assert(d =~= w@.subrange(skip as int, n as int));
    }
    if skip >= n {
        return None;
    }
    let mut acc: i64 = 0;
    let mut i = skip;
    proof {
        assert(d.take(0) =~= Seq::<char>::empty());
    }
    while i < n
        invariant
            n == w@.len(),
            skip <= i <= n,
            d == w@.subrange(skip as int, n as int),
            d == (if w@.len() > 0 && (w@[0] == '-' || w@[0] == '+') {
                w@.drop_first()
            } else {
                w@
            }),
            all_digits(d.take(i - skip)),
            acc == digits_value(d.take(i - skip)),
            0 <= acc <= 2147483648,
        decreases n - i,
    {
        let c = w[i];
        if !('0' <= c && c <= '9') {
            assert(d[i - skip] == c);
            assert(!is_ascii_digit(d[i - skip]));
            proof {
                if all_digits(d) {
                    lemma_all_digits_prefix(d, i - skip + 1);
                    assert(d.take(i - skip + 1).last() == d[i - skip]);
                }
            }
            return None;
        }
        proof {
            assert(d.take(i - skip + 1).drop_last() =~= d.take(i - skip));
            assert(d.take(i - skip + 1).last() == c);
        }
        acc = acc * 10 + (c as i64 - 48);
        i = i + 1;
        assert(acc == digits_value(d.take(i - skip)));
        if acc > 2147483648 {
            proof {
                if all_digits(d) {
                    lemma_digits_value_grows(d, i - skip);
                    assert(digits_value(d) > 2147483648);
                }
            }
            return None;
        }
    }
    proof {
        assert(d.take(d.len() as int) =~= d);
    }
    let v: i64 = if neg {
        -acc
    } else {
        acc
    };
    if v < -2147483648 || v > 2147483647 {
        None
    } else {
        Some(v as i32)
    }
}

fn field_value_exec(w: &[char]) -> (r: Option<Option<i32>>)
    ensures
        r == field_value(w@),
{
    if w.len() == 1 && (w[0] == 'x' || w[0] == 'X') {
        assert(w@ =~= seq![w@[0]]);
        return Some(None);
    }
    proof {
        if w@.len() == 1 {
            assert(w@ != seq!['x'] && w@ != seq!['X']) by {
                if w@ == seq!['x'] {
                    assert(w@[0] == 'x');
                }
                if w@ == seq!['X'] {
                    assert(w@[0] == 'X');
                }
            }
        }
    }
    match parse_i32_chars(w) {
        Some(v) => Some(Some(v)),
        None => None,
    }
}

/// Parse a single voicing line like "x 0 2 2 2 0".
pub fn parse_voicing(line: &str) -> (r: Option<Voicing>)
    ensures
        match r {
            Some(v) => voicing_of(line@) == Some(v@),
            None => voicing_of(line@) is None,
        },
{
    let chars = chars_of(line);
    parse_voicing_chars(&chars)
}

fn parse_voicing_chars(line: &[char]) -> (r: Option<Voicing>)
    ensures
        match r {
            Some(v) => voicing_of(line@) == Some(v@),
            None => voicing_of(line@) is None,
        },
{
    let parts = split_words(line);
    let ghost ws = words(line@);
    proof {
        assert(parts@.len() == ws.len());
    }
    if parts.len() != 6 {
        return None;
    }
    let mut vals: Vec<Option<i32>> = Vec::new();
    let mut i: usize = 0;
    while i < 6
        invariant
            parts@.len() == 6,
            ws == parts@.map_values(|w: Vec<char>| w@),
            ws == words(line@),
            i <= 6,
            vals@.len() == i,
            forall|j: int| 0 <= j < i ==> field_value(#[trigger] ws[j]) == Some(vals@[j]),
            ws.len() == 6,
        decreases 6 - i,
    {
        assert(ws[i as int] == parts@[i as int]@);
        match field_value_exec(&parts[i]) {
            Some(f) => {
                vals.push(f);
            },
            None => {
                proof {
                    let k = i as int;
                    if k == 0 {
                    } else if k == 1 {
                    } else if k == 2 {
                    } else if k == 3 {
                    } else if k == 4 {
                    } else {
                        assert(k == 5);
                    }
                }
                return None;
            },
        }
        i = i + 1;
    }
    let v: Voicing = [vals[0], vals[1], vals[2], vals[3], vals[4], vals[5]];
    assert(v@ =~= Seq::new(6, |i: int| field_value(ws[i])->0));
    Some(v)
}

// ---------------------------------------------------------------------------
// The chord table
// ---------------------------------------------------------------------------

/// Abstract chord table: names with their voicings, in the order names first appear.
pub type DbView = Seq<(Seq<char>, Seq<Seq<Option<i32>>>)>;

/// First index of an entry named `k`, searching from `i`.
pub open spec fn find_key_from(db: DbView, k: Seq<char>, i: int) -> Option<int>
    decreases db.len() - i,
{
    if i < 0 || i >= db.len() {
        None
    } else if db[i].0 == k {
        Some(i)
    } else {
        find_key_from(db, k, i + 1)
    }
}

/// First index of an entry whose lower-cased name is `l`, searching from `i`.
pub open spec fn find_lower_from(db: DbView, l: Seq<char>, i: int) -> Option<int>
    decreases db.len() - i,
{
    if i < 0 || i >= db.len() {
        None
    } else if lowercase(db[i].0) == l {
        Some(i)
    } else {
        find_lower_from(db, l, i + 1)
    }
}

/// The table with `k` mapped to `v`: an existing entry keeps its place.
pub open spec fn db_insert(db: DbView, k: Seq<char>, v: Seq<Seq<Option<i32>>>) -> DbView {
    match find_key_from(db, k, 0) {
        Some(i) => db.update(i, (k, v)),
        None => db.push((k, v)),
    }
}

/// Reading state: the table so far, the name of the chord being read, its voicings.
pub struct DbState {
    pub db: DbView,
    pub name: Option<Seq<char>>,
    pub cur: Seq<Seq<Option<i32>>>,
}

/// One line of the chord file: an empty line ends a chord (kept if it has voicings),
/// the first line of a chord is its name, later lines that read as voicings are added.
pub open spec fn db_step(st: DbState, line: Seq<char>) -> DbState {
    let t = trim(line);
    if t.len() == 0 {
        match st.name {
            Some(n) => if st.cur.len() > 0 {
                DbState { db: db_insert(st.db, n, st.cur), name: None, cur: Seq::empty() }
            } else {
                DbState { db: st.db, name: None, cur: st.cur }
            },
            None => st,
        }
    } else if st.name is None {
        DbState { db: st.db, name: Some(t), cur: st.cur }
    } else {
        match voicing_of(t) {
            Some(v) => DbState { db: st.db, name: st.name, cur: st.cur.push(v) },
            None => st,
        }
    }
}

pub open spec fn db_fold(lines: Seq<Seq<char>>) -> DbState
    decreases lines.len(),
{
    if lines.len() == 0 {
        DbState { db: Seq::empty(), name: None, cur: Seq::empty() }
    } else {
        db_step(db_fold(lines.drop_last()), lines.last())
    }
}

/// The chord table a chord file describes.
pub open spec fn parse_db_spec(text: Seq<char>) -> DbView {
    let st = db_fold(split_lines(text));
    match st.name {
        Some(n) => if st.cur.len() > 0 {
            db_insert(st.db, n, st.cur)
        } else {
            st.db
        },
        None => st.db,
    }
}

/// The voicings stored for `name`: exact name first, else the first entry whose
/// lower-cased name equals the lower-cased `name`.
pub open spec fn lookup(db: DbView, name: Seq<char>) -> Option<Seq<Seq<Option<i32>>>> {
    match find_key_from(db, name, 0) {
        Some(i) => Some(db[i].1),
        None => match find_lower_from(db, lowercase(name), 0) {
            Some(i) => Some(db[i].1),
            None => None,
        },
    }
}

/// First voicing found for `name`.
pub open spec fn first_voicing(db: DbView, name: Seq<char>) -> Option<Seq<Option<i32>>> {
    match lookup(db, name) {
        Some(vs) => if vs.len() > 0 {
            Some(vs[0])
        } else {
            None
        },
        None => None,
    }
}

/// All voicings found for `name` (none if the name is unknown).
pub open spec fn all_voicings(db: DbView, name: Seq<char>) -> Seq<Seq<Option<i32>>> {
    match lookup(db, name) {
        Some(vs) => vs,
        None => Seq::empty(),
    }
}

/// One chord of the table.
pub struct ChordEntry {
    pub name: String,
    pub voicings: Vec<Voicing>,
}

pub open spec fn voicing_views(vs: Seq<Voicing>) -> Seq<Seq<Option<i32>>> {
    vs.map_values(|v: Voicing| v@)
}

/// Parsed chord database: chord name → list of voicings (first = most common).
pub struct ChordDb {
    pub entries: Vec<ChordEntry>,
}

impl View for ChordDb {
    type V = DbView;

    open spec fn view(&self) -> DbView {
        self.entries@.map_values(|e: ChordEntry| (e.name@, voicing_views(e.voicings@)))
    }
}

fn copy_voicings(vs: &Vec<Voicing>) -> (r: Vec<Voicing>)
    ensures
        voicing_views(r@) == voicing_views(vs@),
{
    let mut r: Vec<Voicing> = Vec::new();
    let mut i: usize = 0;
    while i < vs.len()
        invariant
            i <= vs@.len(),
            voicing_views(r@) == voicing_views(vs@.take(i as int)),
        decreases vs@.len() - i,
    {
        let v: Voicing = vs[i];
        proof {
            assert(voicing_views(r@.push(v)) =~= voicing_views(r@).push(v@));
            assert(voicing_views(vs@.take(i + 1)) =~= voicing_views(vs@.take(i as int)).push(
                vs@[i as int]@,
            ));
        }
        r.push(v);
        i = i + 1;
    }
    assert(vs@.take(vs@.len() as int) =~= vs@);
    r
}

impl ChordDb {
    /// Index of the entry named exactly `name`.
    fn find_key(&self, name: &String) -> (r: Option<usize>)
        ensures
            match r {
                Some(j) => find_key_from(self@, name@, 0) == Some(j as int),
                None => find_key_from(self@, name@, 0) is None,
            },
    {
        let mut i: usize = 0;
        while i < self.entries.len()
            invariant
                i <= self.entries@.len(),
                find_key_from(self@, name@, 0) == find_key_from(self@, name@, i as int),
            decreases self.entries@.len() - i,
        {
            if self.entries[i].name == *name {
                return Some(i);
            }
            i = i + 1;
        }
        None
    }

    /// Index of the first entry whose lower-cased name is `lower`.
    fn find_lower(&self, lower: &String) -> (r: Option<usize>)
        ensures
            match r {
                Some(j) => find_lower_from(self@, lower@, 0) == Some(j as int),
                None => find_lower_from(self@, lower@, 0) is None,
            },
    {
        let mut i: usize = 0;
        while i < self.entries.len()
            invariant
                i <= self.entries@.len(),
                find_lower_from(self@, lower@, 0) == find_lower_from(self@, lower@, i as int),
            decreases self.entries@.len() - i,
        {
            let k = to_lowercase(self.entries[i].name.as_str());
            if k == *lower {
                return Some(i);
            }
            i = i + 1;
        }
        None
    }

    /// Maps `name` to `voicings`, in place if the name is already there.
    fn insert(&mut self, name: String, voicings: Vec<Voicing>)
        ensures
            final(self)@ == db_insert(old(self)@, name@, voicing_views(voicings@)),
    {
        proof {
            lemma_find_key_in_range(self@, name@, 0);
        }
        match self.find_key(&name) {
            Some(i) => {
                let ghost k = name@;
                let ghost vv = voicing_views(voicings@);
                self.entries.set(i, ChordEntry { name, voicings });
                assert(self@ =~= old(self)@.update(i as int, (k, vv)));
            },
            None => {
                let ghost k = name@;
                let ghost vv = voicing_views(voicings@);
                self.entries.push(ChordEntry { name, voicings });
                assert(self@ =~= old(self)@.push((k, vv)));
            },
        }
    }

    /// Number of chords in the table.
    pub fn len(&self) -> (n: usize)
        ensures
            n == self@.len(),
    {
        self.entries.len()
    }

    /// The voicings for `chord_name`: case-sensitive lookup first, then a
    /// case-insensitive fallback.
    fn lookup_index(&self, chord_name: &str) -> (r: Option<usize>)
        ensures
            match lookup(self@, chord_name@) {
                Some(vs) => r matches Some(i) && i < self@.len() && self@[i as int].1 == vs,
                None => r is None,
            },
    {
        let name = chord_name.to_owned();
        proof {
            lemma_find_key_in_range(self@, chord_name@, 0);
        }
        match self.find_key(&name) {
            Some(i) => {
                assert(lookup(self@, chord_name@) == Some(self@[i as int].1));
                Some(i)
            },
            None => {
                let lower = to_lowercase(chord_name);
                match self.find_lower(&lower) {
                    Some(i) => {
                        proof {
                            lemma_find_lower_in_range(self@, lower@, 0);
                        }
                        assert(lookup(self@, chord_name@) == Some(self@[i as int].1));
                        Some(i)
                    },
                    None => None,
                }
            },
        }
    }

    /// Look up the first (most common) voicing for a chord name.
    pub fn voicing(&self, chord_name: &str) -> (r: Option<Voicing>)
        ensures
            match first_voicing(self@, chord_name@) {
                Some(v) => r matches Some(x) && x@ == v,
                None => r is None,
            },
    {
        proof {
            lemma_find_key_in_range(self@, chord_name@, 0);
        }
        match self.lookup_index(chord_name) {
            Some(i) => {
                if self.entries[i].voicings.len() > 0 {
                    Some(self.entries[i].voicings[0])
                } else {
                    None
                }
            },
            None => None,
        }
    }

    /// Look up all voicings for a chord name.
    pub fn voicings(&self, chord_name: &str) -> (r: Vec<Voicing>)
        ensures
            voicing_views(r@) == all_voicings(self@, chord_name@),
    {
        proof {
            lemma_find_key_in_range(self@, chord_name@, 0);
        }
        match self.lookup_index(chord_name) {
            Some(i) => copy_voicings(&self.entries[i].voicings),
            None => {
                let r: Vec<Voicing> = Vec::new();
                assert(voicing_views(r@) =~= Seq::<Seq<Option<i32>>>::empty());
                r
            },
        }
    }

    /// The built-in chord table.
    pub fn load() -> (db: ChordDb)
        ensures
            db@ == parse_db_spec(chord_table_text()),
    {
        let text = chord_table_chars();
        parse_database_chars(&text)
    }
}

proof fn lemma_find_key_in_range(db: DbView, k: Seq<char>, i: int)
    ensures
        find_key_from(db, k, i) matches Some(j) ==> 0 <= j < db.len() && db[j].0 == k,
    decreases db.len() - i,
{
    if 0 <= i < db.len() && db[i].0 != k {
        lemma_find_key_in_range(db, k, i + 1);
    }
}

proof fn lemma_find_lower_in_range(db: DbView, l: Seq<char>, i: int)
    ensures
        find_lower_from(db, l, i) matches Some(j) ==> 0 <= j < db.len(),
    decreases db.len() - i,
{
    if 0 <= i < db.len() && lowercase(db[i].0) != l {
        lemma_find_lower_in_range(db, l, i + 1);
    }
}

/// The text of the built-in chord table.
pub open spec fn chord_table_text() -> Seq<char> {
    CHORDS_A@ + CHORDS_A_SHARP@ + CHORDS_B_FLAT@ + CHORDS_B@ + CHORDS_C@ + CHORDS_C_SHARP@ + CHORDS_D_FLAT@ + CHORDS_D@ + CHORDS_D_SHARP@ + CHORDS_E_FLAT@ + CHORDS_E@ + CHORDS_F@ + CHORDS_F_SHARP@ + CHORDS_G_FLAT@ + CHORDS_G@ + CHORDS_G_SHARP@ + CHORDS_A_FLAT@
}

fn chord_table_chars() -> (r: Vec<char>)
    ensures
        r@ == chord_table_text(),
{
    let mut v: Vec<char> = Vec::new();
    push_all(&mut v, &chars_of(CHORDS_A));
    push_all(&mut v, &chars_of(CHORDS_A_SHARP));
    push_all(&mut v, &chars_of(CHORDS_B_FLAT));
    push_all(&mut v, &chars_of(CHORDS_B));
    push_all(&mut v, &chars_of(CHORDS_C));
    push_all(&mut v, &chars_of(CHORDS_C_SHARP));
    push_all(&mut v, &chars_of(CHORDS_D_FLAT));
    push_all(&mut v, &chars_of(CHORDS_D));
    push_all(&mut v, &chars_of(CHORDS_D_SHARP));
    push_all(&mut v, &chars_of(CHORDS_E_FLAT));
    push_all(&mut v, &chars_of(CHORDS_E));
    push_all(&mut v, &chars_of(CHORDS_F));
    push_all(&mut v, &chars_of(CHORDS_F_SHARP));
    push_all(&mut v, &chars_of(CHORDS_G_FLAT));
    push_all(&mut v, &chars_of(CHORDS_G));
    push_all(&mut v, &chars_of(CHORDS_G_SHARP));
    push_all(&mut v, &chars_of(CHORDS_A_FLAT));
    assert(v@ =~= chord_table_text());
    v
}

/// Parse the chords.txt file format:
/// ```text
/// A
/// x 0 2 2 2 0
/// 5 7 7 6 5 5
///
/// Am
/// x 0 2 2 1 0
/// ...
/// ```
pub fn parse_database(text: &str) -> (db: ChordDb)
    ensures
        db@ == parse_db_spec(text@),
{
    let s = chars_of(text);
    parse_database_chars(&s)
}

/// The reading state held in `db`, `name` and `cur`.
pub open spec fn state_of(db: &ChordDb, name: &Option<String>, cur: &Vec<Voicing>) -> DbState {
    DbState {
        db: db@,
        name: match name {
            Some(x) => Some(x@),
            None => None,
        },
        cur: voicing_views(cur@),
    }
}

/// Reads one line of the chord file into the state.
fn feed_line(db: &mut ChordDb, name: &mut Option<String>, cur: &mut Vec<Voicing>, line: &[char])
    ensures
        state_of(final(db), final(name), final(cur)) == db_step(
            state_of(old(db), old(name), old(cur)),
            line@,
        ),
{
    let t = trim_chars(line);
    if t.len() == 0 {
        match name.take() {
            Some(nm) => {
                if cur.len() > 0 {
                    let mut vs: Vec<Voicing> = Vec::new();
                    std::mem::swap(&mut vs, cur);
                    db.insert(nm, vs);
                    assert(voicing_views(cur@) =~= Seq::<Seq<Option<i32>>>::empty());
                }
            },
            None => {},
        }
    } else if name.is_none() {
        *name = Some(crate::text::string_from_chars(&t));
    } else {
        match parse_voicing_chars(&t) {
            Some(v) => {
                proof {
                    assert(voicing_views(cur@.push(v)) =~= voicing_views(cur@).push(v@));
                }
                cur.push(v);
            },
            None => {},
        }
    }
}

/// `parse_database` on the characters of the text.
fn parse_database_chars(s: &[char]) -> (db: ChordDb)
    ensures
        db@ == parse_db_spec(s@),
{
    let n = s.len();
    let mut db = ChordDb { entries: Vec::new() };
    let mut name: Option<String> = None;
    let mut cur: Vec<Voicing> = Vec::new();
    let mut start: usize = 0;
    let mut i: usize = 0;
    proof {
        assert(s@.take(0) =~= Seq::<char>::empty());
        assert(db@ =~= Seq::<(Seq<char>, Seq<Seq<Option<i32>>>)>::empty());
        assert(voicing_views(cur@) =~= Seq::<Seq<Option<i32>>>::empty());
        assert(split_lines(Seq::<char>::empty()).drop_last() =~= Seq::<Seq<char>>::empty());
    }
    while i < n
        invariant
            n == s@.len(),
            start <= i <= n,
            split_lines(s@.take(i as int)).len() >= 1,
            state_of(&db, &name, &cur) == db_fold(split_lines(s@.take(i as int)).drop_last()),
            s@.subrange(start as int, i as int) == split_lines(s@.take(i as int)).last(),
        decreases n - i,
    {
        let ghost parts = split_lines(s@.take(i as int));
        proof {
            assert(s@.take(i + 1).drop_last() =~= s@.take(i as int));
            assert(s@.take(i + 1).last() == s@[i as int]);
        }
        if s[i] == '\n' {
            let line = sub_chars(s, start, i);
            feed_line(&mut db, &mut name, &mut cur, &line);
            proof {
                let np = split_lines(s@.take(i + 1));
                assert(np == parts.push(Seq::empty()));
                assert(np.drop_last() =~= parts);
                assert(parts =~= parts.drop_last().push(parts.last()));
                assert(s@.subrange(i + 1, i + 1) =~= Seq::<char>::empty());
            }
            start = i + 1;
        } else {
            proof {
                let np = parts.update(parts.len() - 1, parts.last().push(s@[i as int]));
                assert(np.drop_last() =~= parts.drop_last());
                assert(s@.subrange(start as int, i + 1) =~= s@.subrange(start as int, i as int).push(
                    s@[i as int],
                ));
            }
        }
        i = i + 1;
    }
    proof {
        assert(s@.take(n as int) =~= s@);
        let parts = split_lines(s@);
        assert(parts =~= parts.drop_last().push(parts.last()));
    }
    let line = sub_chars(s, start, n);
    feed_line(&mut db, &mut name, &mut cur, &line);
    match name {
        Some(nm) => {
            if cur.len() > 0 {
                db.insert(nm, cur);
            }
        },
        None => {},
    }
    db
}

/// Look up the first (most common) voicing for a chord name in the built-in table.
/// Case-sensitive lookup first, then case-insensitive fallback.
pub fn get_voicing(chord_name: &str) -> (r: Option<Voicing>)
    ensures
        match first_voicing(parse_db_spec(chord_table_text()), chord_name@) {
            Some(v) => r matches Some(x) && x@ == v,
            None => r is None,
        },
{
    ChordDb::load().voicing(chord_name)
}

/// Look up all voicings for a chord name in the built-in table.
pub fn get_all_voicings(chord_name: &str) -> (r: Vec<Voicing>)
    ensures
        voicing_views(r@) == all_voicings(parse_db_spec(chord_table_text()), chord_name@),
{
    ChordDb::load().voicings(chord_name)
}

/// Number of chords in the built-in table.
pub fn chord_count() -> (n: usize)
    ensures
        n == parse_db_spec(chord_table_text()).len(),
{
    ChordDb::load().len()
}

// ---------------------------------------------------------------------------
// Laws of the chord table
// ---------------------------------------------------------------------------

/// Every name occurs once in the table, and every entry holds at least one voicing.
pub open spec fn table_wf(db: DbView) -> bool {
    &&& forall|i: int, j: int| 0 <= i < j < db.len() ==> (#[trigger] db[i]).0 != (#[trigger] db[j]).0
    &&& forall|i: int| 0 <= i < db.len() ==> (#[trigger] db[i]).1.len() > 0
}

proof fn lemma_find_key(db: DbView, k: Seq<char>, i: int)
    requires
        0 <= i,
    ensures
        find_key_from(db, k, i) matches Some(j) ==> i <= j < db.len() && db[j].0 == k,
        find_key_from(db, k, i) is None ==> forall|j: int| i <= j < db.len() ==> db[j].0 != k,
    decreases db.len() - i,
{
    if i < db.len() && db[i].0 != k {
        lemma_find_key(db, k, i + 1);
    }
}

proof fn lemma_insert_wf(db: DbView, k: Seq<char>, v: Seq<Seq<Option<i32>>>)
    requires
        table_wf(db),
        v.len() > 0,
    ensures
        table_wf(db_insert(db, k, v)),
{
    lemma_find_key(db, k, 0);
    let r = db_insert(db, k, v);
    match find_key_from(db, k, 0) {
        Some(p) => {
            assert forall|i: int, j: int| 0 <= i < j < r.len() implies (#[trigger] r[i]).0 != (
            #[trigger] r[j]).0 by {
                assert(r[i].0 == db[i].0);
                assert(r[j].0 == db[j].0);
            }
        },
        None => {
            assert forall|i: int, j: int| 0 <= i < j < r.len() implies (#[trigger] r[i]).0 != (
            #[trigger] r[j]).0 by {
                if j == db.len() {
                    assert(r[i] == db[i]);
                } else {
                    assert(r[i] == db[i] && r[j] == db[j]);
                }
            }
        },
    }
}

proof fn lemma_fold_wf(lines: Seq<Seq<char>>)
    ensures
        table_wf(db_fold(lines).db),
        db_fold(lines).name is None ==> db_fold(lines).cur.len() == 0,
    decreases lines.len(),
{
    if lines.len() > 0 {
        lemma_fold_wf(lines.drop_last());
        let st = db_fold(lines.drop_last());
        let t = trim(lines.last());
        if t.len() == 0 {
            if let Some(n) = st.name {
                if st.cur.len() > 0 {
                    lemma_insert_wf(st.db, n, st.cur);
                }
            }
        }
    }
}

/// The table read from any chord file holds each chord name once, each with at least
/// one voicing.
pub proof fn law_chord_table_well_formed(text: Seq<char>)
    ensures
        table_wf(parse_db_spec(text)),
{
    let st = db_fold(split_lines(text));
    lemma_fold_wf(split_lines(text));
    if let Some(n) = st.name {
        if st.cur.len() > 0 {
            lemma_insert_wf(st.db, n, st.cur);
        }
    }
}

/// In a well formed table, the voicing looked up for a name is the first of all its
/// voicings, and there is one exactly when there are any.
pub proof fn law_first_voicing_heads_all(db: DbView, name: Seq<char>)
    requires
        table_wf(db),
    ensures
        first_voicing(db, name) is Some <==> all_voicings(db, name).len() > 0,
        all_voicings(db, name).len() > 0 ==> first_voicing(db, name) == Some(
            all_voicings(db, name)[0],
        ),
{
    lemma_find_key(db, name, 0);
    lemma_find_lower(db, lowercase(name), 0);
}

proof fn lemma_find_lower(db: DbView, l: Seq<char>, i: int)
    requires
        0 <= i,
    ensures
        find_lower_from(db, l, i) matches Some(j) ==> i <= j < db.len(),
    decreases db.len() - i,
{
    if i < db.len() && lowercase(db[i].0) != l {
        lemma_find_lower(db, l, i + 1);
    }
}

proof fn lemma_find_lower_first(db: DbView, l: Seq<char>, i: int, j: int)
    requires
        0 <= i <= j < db.len(),
        lowercase(db[j].0) == l,
        forall|m: int| i <= m < j ==> lowercase(#[trigger] db[m].0) != l,
    ensures
        find_lower_from(db, l, i) == Some(j),
    decreases j - i,
{
    if i < j {
        lemma_find_lower_first(db, l, i + 1, j);
    }
}

proof fn lemma_find_lower_none(db: DbView, l: Seq<char>, i: int)
    requires
        0 <= i,
        forall|m: int| i <= m < db.len() ==> lowercase(#[trigger] db[m].0) != l,
    ensures
        find_lower_from(db, l, i) is None,
    decreases db.len() - i,
{
    if i < db.len() {
        lemma_find_lower_none(db, l, i + 1);
    }
}

/// An exact name wins: when the table has a chord named exactly `name`, its
/// voicings are the ones looked up, and its first voicing the one shown, whatever
/// other chords differ from it only in case.
pub proof fn law_exact_name_wins(db: DbView, name: Seq<char>, i: int)
    requires
        table_wf(db),
        0 <= i < db.len(),
        db[i].0 == name,
    ensures
        all_voicings(db, name) == db[i].1,
        first_voicing(db, name) == Some(db[i].1[0]),
{
    lemma_find_key(db, name, 0);
    let j = find_key_from(db, name, 0)->0;
    if j != i {
        if j < i {
            assert(db[j].0 != db[i].0);
        } else {
            assert(db[i].0 != db[j].0);
        }
    }
}

/// Case is ignored only when no chord has the exact name: then the first chord whose
/// name has the same lower-case form is the one looked up, and with none, nothing is
/// found.
pub proof fn law_case_insensitive_fallback(db: DbView, name: Seq<char>)
    requires
        forall|m: int| 0 <= m < db.len() ==> (#[trigger] db[m]).0 != name,
    ensures
        forall|j: int|
            0 <= j < db.len() && lowercase(db[j].0) == lowercase(name) && (forall|m: int|
                0 <= m < j ==> lowercase(#[trigger] db[m].0) != lowercase(name)) ==> all_voicings(
                db,
                name,
            ) == (#[trigger] db[j]).1,
        (forall|m: int| 0 <= m < db.len() ==> lowercase(#[trigger] db[m].0) != lowercase(name))
            ==> all_voicings(db, name).len() == 0 && first_voicing(db, name) is None,
{
    lemma_find_key(db, name, 0);
    assert forall|j: int|
        0 <= j < db.len() && lowercase(db[j].0) == lowercase(name) && (forall|m: int|
            0 <= m < j ==> lowercase(#[trigger] db[m].0) != lowercase(name)) implies all_voicings(
        db,
        name,
    ) == (#[trigger] db[j]).1 by {
        lemma_find_lower_first(db, lowercase(name), 0, j);
    }
    if forall|m: int| 0 <= m < db.len() ==> lowercase(#[trigger] db[m].0) != lowercase(name) {
        lemma_find_lower_none(db, lowercase(name), 0);
    }
}

/// In the built-in table an exact name wins too: `get_voicing` and `get_all_voicings`
/// give the voicings of the chord named exactly `name` when there is one.
pub proof fn law_built_in_exact_name_wins(name: Seq<char>, i: int)
    requires
        0 <= i < parse_db_spec(chord_table_text()).len(),
        parse_db_spec(chord_table_text())[i].0 == name,
    ensures
        all_voicings(parse_db_spec(chord_table_text()), name) == parse_db_spec(chord_table_text())[i].1,
        first_voicing(parse_db_spec(chord_table_text()), name) == Some(
            parse_db_spec(chord_table_text())[i].1[0],
        ),
{
    law_chord_table_well_formed(chord_table_text());
    law_exact_name_wins(parse_db_spec(chord_table_text()), name, i);
}

} // verus!
