use vstd::prelude::*;
use crate::text::{chars_of, push_char};

verus! {

// ----- the line format: "<frequency>,<path>" -----

pub open spec fn is_digit(c: char) -> bool {
    '0' <= c && c <= '9'
}

pub open spec fn digit_value(c: char) -> nat {
    if c == '1' {
        1
    } else if c == '2' {
        2
    } else if c == '3' {
        3
    } else if c == '4' {
        4
    } else if c == '5' {
        5
    } else if c == '6' {
        6
    } else if c == '7' {
        7
    } else if c == '8' {
        8
    } else if c == '9' {
        9
    } else {
        0
    }
}

pub open spec fn digit_char(d: nat) -> char {
    if d == 1 {
        '1'
    } else if d == 2 {
        '2'
    } else if d == 3 {
        '3'
    } else if d == 4 {
        '4'
    } else if d == 5 {
        '5'
    } else if d == 6 {
        '6'
    } else if d == 7 {
        '7'
    } else if d == 8 {
        '8'
    } else if d == 9 {
        '9'
    } else {
        '0'
    }
}

pub open spec fn all_digits(s: Seq<char>) -> bool {
    forall|k: int| 0 <= k < s.len() ==> is_digit(#[trigger] s[k])
}

/// The number that a run of decimal digits writes.
pub open spec fn digits_value(s: Seq<char>) -> nat
    decreases s.len(),
{
    if s.len() == 0 {
        0
    } else {
        digits_value(s.drop_last()) * 10 + digit_value(s.last())
    }
}

/// The decimal digits of `n`, without leading zeros.
pub open spec fn decimal(n: nat) -> Seq<char>
    decreases n,
{
    if n < 10 {
        seq![digit_char(n)]
    } else {
        decimal(n / 10).push(digit_char(n % 10))
    }
}

/// Where `c` first occurs in `s`; the length of `s` where it does not.
pub open spec fn first_index_of(s: Seq<char>, c: char) -> int
    decreases s.len(),
{
    if s.len() == 0 {
        0
    } else if s[0] == c {
        0
    } else {
        1 + first_index_of(s.drop_first(), c)
    }
}

/// The digits of a number written with one optional `+` sign before them,
/// as `usize` parsing reads it.
pub open spec fn unsigned_digits(num: Seq<char>) -> Seq<char> {
    if num.len() > 0 && num[0] == '+' {
        num.drop_first()
    } else {
        num
    }
}

/// A record line read: the frequency is the integer before the first comma
/// (decimal digits, one `+` allowed before them), the path all that follows
/// that comma.
pub open spec fn parse_line(l: Seq<char>) -> Option<(Seq<char>, usize)> {
    let i = first_index_of(l, ',');
    let digits = unsigned_digits(l.subrange(0, i));
    let path = if i < l.len() {
        l.subrange(i + 1, l.len() as int)
    } else {
        Seq::empty()
    };
    if digits.len() > 0 && all_digits(digits) && digits_value(digits) <= usize::MAX {
        Some((path, digits_value(digits) as usize))
    } else {
        None
    }
}

/// The line that records `path` with its frequency.
pub open spec fn record_line(p: (Seq<char>, usize)) -> Seq<char> {
    decimal(p.1 as nat) + seq![','] + p.0
}

/// A line as read: a `\r` just before the `\n` that ends it is dropped.
pub open spec fn without_cr(l: Seq<char>) -> Seq<char> {
    if ends_with_cr(l) {
        l.drop_last()
    } else {
        l
    }
}

pub open spec fn ends_with_cr(l: Seq<char>) -> bool {
    l.len() > 0 && l.last() == '\r'
}

/// The lines of a text, each without the `\n` or `\r\n` that ends it; a
/// final `\n` ends the last line and does not start another.
pub open spec fn lines_of(t: Seq<char>) -> Seq<Seq<char>>
    decreases t.len(),
    via lines_of_decreases
{
    if t.len() == 0 {
        Seq::empty()
    } else {
        let i = first_index_of(t, '\n');
        if i >= t.len() {
            seq![t]
        } else {
            seq![without_cr(t.subrange(0, i))] + lines_of(t.subrange(i + 1, t.len() as int))
        }
    }
}

#[via_fn]
proof fn lines_of_decreases(t: Seq<char>) {
    lemma_first_index_bounds(t, '\n');
}

proof fn lemma_first_index_bounds(s: Seq<char>, c: char)
    ensures
        0 <= first_index_of(s, c) <= s.len(),
        first_index_of(s, c) < s.len() ==> s[first_index_of(s, c)] == c,
    decreases s.len(),
{
    if s.len() > 0 && s[0] != c {
        lemma_first_index_bounds(s.drop_first(), c);
    }
}

/// Lines joined with `\n` between them.
pub open spec fn join_lines(ls: Seq<Seq<char>>) -> Seq<char>
    decreases ls.len(),
{
    if ls.len() == 0 {
        Seq::empty()
    } else if ls.len() == 1 {
        ls[0]
    } else {
        ls[0] + seq!['\n'] + join_lines(ls.drop_first())
    }
}

/// The lines read in order into `m`, a later record of a path replacing an
/// earlier one; the first line that does not parse is the error.
pub open spec fn parse_lines(m: Map<Seq<char>, usize>, ls: Seq<Seq<char>>) -> Result<
    Map<Seq<char>, usize>,
    Seq<char>,
>
    decreases ls.len(),
{
    if ls.len() == 0 {
        Ok(m)
    } else {
        match parse_line(ls[0]) {
            Some(p) => parse_lines(m.insert(p.0, p.1), ls.drop_first()),
            None => Err(ls[0]),
        }
    }
}

/// What a history file's text reads as.
pub open spec fn parse_text(t: Seq<char>) -> Result<Map<Seq<char>, usize>, Seq<char>> {
    parse_lines(Map::empty(), lines_of(t))
}

/// The pairs, in order, put into `m`.
pub open spec fn pairs_map(m: Map<Seq<char>, usize>, ps: Seq<(Seq<char>, usize)>) -> Map<
    Seq<char>,
    usize,
>
    decreases ps.len(),
{
    if ps.len() == 0 {
        m
    } else {
        pairs_map(m.insert(ps[0].0, ps[0].1), ps.drop_first())
    }
}

pub open spec fn keys_unique(ps: Seq<(Seq<char>, usize)>) -> bool {
    forall|i: int, j: int| 0 <= i < j < ps.len() ==> (#[trigger] ps[i]).0 != (#[trigger] ps[j]).0
}

/// `t` is the text that stores `m`: one record line per path, in some order,
/// joined with `\n`.
pub open spec fn stores(t: Seq<char>, m: Map<Seq<char>, usize>) -> bool {
    exists|ps: Seq<(Seq<char>, usize)>|
        #![trigger pairs_map(Map::empty(), ps)]
        keys_unique(ps) && pairs_map(Map::empty(), ps) == m && t == join_lines(
            ps.map_values(|p: (Seq<char>, usize)| record_line(p)),
        )
}

pub open spec fn has_newline(s: Seq<char>) -> bool {
    exists|k: int| 0 <= k < s.len() && s[k] == '\n'
}

// ----- lemmas -----

proof fn lemma_first_index_of(s: Seq<char>, c: char, i: int)
    requires
        0 <= i <= s.len(),
        i < s.len() ==> s[i] == c,
        forall|k: int| 0 <= k < i ==> s[k] != c,
    ensures
        first_index_of(s, c) == i,
    decreases s.len(),
{
    if s.len() > 0 && i > 0 {
        lemma_first_index_of(s.drop_first(), c, i - 1);
    }
}

proof fn lemma_decimal(n: nat)
    ensures
        decimal(n).len() > 0,
        all_digits(decimal(n)),
        digits_value(decimal(n)) == n,
    decreases n,
{
    if n >= 10 {
        lemma_decimal(n / 10);
        let d = decimal(n / 10);
        assert(decimal(n).drop_last() =~= d);
        assert(decimal(n).last() == digit_char(n % 10));
        assert(n % 10 < 10);
        assert(digit_value(digit_char(n % 10)) == n % 10);
        assert(n == (n / 10) * 10 + n % 10);
        assert(digits_value(decimal(n)) == digits_value(d) * 10 + digit_value(decimal(n).last()));
    } else {
        assert(decimal(n).drop_last() =~= Seq::<char>::empty());
        assert(digits_value(decimal(n)) == digits_value(Seq::<char>::empty()) * 10 + digit_value(
            decimal(n).last(),
        ));
    }
}

proof fn lemma_parse_record_line(p: (Seq<char>, usize))
    ensures
        parse_line(record_line(p)) == Some(p),
        !has_newline(p.0) ==> !has_newline(record_line(p)),
        !ends_with_cr(p.0) ==> !ends_with_cr(record_line(p)),
        record_line(p).len() > 0,
{
    lemma_decimal(p.1 as nat);
    let d = decimal(p.1 as nat);
    let l = record_line(p);
    lemma_first_index_of(l, ',', d.len() as int);
    assert(l.subrange(0, d.len() as int) =~= d);
    assert(is_digit(d[0]));
    assert(unsigned_digits(d) == d);
    if p.0.len() > 0 {
        assert(l.last() == p.0.last());
    } else {
        assert(l.last() == ',');
    }
    assert(l.subrange(d.len() as int + 1, l.len() as int) =~= p.0);
    if !has_newline(p.0) {
        assert forall|k: int| 0 <= k < l.len() implies l[k] != '\n' by {
            if k > d.len() {
                assert(l[k] == p.0[k - d.len() - 1]);
            }
        }
    }
}

proof fn lemma_lines_of_join(ls: Seq<Seq<char>>)
    requires
        forall|k: int|
            0 <= k < ls.len() ==> (#[trigger] ls[k]).len() > 0 && !has_newline(ls[k])
                && !ends_with_cr(ls[k]),
    ensures
        lines_of(join_lines(ls)) == ls,
    decreases ls.len(),
{
    if ls.len() == 1 {
        lemma_first_index_of(ls[0], '\n', ls[0].len() as int);
        assert(seq![ls[0]] =~= ls);
    } else if ls.len() > 1 {
        let rest = ls.drop_first();
        assert forall|k: int| 0 <= k < rest.len() implies (#[trigger] rest[k]).len() > 0
            && !has_newline(rest[k]) && !ends_with_cr(rest[k]) by {
            assert(rest[k] == ls[k + 1]);
        }
        lemma_lines_of_join(rest);
        let t = join_lines(ls);
        let a = ls[0];
        assert(!has_newline(a));
        lemma_first_index_of(t, '\n', a.len() as int);
        assert(t.subrange(0, a.len() as int) =~= a);
        assert(without_cr(a) == a);
        assert(t.subrange(a.len() as int + 1, t.len() as int) =~= join_lines(rest));
        assert(seq![a] + rest =~= ls);
    }
}

proof fn lemma_parse_pairs(m: Map<Seq<char>, usize>, ps: Seq<(Seq<char>, usize)>)
    ensures
        parse_lines(m, ps.map_values(|p: (Seq<char>, usize)| record_line(p))) == Ok::<
            Map<Seq<char>, usize>,
            Seq<char>,
        >(pairs_map(m, ps)),
    decreases ps.len(),
{
    let ls = ps.map_values(|p: (Seq<char>, usize)| record_line(p));
    if ps.len() > 0 {
        lemma_parse_record_line(ps[0]);
        lemma_parse_pairs(m.insert(ps[0].0, ps[0].1), ps.drop_first());
        assert(ls.drop_first() =~= ps.drop_first().map_values(
            |p: (Seq<char>, usize)| record_line(p),
        ));
    }
}

/// What `pairs_map` holds when no path occurs twice: each pair's path
/// maps to its frequency, and other keys keep what `m` gave them.
pub proof fn lemma_pairs_map(m: Map<Seq<char>, usize>, ps: Seq<(Seq<char>, usize)>)
    requires
        keys_unique(ps),
    ensures
        forall|k: Seq<char>|
            #[trigger] pairs_map(m, ps).contains_key(k) <==> (m.contains_key(k) || exists|i: int|
                0 <= i < ps.len() && (#[trigger] ps[i]).0 == k),
        forall|i: int| 0 <= i < ps.len() ==> #[trigger] pairs_map(m, ps)[ps[i].0] == ps[i].1,
        forall|k: Seq<char>|
            (forall|i: int| 0 <= i < ps.len() ==> (#[trigger] ps[i]).0 != k) ==> #[trigger] pairs_map(
                m,
                ps,
            )[k] == m[k],
    decreases ps.len(),
{
    if ps.len() > 0 {
        let rest = ps.drop_first();
        let m2 = m.insert(ps[0].0, ps[0].1);
        assert forall|i: int, j: int| 0 <= i < j < rest.len() implies (#[trigger] rest[i]).0 != (
        #[trigger] rest[j]).0 by {
            assert(rest[i] == ps[i + 1] && rest[j] == ps[j + 1]);
        }
        lemma_pairs_map(m2, rest);
        assert(pairs_map(m, ps) == pairs_map(m2, rest));
        assert forall|k: Seq<char>| #[trigger] pairs_map(m, ps).contains_key(k) <==> (
        m.contains_key(k) || exists|i: int| 0 <= i < ps.len() && (#[trigger] ps[i]).0 == k) by {
            if exists|i: int| 0 <= i < rest.len() && (#[trigger] rest[i]).0 == k {
                let i = choose|i: int| 0 <= i < rest.len() && (#[trigger] rest[i]).0 == k;
                assert(ps[i + 1].0 == k);
            }
            if exists|i: int| 0 <= i < ps.len() && (#[trigger] ps[i]).0 == k {
                let i = choose|i: int| 0 <= i < ps.len() && (#[trigger] ps[i]).0 == k;
                if i > 0 {
                    assert(rest[i - 1].0 == k);
                }
            }
        }
        assert forall|i: int| 0 <= i < ps.len() implies #[trigger] pairs_map(m, ps)[ps[i].0]
            == ps[i].1 by {
            if i == 0 {
                assert forall|j: int| 0 <= j < rest.len() implies (#[trigger] rest[j]).0 != ps[0].0 by {
                    assert(rest[j] == ps[j + 1]);
                }
            } else {
                assert(rest[i - 1] == ps[i]);
            }
        }
        assert forall|k: Seq<char>|
            (forall|i: int| 0 <= i < ps.len() ==> (#[trigger] ps[i]).0 != k) implies #[trigger] pairs_map(
            m,
            ps,
        )[k] == m[k] by {
            assert forall|i: int| 0 <= i < rest.len() implies (#[trigger] rest[i]).0 != k by {
                assert(rest[i] == ps[i + 1]);
            }
            assert(ps[0].0 != k);
        }
    }
}

/// A stored history reads back as the same map, where no path holds a `\n`
/// or ends in a `\r` (which reading would take for part of a `\r\n`).
pub proof fn lemma_history_round_trip(t: Seq<char>, m: Map<Seq<char>, usize>)
    requires
        stores(t, m),
        forall|k: Seq<char>| #[trigger] m.contains_key(k) ==> !has_newline(k) && !ends_with_cr(k),
    ensures
        parse_text(t) == Ok::<Map<Seq<char>, usize>, Seq<char>>(m),
{
    let ps = choose|ps: Seq<(Seq<char>, usize)>|
        #![trigger pairs_map(Map::empty(), ps)]
        keys_unique(ps) && pairs_map(Map::empty(), ps) == m && t == join_lines(
            ps.map_values(|p: (Seq<char>, usize)| record_line(p)),
        );
    let ls = ps.map_values(|p: (Seq<char>, usize)| record_line(p));
    lemma_pairs_map(Map::empty(), ps);
    assert forall|k: int| 0 <= k < ls.len() implies (#[trigger] ls[k]).len() > 0 && !has_newline(
        ls[k],
    ) && !ends_with_cr(ls[k]) by {
        assert(m.contains_key(ps[k].0));
        lemma_parse_record_line(ps[k]);
    }
    lemma_lines_of_join(ls);
    lemma_parse_pairs(Map::empty(), ps);
}

} // verus!

verus! {

// ----- the store -----

/// One line of the history file: a directory and how often it was visited.
#[derive(Debug)]
pub struct HistoryRecord {
    pub path: String,
    pub frequency: usize,
}

/// Why the history could not be read or written.
#[derive(Debug)]
pub enum HistoryError {
    /// The file could not be read or written; the text says why.
    Io(String),
    /// A line (given here) does not start with a frequency.
    Parse(String),
}

/// Visit counts by directory path, held as records with no path twice
/// (vstd models `HashMap` keys of integer types only, not `String`).
pub struct History {
    records: Vec<HistoryRecord>,
}

pub open spec fn record_pair(r: HistoryRecord) -> (Seq<char>, usize) {
    (r.path@, r.frequency)
}

impl History {
    pub closed spec fn pairs(&self) -> Seq<(Seq<char>, usize)> {
        self.records@.map_values(|r: HistoryRecord| record_pair(r))
    }

    #[verifier::type_invariant]
    spec fn inv(&self) -> bool {
        keys_unique(self.pairs())
    }
}

impl View for History {
    type V = Map<Seq<char>, usize>;

    closed spec fn view(&self) -> Map<Seq<char>, usize> {
        pairs_map(Map::empty(), self.pairs())
    }
}

impl History {
    /// A history with no visits.
    pub fn new() -> (r: History)
        ensures
            r@ == Map::<Seq<char>, usize>::empty(),
    {
        let r = History { records: Vec::new() };
        assert(r.pairs() =~= Seq::<(Seq<char>, usize)>::empty());
        r
    }

    /// Where `path` stands among the records, if anywhere.
    fn index_of(&self, path: &String) -> (r: Option<usize>)
        ensures
            match r {
                Some(i) => i < self.pairs().len() && self.pairs()[i as int].0 == path@,
                None => forall|i: int|
                    0 <= i < self.pairs().len() ==> (#[trigger] self.pairs()[i]).0 != path@,
            },
    {
        let mut i: usize = 0;
        while i < self.records.len()
            invariant
                i <= self.records@.len(),
                self.pairs().len() == self.records@.len(),
                forall|k: int| 0 <= k < i ==> (#[trigger] self.pairs()[k]).0 != path@,
            decreases self.records@.len() - i,
        {
            if self.records[i].path == *path {
                return Some(i);
            }
            i += 1;
        }
        None
    }

    /// How often `path` was visited, if it was.
    pub fn frequency(&self, path: &str) -> (r: Option<usize>)
        ensures
            r == (if self@.contains_key(path@) {
                Some(self@[path@])
            } else {
                None::<usize>
            }),
    {
        proof {
            use_type_invariant(self);
            lemma_pairs_map(Map::empty(), self.pairs());
        }
        let p = String::from_str(path);
        match self.index_of(&p) {
            Some(i) => Some(self.records[i].frequency),
            None => None,
        }
    }
}


impl History {
    /// Records `frequency` for `path`, replacing what was recorded for it.
    pub fn insert(&mut self, path: String, frequency: usize)
        ensures
            final(self)@ == old(self)@.insert(path@, frequency),
    {
        proof {
            use_type_invariant(&*self);
        }
        let ghost old_pairs = self.pairs();
        let ghost k = path@;
        let found = self.index_of(&path);
        let mut recs: Vec<HistoryRecord> = Vec::new();
        core::mem::swap(&mut recs, &mut self.records);
        let ghost old_recs = recs@;
        match found {
            Some(i) => {
                recs.set(i, HistoryRecord { path, frequency });
            },
            None => {
                recs.push(HistoryRecord { path, frequency });
            },
        }
        let ghost new_pairs = recs@.map_values(|r: HistoryRecord| record_pair(r));
        proof {
            assert(old_pairs =~= old_recs.map_values(|r: HistoryRecord| record_pair(r)));
            match found {
                Some(i) => {
                    assert(new_pairs =~= old_pairs.update(i as int, (k, frequency)));
                },
                None => {
                    assert(new_pairs =~= old_pairs.push((k, frequency)));
                },
            }
            assert(keys_unique(new_pairs)) by {
                assert forall|a: int, b: int| 0 <= a < b < new_pairs.len() implies (
                #[trigger] new_pairs[a]).0 != (#[trigger] new_pairs[b]).0 by {
                    if b < old_pairs.len() && a != b {
                        if new_pairs[a] != old_pairs[a] {
                            assert(old_pairs[b] == new_pairs[b]);
                        } else if new_pairs[b] != old_pairs[b] {
                            assert(old_pairs[a] == new_pairs[a]);
                        }
                    }
                }
            }
            lemma_pairs_map(Map::empty(), old_pairs);
            lemma_pairs_map(Map::empty(), new_pairs);
            let before = pairs_map(Map::empty(), old_pairs);
            let after = pairs_map(Map::empty(), new_pairs);
            let want = before.insert(k, frequency);
            assert forall|q: Seq<char>| #[trigger] after.contains_key(q) <==> want.contains_key(q) by {
                if q != k {
                    if after.contains_key(q) {
                        let j = choose|j: int| 0 <= j < new_pairs.len() && (#[trigger] new_pairs[j]).0 == q;
                        assert(old_pairs[j].0 == q);
                    }
                    if before.contains_key(q) {
                        let j = choose|j: int| 0 <= j < old_pairs.len() && (#[trigger] old_pairs[j]).0 == q;
                        assert(new_pairs[j].0 == q);
                    }
                } else {
                    let j = if new_pairs.len() > old_pairs.len() {
                        old_pairs.len() as int
                    } else {
                        choose|j: int| 0 <= j < old_pairs.len() && old_pairs[j].0 == k
                    };
                    assert(new_pairs[j].0 == k);
                }
            }
            assert forall|q: Seq<char>| #[trigger] after.contains_key(q) implies after[q] == want[q] by {
                if q == k {
                    let j = choose|j: int| 0 <= j < new_pairs.len() && (#[trigger] new_pairs[j]).0 == q;
                    assert(new_pairs[j] == (k, frequency));
                } else {
                    let j = choose|j: int| 0 <= j < new_pairs.len() && (#[trigger] new_pairs[j]).0 == q;
                    assert(old_pairs[j] == new_pairs[j]);
                }
            }
            assert(after =~= want);
        }
        self.records = recs;
        proof {
            assert(self.pairs() =~= new_pairs);
        }
    }
}

/// Counts one more visit to `path`: one where it was never visited, else one
/// more than before (staying at the largest count once it is reached).
pub fn increment_history(history: &mut History, path: String)
    ensures
        final(history)@ == visited(old(history)@, path@),
{
    let next = match history.frequency(path.as_str()) {
        Some(f) => f.saturating_add(1),
        None => 1,
    };
    history.insert(path, next);
}

/// The counts after one more visit to `path`.
pub open spec fn visited(h: Map<Seq<char>, usize>, path: Seq<char>) -> Map<Seq<char>, usize> {
    h.insert(
        path,
        if h.contains_key(path) {
            saturating_inc(h[path])
        } else {
            1
        },
    )
}

pub open spec fn saturating_inc(n: usize) -> usize {
    if n == usize::MAX {
        n
    } else {
        (n + 1) as usize
    }
}


// ----- reading and writing the text -----

fn digit_of(c: char) -> (r: Option<usize>)
    ensures
        r == (if is_digit(c) {
            Some(digit_value(c) as usize)
        } else {
            None::<usize>
        }),
{
    match c {
        '0' => Some(0),
        '1' => Some(1),
        '2' => Some(2),
        '3' => Some(3),
        '4' => Some(4),
        '5' => Some(5),
        '6' => Some(6),
        '7' => Some(7),
        '8' => Some(8),
        '9' => Some(9),
        _ => None,
    }
}

fn digit_char_of(d: usize) -> (r: char)
    requires
        d < 10,
    ensures
        r == digit_char(d as nat),
{
    if d == 0 {
        '0'
    } else if d == 1 {
        '1'
    } else if d == 2 {
        '2'
    } else if d == 3 {
        '3'
    } else if d == 4 {
        '4'
    } else if d == 5 {
        '5'
    } else if d == 6 {
        '6'
    } else if d == 7 {
        '7'
    } else if d == 8 {
        '8'
    } else if d == 9 {
        '9'
    } else {
        '9'
    }
}

/// `n` in decimal.
fn decimal_string(n: usize) -> (r: String)
    ensures
        r@ == decimal(n as nat),
    decreases n,
{
    if n < 10 {
        let mut s = String::new();
        push_char(&mut s, digit_char_of(n));
        assert(s@ =~= decimal(n as nat));
        s
    } else {
        let mut s = decimal_string(n / 10);
        push_char(&mut s, digit_char_of(n % 10));
        s
    }
}

/// The first position in `from..to` that holds `c`; `to` where none does.
fn find_char(cs: &Vec<char>, from: usize, to: usize, c: char) -> (r: usize)
    requires
        from <= to <= cs@.len(),
    ensures
        from <= r <= to,
        r < to ==> cs@[r as int] == c,
        forall|k: int| from <= k < r ==> cs@[k] != c,
{
    let mut i = from;
    while i < to && cs[i] != c
        invariant
            from <= i <= to <= cs@.len(),
            forall|k: int| from <= k < i ==> cs@[k] != c,
        decreases to - i,
    {
        i += 1;
    }
    i
}

/// The characters of `cs` in `from..to`, as a string.
fn string_of(cs: &Vec<char>, from: usize, to: usize) -> (r: String)
    requires
        from <= to <= cs@.len(),
    ensures
        r@ == cs@.subrange(from as int, to as int),
{
    let mut s = String::new();
    let mut i = from;
    while i < to
        invariant
            from <= i <= to <= cs@.len(),
            s@ == cs@.subrange(from as int, i as int),
        decreases to - i,
    {
        push_char(&mut s, cs[i]);
        assert(s@ =~= cs@.subrange(from as int, i + 1));
        i += 1;
    }
    s
}

/// The number that the digits in `from..to` write, if they are one or more
/// digits and the number fits in `usize`.
fn parse_digits(cs: &Vec<char>, from: usize, to: usize) -> (r: Option<usize>)
    requires
        from <= to <= cs@.len(),
    ensures
        ({
            let num = cs@.subrange(from as int, to as int);
            r == (if num.len() > 0 && all_digits(num) && digits_value(num) <= usize::MAX {
                Some(digits_value(num) as usize)
            } else {
                None::<usize>
            })
        }),
{
    let mut v: usize = 0;
    let mut overflow = false;
    let mut i = from;
    assert(cs@.subrange(from as int, from as int) =~= Seq::<char>::empty());
    while i < to
        invariant
            from <= i <= to <= cs@.len(),
            all_digits(cs@.subrange(from as int, i as int)),
            !overflow ==> v == digits_value(cs@.subrange(from as int, i as int)),
            overflow ==> digits_value(cs@.subrange(from as int, i as int)) > usize::MAX,
        decreases to - i,
    {
        let pre = Ghost(cs@.subrange(from as int, i as int));
        let next = Ghost(cs@.subrange(from as int, i + 1));
        proof {
            assert(next@.drop_last() =~= pre@);
            assert(next@.last() == cs@[i as int]);
        }
        match digit_of(cs[i]) {
            None => {
                proof {
                    let whole = cs@.subrange(from as int, to as int);
                    assert(whole[i - from] == cs@[i as int]);
                }
                return None;
            },
            Some(d) => {
                assert(digits_value(next@) == digits_value(pre@) * 10 + d);
                if !overflow {
                    match v.checked_mul(10) {
                        Some(v10) => match v10.checked_add(d) {
                            Some(w) => {
                                v = w;
                            },
                            None => {
                                overflow = true;
                            },
                        },
                        None => {
                            overflow = true;
                        },
                    }
                }
                assert(all_digits(next@)) by {
                    assert forall|k: int| 0 <= k < next@.len() implies is_digit(#[trigger] next@[k]) by {
                        if k < pre@.len() {
                            assert(next@[k] == pre@[k]);
                        }
                    }
                }
            },
        }
        i += 1;
    }
    if i == from || overflow {
        None
    } else {
        Some(v)
    }
}

/// The record that the line in `from..to` of `cs` holds, if it holds one.
fn parse_line_at(cs: &Vec<char>, from: usize, to: usize) -> (r: Option<HistoryRecord>)
    requires
        from <= to <= cs@.len(),
    ensures
        match parse_line(cs@.subrange(from as int, to as int)) {
            Some(p) => r is Some && record_pair(r->Some_0) == p,
            None => r is None,
        },
{
    let ghost l = cs@.subrange(from as int, to as int);
    let comma = find_char(cs, from, to, ',');
    proof {
        lemma_first_index_of(l, ',', comma - from);
        assert(l.subrange(0, comma - from) =~= cs@.subrange(from as int, comma as int));
        if comma < to {
            assert(l.subrange(comma - from + 1, l.len() as int) =~= cs@.subrange(comma + 1, to as int));
        }
    }
    let start = if comma > from && cs[from] == '+' {
        from + 1
    } else {
        from
    };
    proof {
        let num = cs@.subrange(from as int, comma as int);
        if start > from {
            assert(num.drop_first() =~= cs@.subrange(start as int, comma as int));
        }
        assert(unsigned_digits(num) == cs@.subrange(start as int, comma as int));
    }
    match parse_digits(cs, start, comma) {
        None => None,
        Some(frequency) => {
            let path = if comma < to {
                string_of(cs, comma + 1, to)
            } else {
                String::new()
            };
            Some(HistoryRecord { path, frequency })
        },
    }
}

/// The record that one line of a history file holds: the frequency before
/// the first comma, the path after it. `None` where no frequency starts it.
pub fn parse_record(line: &str) -> (r: Option<HistoryRecord>)
    ensures
        match parse_line(line@) {
            Some(p) => r is Some && record_pair(r->Some_0) == p,
            None => r is None,
        },
{
    let cs = chars_of(line);
    assert(cs@.subrange(0, cs@.len() as int) =~= line@);
    parse_line_at(&cs, 0, cs.len())
}

/// Reads the text of a history file. Each line records one path; where a
/// path is recorded twice the later line counts. The first line that does
/// not start with a frequency is the error.
pub fn parse_history(text: &str) -> (r: Result<History, HistoryError>)
    ensures
        match parse_text(text@) {
            Ok(m) => r is Ok && r->Ok_0@ == m,
            Err(l) => r is Err && r->Err_0 is Parse && r->Err_0->Parse_0@ == l,
        },
{
    let cs = chars_of(text);
    let n = cs.len();
    let mut h = History::new();
    let mut pos: usize = 0;
    assert(cs@.subrange(0, n as int) =~= text@);
    while pos < n
        invariant
            n == cs@.len(),
            pos <= n,
            parse_text(text@) == parse_lines(h@, lines_of(cs@.subrange(pos as int, n as int))),
        decreases n - pos,
    {
        let end = find_char(&cs, pos, n, '\n');
        let line_end = if end < n && end > pos && cs[end - 1] == '\r' {
            end - 1
        } else {
            end
        };
        let ghost rest = cs@.subrange(pos as int, n as int);
        proof {
            let full = cs@.subrange(pos as int, end as int);
            if line_end < end {
                assert(full.drop_last() =~= cs@.subrange(pos as int, line_end as int));
            }
            if end < n {
                assert(without_cr(full) == cs@.subrange(pos as int, line_end as int));
            } else {
                assert(full == cs@.subrange(pos as int, line_end as int));
            }
            lemma_first_index_of(rest, '\n', end - pos);
            assert(rest.subrange(0, end - pos) =~= cs@.subrange(pos as int, end as int));
            let ls = lines_of(rest);
            if end < n {
                assert(rest.subrange(end - pos + 1, rest.len() as int) =~= cs@.subrange(end + 1, n as int));
                assert(ls == seq![without_cr(cs@.subrange(pos as int, end as int))] + lines_of(
                    cs@.subrange(end + 1, n as int),
                ));
                assert(ls.drop_first() =~= lines_of(cs@.subrange(end + 1, n as int)));
            } else {
                assert(rest.subrange(0, end - pos) =~= rest);
                assert(cs@.subrange(n as int, n as int) =~= Seq::<char>::empty());
                assert(ls == seq![rest]);
                assert(ls.drop_first() =~= lines_of(cs@.subrange(n as int, n as int)));
            }
            assert(ls[0] == cs@.subrange(pos as int, line_end as int));
        }
        match parse_line_at(&cs, pos, line_end) {
            None => {
                return Err(HistoryError::Parse(string_of(&cs, pos, line_end)));
            },
            Some(rec) => {
                h.insert(rec.path, rec.frequency);
            },
        }
        pos = if end < n {
            end + 1
        } else {
            n
        };
    }
    proof {
        assert(cs@.subrange(n as int, n as int) =~= Seq::<char>::empty());
    }
    Ok(h)
}

proof fn lemma_join_push(ls: Seq<Seq<char>>, x: Seq<char>)
    requires
        ls.len() > 0,
    ensures
        join_lines(ls.push(x)) == join_lines(ls) + seq!['\n'] + x,
    decreases ls.len(),
{
    assert(ls.push(x)[0] == ls[0]);
    if ls.len() == 1 {
        assert(ls.push(x).drop_first() =~= seq![x]);
        assert(join_lines(seq![x]) == x);
    } else {
        lemma_join_push(ls.drop_first(), x);
        assert(ls.push(x).drop_first() =~= ls.drop_first().push(x));
        assert(join_lines(ls.push(x)) =~= join_lines(ls) + seq!['\n'] + x);
    }
}

impl History {
    /// The text of the history file: one line `<frequency>,<path>` per path,
    /// joined with `\n`, in no promised order.
    pub fn to_text(&self) -> (r: String)
        ensures
            stores(r@, self@),
    {
        proof {
            use_type_invariant(self);
        }
        let ghost ps = self.pairs();
        let ghost ls = ps.map_values(|p: (Seq<char>, usize)| record_line(p));
        let mut text = String::new();
        let mut i: usize = 0;
        while i < self.records.len()
            invariant
                i <= self.records@.len(),
                ps == self.pairs(),
                ps.len() == self.records@.len(),
                ls == ps.map_values(|p: (Seq<char>, usize)| record_line(p)),
                text@ == join_lines(ls.subrange(0, i as int)),
            decreases self.records@.len() - i,
        {
            let ghost before = text@;
            if i > 0 {
                push_char(&mut text, '\n');
            }
            let num = decimal_string(self.records[i].frequency);
            text.append(num.as_str());
            push_char(&mut text, ',');
            text.append(self.records[i].path.as_str());
            proof {
                assert(ps[i as int] == record_pair(self.records@[i as int]));
                let line = ls[i as int];
                assert(line == record_line(ps[i as int]));
                assert(ls.subrange(0, i + 1) =~= ls.subrange(0, i as int).push(line));
                if i > 0 {
                    lemma_join_push(ls.subrange(0, i as int), line);
                    assert(text@ =~= before + seq!['\n'] + line);
                } else {
                    assert(text@ =~= line);
                    assert(join_lines(ls.subrange(0, 1)) == ls.subrange(0, 1)[0]);
                }
            }
            i += 1;
        }
        proof {
            assert(ls.subrange(0, ls.len() as int) =~= ls);
            assert(pairs_map(Map::empty(), ps) == self@);
        }
        text
    }
}

} // verus!
