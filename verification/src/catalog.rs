//! Text format of the extended bright-star catalog: one star per line,
//! `id,name,ra_rad,dec_rad,mag,bv`, with blank lines and `#` comments
//! skipped. This module reads the line structure and the integer id; the
//! four numeric columns are handed on as trimmed text for the caller to
//! read as numbers.

use vstd::prelude::*;

use crate::text::{
    char_is_whitespace, chars_of, is_white_space, lemma_trim_end_skip, lemma_trim_start_skip,
    push_char, trimmed,
};

verus! {

/// Offset of the first `sep` in `s`, or `s.len()` when there is none.
pub open spec fn find_sep(s: Seq<char>, sep: char) -> int
    decreases s.len(),
{
    if s.len() == 0 {
        0
    } else if s[0] == sep {
        0
    } else {
        1 + find_sep(s.drop_first(), sep)
    }
}

proof fn lemma_find_sep_bounds(s: Seq<char>, sep: char)
    ensures
        0 <= find_sep(s, sep) <= s.len(),
        find_sep(s, sep) < s.len() ==> s[find_sep(s, sep)] == sep,
        forall|j: int| 0 <= j < find_sep(s, sep) ==> s[j] != sep,
    decreases s.len(),
{
    if s.len() > 0 && s[0] != sep {
        lemma_find_sep_bounds(s.drop_first(), sep);
        assert forall|j: int| 0 <= j < find_sep(s, sep) implies s[j] != sep by {
            if j > 0 {
                assert(s[j] == s.drop_first()[j - 1]);
            }
        }
    }
}

proof fn lemma_find_sep_at(s: Seq<char>, sep: char, m: int)
    requires
        0 <= m <= s.len(),
        forall|j: int| 0 <= j < m ==> s[j] != sep,
        m < s.len() ==> s[m] == sep,
    ensures
        find_sep(s, sep) == m,
    decreases m,
{
    if m > 0 {
        assert forall|j: int| 0 <= j < m - 1 implies s.drop_first()[j] != sep by {
            assert(s.drop_first()[j] == s[j + 1]);
        }
        if m < s.len() {
            assert(s.drop_first()[m - 1] == s[m]);
        }
        lemma_find_sep_at(s.drop_first(), sep, m - 1);
    }
}

/// The pieces of `s` between occurrences of `sep` (what `str::split`
/// yields); there is always at least one piece.
pub open spec fn split_on(s: Seq<char>, sep: char) -> Seq<Seq<char>>
    decreases s.len(),
{
    let i = find_sep(s, sep);
    if i < 0 || i >= s.len() {
        seq![s]
    } else {
        seq![s.take(i)] + split_on(s.skip(i + 1), sep)
    }
}

/// Value of a run of ASCII digits.
pub open spec fn digits_value(d: Seq<char>) -> int
    decreases d.len(),
{
    if d.len() == 0 {
        0
    } else {
        digits_value(d.drop_last()) * 10 + ((d.last() as u32) - 48)
    }
}

/// Whether `c` is an ASCII decimal digit.
pub open spec fn is_digit(c: char) -> bool {
    '0' <= c <= '9'
}

/// `s` without one leading `+` sign.
pub open spec fn unsigned_part(s: Seq<char>) -> Seq<char> {
    if s.len() > 0 && s[0] == '+' {
        s.drop_first()
    } else {
        s
    }
}

/// Whether every character of `d` is an ASCII digit.
pub open spec fn all_digits(d: Seq<char>) -> bool {
    forall|k: int| 0 <= k < d.len() ==> is_digit(#[trigger] d[k])
}

/// What `str::parse::<u32>` accepts: an optional `+`, then one or more
/// ASCII digits whose value fits a `u32`.
pub open spec fn parse_u32_text(s: Seq<char>) -> Option<u32> {
    let d = unsigned_part(s);
    if d.len() > 0 && all_digits(d) && digits_value(d) <= u32::MAX {
        Some(digits_value(d) as u32)
    } else {
        None
    }
}

/// One parsed catalog line: the star id and name, and the trimmed text of
/// the right ascension (radians), declination (radians), visual magnitude
/// and B-V colour index columns.
#[derive(Debug)]
pub struct CatalogRow {
    pub id: u32,
    pub name: String,
    pub ra: String,
    pub dec: String,
    pub magnitude: String,
    pub color_index: String,
}

/// Mathematical content of a [`CatalogRow`].
pub struct RowView {
    pub id: u32,
    pub name: Seq<char>,
    pub ra: Seq<char>,
    pub dec: Seq<char>,
    pub magnitude: Seq<char>,
    pub color_index: Seq<char>,
}

impl View for CatalogRow {
    type V = RowView;

    open spec fn view(&self) -> RowView {
        RowView {
            id: self.id,
            name: self.name@,
            ra: self.ra@,
            dec: self.dec@,
            magnitude: self.magnitude@,
            color_index: self.color_index@,
        }
    }
}

/// The row a catalog line yields: none for a blank line, a `#` comment, a
/// line with fewer than six comma-separated fields, or an id that is not
/// a `u32`; otherwise the trimmed fields (columns past the sixth are
/// ignored).
pub open spec fn catalog_row(line: Seq<char>) -> Option<RowView> {
    let t = trimmed(line);
    if t.len() == 0 || t[0] == '#' {
        None
    } else {
        let f = split_on(t, ',');
        if f.len() < 6 {
            None
        } else {
            match parse_u32_text(trimmed(f[0])) {
                None => None,
                Some(id) => Some(
                    RowView {
                        id,
                        name: trimmed(f[1]),
                        ra: trimmed(f[2]),
                        dec: trimmed(f[3]),
                        magnitude: trimmed(f[4]),
                        color_index: trimmed(f[5]),
                    },
                ),
            }
        }
    }
}

/// Rows of a sequence of lines, in order.
pub open spec fn rows_of(lines: Seq<Seq<char>>) -> Seq<RowView>
    decreases lines.len(),
{
    if lines.len() == 0 {
        seq![]
    } else {
        let prev = rows_of(lines.drop_last());
        match catalog_row(lines.last()) {
            Some(r) => prev.push(r),
            None => prev,
        }
    }
}

/// Rows of a whole catalog text. Lines are split at `\n`; a `\r` before it
/// is white space and goes with the trimming of each line.
pub open spec fn catalog_rows(text: Seq<char>) -> Seq<RowView> {
    rows_of(split_on(text, '\n'))
}

/// Views of a sequence of rows.
pub open spec fn row_views(v: Seq<CatalogRow>) -> Seq<RowView> {
    v.map_values(|r: CatalogRow| r@)
}

/// First index in `from..to` holding `sep`, or `to`.
fn next_sep(cs: &Vec<char>, from: usize, to: usize, sep: char) -> (k: usize)
    requires
        from <= to <= cs@.len(),
    ensures
        from <= k <= to,
        k == from + find_sep(cs@.subrange(from as int, to as int), sep),
{
    let mut k = from;
    while k < to && cs[k] != sep
        invariant
            from <= k <= to,
            to <= cs@.len(),
            forall|j: int| from <= j < k ==> cs@[j] != sep,
        decreases to - k,
    {
        k = k + 1;
    }
    let ghost sub = cs@.subrange(from as int, to as int);
    proof {
        assert forall|j: int| 0 <= j < k - from implies sub[j] != sep by {
            assert(sub[j] == cs@[from + j]);
        }
        if k < to {
            assert(sub[k - from] == cs@[k as int]);
        }
        lemma_find_sep_at(sub, sep, k - from);
    }
    k
}

/// Bounds of the trimmed part of `cs[from..to]`.
fn trim_bounds(cs: &Vec<char>, from: usize, to: usize) -> (r: (usize, usize))
    requires
        from <= to <= cs@.len(),
    ensures
        from <= r.0 <= r.1 <= to,
        cs@.subrange(r.0 as int, r.1 as int) == trimmed(cs@.subrange(from as int, to as int)),
{
    let ghost s = cs@.subrange(from as int, to as int);
    let mut a = from;
    while a < to && char_is_whitespace(cs[a])
        invariant
            from <= a <= to,
            to <= cs@.len(),
            forall|j: int| from <= j < a ==> is_white_space(#[trigger] cs@[j]),
        decreases to - a,
    {
        a = a + 1;
    }
    let mut b = to;
    while b > a && char_is_whitespace(cs[b - 1])
        invariant
            from <= a <= b <= to,
            to <= cs@.len(),
            forall|j: int| b <= j < to ==> is_white_space(#[trigger] cs@[j]),
        decreases b - a,
    {
        b = b - 1;
    }
    proof {
        assert forall|j: int| 0 <= j < a - from implies is_white_space(#[trigger] s[j]) by {
            assert(s[j] == cs@[from + j]);
        }
        lemma_trim_start_skip(s, a - from);
        let t = s.subrange(a - from, s.len() as int);
        assert(t =~= cs@.subrange(a as int, to as int));
        if a < to {
            assert(t[0] == cs@[a as int]);
        }
        assert(crate::text::trim_start(t) == t);
        assert forall|j: int| b - a <= j < t.len() implies is_white_space(#[trigger] t[j]) by {
            assert(t[j] == cs@[a + j]);
        }
        lemma_trim_end_skip(t, b - a);
        let u = t.subrange(0, b - a);
        assert(u =~= cs@.subrange(a as int, b as int));
        if b > a {
            assert(u.last() == cs@[b - 1]);
        }
    }
    (a, b)
}

/// The characters `cs[from..to]` as a string.
fn string_of_range(cs: &Vec<char>, from: usize, to: usize) -> (r: String)
    requires
        from <= to <= cs@.len(),
    ensures
        r@ == cs@.subrange(from as int, to as int),
{
    let mut r = String::new();
    let mut k = from;
    while k < to
        invariant
            from <= k <= to,
            to <= cs@.len(),
            r@ == cs@.subrange(from as int, k as int),
        decreases to - k,
    {
        push_char(&mut r, cs[k]);
        k = k + 1;
        assert(r@ =~= cs@.subrange(from as int, k as int));
    }
    r
}

proof fn lemma_digits_value_grows(d: Seq<char>, i: int)
    requires
        0 <= i < d.len(),
        forall|k: int| 0 <= k < d.len() ==> is_digit(#[trigger] d[k]),
    ensures
        digits_value(d.take(i + 1)) == digits_value(d.take(i)) * 10 + ((d[i] as u32) - 48),
        digits_value(d.take(i + 1)) >= digits_value(d.take(i)),
{
    assert(d.take(i + 1).drop_last() =~= d.take(i));
    assert(d.take(i + 1).last() == d[i]);
    assert(is_digit(d[i]));
    lemma_digits_value_nonneg(d.take(i));
}

proof fn lemma_digits_value_nonneg(d: Seq<char>)
    requires
        forall|k: int| 0 <= k < d.len() ==> is_digit(#[trigger] d[k]),
    ensures
        digits_value(d) >= 0,
    decreases d.len(),
{
    if d.len() > 0 {
        assert forall|k: int| 0 <= k < d.len() - 1 implies is_digit(#[trigger] d.drop_last()[k]) by {
            assert(d.drop_last()[k] == d[k]);
        }
        assert(is_digit(d[d.len() - 1]));
        lemma_digits_value_nonneg(d.drop_last());
    }
}

/// Parse `cs[from..to]` as `str::parse::<u32>` does.
fn parse_u32_range(cs: &Vec<char>, from: usize, to: usize) -> (r: Option<u32>)
    requires
        from <= to <= cs@.len(),
    ensures
        r == parse_u32_text(cs@.subrange(from as int, to as int)),
{
    let ghost s = cs@.subrange(from as int, to as int);
    let start = if from < to && cs[from] == '+' {
        from + 1
    } else {
        from
    };
    let ghost d = cs@.subrange(start as int, to as int);
    assert(d =~= unsigned_part(s));
    if start == to {
        return None;
    }
    let mut value: u64 = 0;
    let mut over = false;
    let mut k = start;
    assert(d.take(0) =~= Seq::<char>::empty());
    while k < to
        invariant
            start <= k <= to,
            to <= cs@.len(),
            s == cs@.subrange(from as int, to as int),
            d == cs@.subrange(start as int, to as int),
            d == unsigned_part(s),
            forall|j: int| start <= j < k ==> is_digit(#[trigger] cs@[j]),
            !over ==> value as int == digits_value(d.take(k - start)),
            !over ==> value <= u32::MAX,
            over ==> digits_value(d.take(k - start)) > u32::MAX,
        decreases to - k,
    {
        let c = cs[k];
        if !('0' <= c && c <= '9') {
            assert(d[k - start] == c);
            assert(!is_digit(d[k - start]));
            assert(!all_digits(d));
            return None;
        }
        let ghost i = k - start;
        proof {
            assert forall|j: int| 0 <= j < i + 1 implies is_digit(#[trigger] d.take(i + 1)[j]) by {
                assert(d.take(i + 1)[j] == cs@[start + j]);
            }
            assert(d.take(i + 1).take(i) =~= d.take(i));
            lemma_digits_value_grows(d.take(i + 1), i);
            assert(d.take(i + 1).take(i + 1) =~= d.take(i + 1));
            assert(d.take(i + 1)[i] == c);
        }
        if !over {
            let v = value * 10 + ((c as u32) - 48) as u64;
            if v > 4_294_967_295u64 {
                over = true;
            } else {
                value = v;
            }
        }
        k = k + 1;
    }
    assert(d.take(d.len() as int) =~= d);
    assert forall|j: int| 0 <= j < d.len() implies is_digit(#[trigger] d[j]) by {
        assert(d[j] == cs@[start + j]);
    }
    if over {
        None
    } else {
        Some(value as u32)
    }
}

/// Parse one catalog line `cs[from..to]`.
fn parse_line_range(cs: &Vec<char>, from: usize, to: usize) -> (r: Option<CatalogRow>)
    requires
        from <= to <= cs@.len(),
    ensures
        match r {
            Some(row) => catalog_row(cs@.subrange(from as int, to as int)) == Some(row@),
            None => catalog_row(cs@.subrange(from as int, to as int)) is None,
        },
{
    let ghost line = cs@.subrange(from as int, to as int);
    let (a, b) = trim_bounds(cs, from, to);
    let ghost t = cs@.subrange(a as int, b as int);
    assert(t == trimmed(line));
    if a == b {
        return None;
    }
    if cs[a] == '#' {
        assert(t[0] == '#');
        return None;
    }
    assert(t[0] == cs@[a as int]);
    // Bounds of the first six comma-separated fields.
    let mut starts: Vec<usize> = Vec::new();
    let mut ends: Vec<usize> = Vec::new();
    let ghost mut done: Seq<Seq<char>> = seq![];
    let mut c = a;
    let mut k: usize = 0;
    let mut last = false;
    while k < 6
        invariant
            k <= 6,
            a <= c <= b,
            b <= cs@.len(),
            from <= to <= cs@.len(),
            t == cs@.subrange(a as int, b as int),
            t == trimmed(cs@.subrange(from as int, to as int)),
            t.len() > 0,
            t[0] != '#',
            starts@.len() == k,
            ends@.len() == k,
            done.len() == k,
            forall|j: int|
                #![trigger starts@[j]]
                #![trigger ends@[j]]
                #![trigger done[j]]
                0 <= j < k ==> starts@[j] <= ends@[j] <= b && cs@.subrange(
                    starts@[j] as int,
                    ends@[j] as int,
                ) == done[j],
            last ==> k == 6 && split_on(t, ',') == done,
            !last ==> split_on(t, ',') == done + split_on(cs@.subrange(c as int, b as int), ','),
        decreases 6 - k,
    {
        let q = next_sep(cs, c, b, ',');
        let ghost sub = cs@.subrange(c as int, b as int);
        let ghost piece = cs@.subrange(c as int, q as int);
        let ghost old_done = done;
        let ghost old_starts = starts@;
        let ghost old_ends = ends@;
        proof {
            lemma_find_sep_bounds(sub, ',');
            assert(sub.take(q - c) =~= piece);
            if q < b {
                assert(sub.skip(q - c + 1) =~= cs@.subrange(q + 1, b as int));
                assert(split_on(sub, ',') == seq![piece] + split_on(
                    cs@.subrange(q + 1, b as int),
                    ',',
                ));
            } else {
                assert(split_on(sub, ',') == seq![sub]);
                assert(piece =~= sub);
            }
        }
        starts.push(c);
        ends.push(q);
        proof {
            done = done.push(piece);
            assert forall|j: int|
                #![trigger starts@[j]]
                #![trigger ends@[j]]
                #![trigger done[j]]
                0 <= j < k + 1 implies starts@[j] <= ends@[j] <= b && cs@.subrange(
                    starts@[j] as int,
                    ends@[j] as int,
                ) == done[j] by {
                if j < k {
                    assert(starts@[j] == old_starts[j]);
                    assert(ends@[j] == old_ends[j]);
                    assert(done[j] == old_done[j]);
                }
            }
        }
        if q == b {
            proof {
                assert(split_on(t, ',') =~= done);
            }
            if k < 5 {
                return None;
            }
            last = true;
        } else {
            c = q + 1;
            proof {
                assert(split_on(t, ',') =~= done + split_on(cs@.subrange(c as int, b as int), ','));
            }
        }
        k = k + 1;
    }
    proof {
        if !last {
            assert(split_on(t, ',') == done + split_on(cs@.subrange(c as int, b as int), ','));
        }
        assert(split_on(t, ',').len() >= 6);
        assert forall|j: int| 0 <= j < 6 implies split_on(t, ',')[j] == done[j] by {}
    }
    let (ia, ib) = trim_bounds(cs, starts[0], ends[0]);
    let id = match parse_u32_range(cs, ia, ib) {
        Some(id) => id,
        None => {
            return None;
        },
    };
    let (na, nb) = trim_bounds(cs, starts[1], ends[1]);
    let (ra_a, ra_b) = trim_bounds(cs, starts[2], ends[2]);
    let (de_a, de_b) = trim_bounds(cs, starts[3], ends[3]);
    let (ma_a, ma_b) = trim_bounds(cs, starts[4], ends[4]);
    let (bv_a, bv_b) = trim_bounds(cs, starts[5], ends[5]);
    let row = CatalogRow {
        id,
        name: string_of_range(cs, na, nb),
        ra: string_of_range(cs, ra_a, ra_b),
        dec: string_of_range(cs, de_a, de_b),
        magnitude: string_of_range(cs, ma_a, ma_b),
        color_index: string_of_range(cs, bv_a, bv_b),
    };
    Some(row)
}

/// Parse the CSV catalog text. Each line: `id,name,ra_rad,dec_rad,mag,bv`.
/// Blank lines and lines starting with `#` are skipped, and so are lines
/// with fewer than six fields or an id that is not an unsigned 32-bit
/// integer. The numeric columns are returned as trimmed text.
pub fn parse_catalog_rows(text: &str) -> (rows: Vec<CatalogRow>)
    ensures
        row_views(rows@) == catalog_rows(text@),
{
    let cs = chars_of(text);
    let n = cs.len();
    let ghost s = cs@;
    let mut rows: Vec<CatalogRow> = Vec::new();
    let ghost mut done: Seq<Seq<char>> = seq![];
    let mut start: usize = 0;
    let mut finished = false;
    assert(s.subrange(0, n as int) =~= s);
    assert(row_views(rows@) =~= seq![]);
    while !finished
        invariant
            start <= n,
            n == s.len(),
            s == cs@,
            s == text@,
            row_views(rows@) == rows_of(done),
            finished ==> split_on(s, '\n') == done,
            !finished ==> split_on(s, '\n') == done + split_on(s.subrange(start as int, n as int), '\n'),
        decreases n - start + (if finished { 0int } else { 1int }),
    {
        let p = next_sep(&cs, start, n, '\n');
        let ghost sub = s.subrange(start as int, n as int);
        let ghost piece = s.subrange(start as int, p as int);
        proof {
            lemma_find_sep_bounds(sub, '\n');
            assert(sub.take(p - start) =~= piece);
            if p < n {
                assert(sub.skip(p - start + 1) =~= s.subrange(p + 1, n as int));
            }
            assert(done.push(piece).drop_last() =~= done);
            assert(done.push(piece).last() == piece);
        }
        let ghost before = rows@;
        match parse_line_range(&cs, start, p) {
            Some(row) => {
                rows.push(row);
                assert(row_views(rows@) =~= row_views(before).push(row@));
            },
            None => {},
        }
        proof {
            done = done.push(piece);
        }
        if p == n {
            finished = true;
            proof {
                assert(split_on(sub, '\n') == seq![sub]);
                assert(piece =~= sub);
                assert(split_on(s, '\n') =~= done);
            }
        } else {
            start = p + 1;
            proof {
                assert(split_on(sub, '\n') == seq![piece] + split_on(s.subrange(start as int, n as int), '\n'));
                assert(split_on(s, '\n') =~= done + split_on(s.subrange(start as int, n as int), '\n'));
            }
        }
    }
    rows
}

} // verus!
