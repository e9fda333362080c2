//! Wall-clock formatting of rise / set events.

use vstd::prelude::*;
use vstd::string::StringExecFns;

use crate::catalog::{all_digits, digits_value, is_digit};
use crate::text::push_char;

verus! {

/// Result of a rise/set lookup. `Times` carries Unix epoch ms for the
/// rise/set events bracketing the query time; the other two variants
/// describe a body that's currently in a circumpolar state at the
/// observer's latitude.
#[derive(Debug, Clone, Copy, PartialEq, Eq, Structural)]
pub enum RiseSet {
    /// The body crosses the horizon during the 24h window around the
    /// query time. Both timestamps are in Unix epoch ms.
    Times { rise_ms: i64, set_ms: i64 },
    /// The body is above the horizon all day at this latitude.
    AlwaysUp,
    /// The body never rises at this latitude today.
    NeverRises,
}

/// Milliseconds in a minute.
pub const MS_PER_MINUTE: i64 = 60_000;

/// Milliseconds in an hour.
pub const MS_PER_HOUR: i64 = 3_600_000;

/// Local wall-clock time in ms for a Unix time and a UTC offset in minutes.
pub open spec fn local_ms(unix_ms: int, offset_minutes: int) -> int {
    unix_ms + offset_minutes * 60_000
}

/// Whether the local time of `unix_ms` at `offset_minutes` fits an `i64`.
pub open spec fn local_time_fits(unix_ms: int, offset_minutes: int) -> bool {
    i64::MIN <= local_ms(unix_ms, offset_minutes) <= i64::MAX
}

/// Hour of the day (0..24) on the wall clock at a local time: the whole
/// hours since the epoch (rounded down, so before the epoch too), taken
/// modulo 24.
pub open spec fn hour_of_day(local: int) -> int {
    (local / 3_600_000) % 24
}

/// Minute of the hour (0..60) on the wall clock at a local time.
pub open spec fn minute_of_hour(local: int) -> int {
    (local / 60_000) % 60
}

/// The decimal digit character for `d` in `0..10`.
pub open spec fn digit_char(d: int) -> char {
    if d == 0 {
        '0'
    } else if d == 1 {
        '1'
    } else if d == 2 {
        '2'
    } else if d == 3 {
        '3'
    } else if d == 4 {
        '4'
    } else if d == 5 {
        '5'
    } else if d == 6 {
        '6'
    } else if d == 7 {
        '7'
    } else if d == 8 {
        '8'
    } else {
        '9'
    }
}

/// Decimal text of `n` in `0..100` without leading zeros.
pub open spec fn decimal_text(n: int) -> Seq<char> {
    if n < 10 {
        seq![digit_char(n)]
    } else {
        seq![digit_char(n / 10), digit_char(n % 10)]
    }
}

/// Two-digit decimal text of `n` in `0..100` (zero-padded).
pub open spec fn two_digit_text(n: int) -> Seq<char> {
    seq![digit_char(n / 10), digit_char(n % 10)]
}

/// 12-hour clock hour (1..=12) for a 24-hour hour.
pub open spec fn hour12(h24: int) -> int {
    if h24 == 0 {
        12
    } else if h24 <= 12 {
        h24
    } else {
        h24 - 12
    }
}

/// `H:MMam` / `H:MMpm` text for a local time.
pub open spec fn clock_text(local: int) -> Seq<char> {
    let h24 = hour_of_day(local);
    let m = minute_of_hour(local);
    let suffix = if h24 < 12 {
        seq!['a', 'm']
    } else {
        seq!['p', 'm']
    };
    decimal_text(hour12(h24)) + seq![':'] + two_digit_text(m) + suffix
}

/// What `format_hhmm` prints for a Unix time and UTC offset.
pub open spec fn hhmm_text(unix_ms: int, offset_minutes: int) -> Seq<char> {
    clock_text(local_ms(unix_ms, offset_minutes))
}

/// What `format_rise_set` prints for a rise/set result and UTC offset.
pub open spec fn rise_set_text(rs: RiseSet, offset_minutes: int) -> Seq<char> {
    match rs {
        RiseSet::AlwaysUp => "Always up"@,
        RiseSet::NeverRises => "Below horizon today"@,
        RiseSet::Times { rise_ms, set_ms } => "Rises "@ + hhmm_text(rise_ms as int, offset_minutes)
            + " · Sets "@ + hhmm_text(set_ms as int, offset_minutes),
    }
}

/// Whether `format_rise_set` can compute the local times of `rs` without
/// leaving the `i64` range.
pub open spec fn rise_set_fits(rs: RiseSet, offset_minutes: int) -> bool {
    match rs {
        RiseSet::Times { rise_ms, set_ms } => local_time_fits(rise_ms as int, offset_minutes)
            && local_time_fits(set_ms as int, offset_minutes),
        _ => true,
    }
}

fn digit(d: u64) -> (c: char)
    requires
        d < 10,
    ensures
        c == digit_char(d as int),
{
    if d == 0 {
        '0'
    } else if d == 1 {
        '1'
    } else if d == 2 {
        '2'
    } else if d == 3 {
        '3'
    } else if d == 4 {
        '4'
    } else if d == 5 {
        '5'
    } else if d == 6 {
        '6'
    } else if d == 7 {
        '7'
    } else if d == 8 {
        '8'
    } else {
        '9'
    }
}

proof fn lemma_floor_digit(a: int, u: int, m: int)
    requires
        u > 0,
        m > 0,
    ensures
        (a / u) % m == (a % (u * m)) / u,
{
    let p = u * m;
    assert(p > 0) by (nonlinear_arith)
        requires
            u > 0,
            m > 0,
            p == u * m,
    ;
    let q = a / p;
    let e = a % p;
    vstd::arithmetic::div_mod::lemma_fundamental_div_mod(a, p);
    vstd::arithmetic::div_mod::lemma_mod_bound(a, p);
    let t = e / u;
    let s = e % u;
    vstd::arithmetic::div_mod::lemma_fundamental_div_mod(e, u);
    vstd::arithmetic::div_mod::lemma_mod_bound(e, u);
    assert(0 <= t < m) by (nonlinear_arith)
        requires
            e == u * t + s,
            0 <= s < u,
            0 <= e < u * m,
            u > 0,
    ;
    assert(a == (m * q + t) * u + s) by (nonlinear_arith)
        requires
            a == p * q + e,
            p == u * m,
            e == u * t + s,
    ;
    vstd::arithmetic::div_mod::lemma_fundamental_div_mod_converse(a, u, m * q + t, s);
    vstd::arithmetic::div_mod::lemma_fundamental_div_mod_converse(m * q + t, m, q, t);
}

/// `(local / unit) % modulus` with the quotient rounded down, computed
/// without signed division.
fn floor_quotient_mod(local: i64, unit: u64, modulus: u64) -> (r: u64)
    requires
        0 < unit <= 3_600_000,
        0 < modulus <= 60,
    ensures
        r == (local as int / unit as int) % (modulus as int),
        r < modulus,
{
    assert(unit * modulus <= 3_600_000 * 60) by (nonlinear_arith)
        requires
            0 < unit <= 3_600_000,
            0 < modulus <= 60,
    ;
    assert(unit * modulus > 0) by (nonlinear_arith)
        requires
            0 < unit,
            0 < modulus,
    ;
    let p = unit * modulus;
    let e: u64 = if local >= 0 {
        (local as u64) % p
    } else {
        let mag: u64 = if local == i64::MIN {
            9_223_372_036_854_775_808u64
        } else {
            (-local) as u64
        };
        let rem = mag % p;
        proof {
            let mi = mag as int;
            let pi = p as int;
            vstd::arithmetic::div_mod::lemma_fundamental_div_mod(mi, pi);
            vstd::arithmetic::div_mod::lemma_mod_bound(mi, pi);
            let qq = mi / pi;
            assert(local as int == -mi);
            assert(-mi == (-qq) * pi - rem) by (nonlinear_arith)
                requires
                    mi == pi * qq + rem,
            ;
            assert((-qq) * pi - rem == (-qq - 1) * pi + (pi - rem)) by (nonlinear_arith);
            if rem == 0 {
                vstd::arithmetic::div_mod::lemma_fundamental_div_mod_converse(
                    local as int,
                    pi,
                    -qq,
                    0,
                );
            } else {
                vstd::arithmetic::div_mod::lemma_fundamental_div_mod_converse(
                    local as int,
                    pi,
                    -qq - 1,
                    pi - rem,
                );
            }
        }
        if rem == 0 {
            0
        } else {
            p - rem
        }
    };
    assert(e as int == (local as int) % (p as int));
    proof {
        lemma_floor_digit(local as int, unit as int, modulus as int);
        vstd::arithmetic::div_mod::lemma_mod_bound(local as int, p as int);
        assert(e / unit < modulus) by (nonlinear_arith)
            requires
                e < unit * modulus,
                unit > 0,
        ;
    }
    e / unit
}

/// Format a Unix-ms timestamp as 12-hour `H:MMam`/`H:MMpm` in the
/// observer's local (offset-adjusted) wall clock. Wraps cleanly
/// across day boundaries. Used by the rise/set reticle card so the
/// times read the way a North-American user expects (`11:23pm`)
/// instead of the 24-hour `23:23`.
pub fn format_hhmm(unix_ms: i64, offset_minutes: i32) -> (r: String)
    requires
        local_time_fits(unix_ms as int, offset_minutes as int),
    ensures
        r@ == hhmm_text(unix_ms as int, offset_minutes as int),
{
    let local_ms = unix_ms + (offset_minutes as i64) * MS_PER_MINUTE;
    let h24 = floor_quotient_mod(local_ms, 3_600_000, 24);
    let m = floor_quotient_mod(local_ms, 60_000, 60);
    let h12: u64 = if h24 == 0 {
        12
    } else if h24 <= 12 {
        h24
    } else {
        h24 - 12
    };
    let mut r = String::new();
    if h12 >= 10 {
        push_char(&mut r, digit(h12 / 10));
        push_char(&mut r, digit(h12 % 10));
    } else {
        push_char(&mut r, digit(h12));
    }
    push_char(&mut r, ':');
    push_char(&mut r, digit(m / 10));
    push_char(&mut r, digit(m % 10));
    if h24 < 12 {
        push_char(&mut r, 'a');
    } else {
        push_char(&mut r, 'p');
    }
    push_char(&mut r, 'm');
    proof {
        let h24i = hour_of_day(local_ms as int);
        assert(h24 as int == h24i);
        assert(hour12(h24i) == h12 as int);
        assert(r@ =~= hhmm_text(unix_ms as int, offset_minutes as int));
    }
    r
}

/// Format a [`RiseSet`] for display in the user's local time. Uses
/// the platform-reported UTC offset in minutes (DST applied) so the
/// times read as wall-clock at the observer's location, not UTC.
/// 12-hour AM/PM format. Examples:
/// - `"Rises 6:42pm · Sets 6:13am"`
/// - `"Always up"` / `"Below horizon today"`
pub fn format_rise_set(rs: RiseSet, offset_minutes: i32) -> (r: String)
    requires
        rise_set_fits(rs, offset_minutes as int),
    ensures
        r@ == rise_set_text(rs, offset_minutes as int),
{
    match rs {
        RiseSet::AlwaysUp => String::from_str("Always up"),
        RiseSet::NeverRises => String::from_str("Below horizon today"),
        RiseSet::Times { rise_ms, set_ms } => {
            let mut r = String::from_str("Rises ");
            let rise = format_hhmm(rise_ms, offset_minutes);
            r.append(rise.as_str());
            r.append(" · Sets ");
            let set = format_hhmm(set_ms, offset_minutes);
            r.append(set.as_str());
            r
        },
    }
}

/// A UTC offset only shifts the wall clock: formatting an instant with
/// offset `o` reads the same as formatting, at UTC, the instant `o`
/// minutes later.
pub proof fn law_offset_shifts_clock(unix_ms: int, offset_minutes: int)
    ensures
        hhmm_text(unix_ms, offset_minutes) == hhmm_text(unix_ms + offset_minutes * 60_000, 0),
{
}

/// The clock reading wraps cleanly across day boundaries: one day later
/// reads the same.
pub proof fn law_clock_repeats_daily(unix_ms: int, offset_minutes: int)
    ensures
        hhmm_text(unix_ms + 86_400_000, offset_minutes) == hhmm_text(unix_ms, offset_minutes),
{
    let l = local_ms(unix_ms, offset_minutes);
    let l2 = local_ms(unix_ms + 86_400_000, offset_minutes);
    assert(l2 == l + 86_400_000);
    let qh = l / 3_600_000;
    let rh = l % 3_600_000;
    vstd::arithmetic::div_mod::lemma_fundamental_div_mod(l, 3_600_000);
    vstd::arithmetic::div_mod::lemma_fundamental_div_mod_converse(l2, 3_600_000, qh + 24, rh);
    vstd::arithmetic::div_mod::lemma_mod_add_multiples_vanish(qh, 24);
    let qm = l / 60_000;
    let rm = l % 60_000;
    vstd::arithmetic::div_mod::lemma_fundamental_div_mod(l, 60_000);
    vstd::arithmetic::div_mod::lemma_fundamental_div_mod_converse(l2, 60_000, qm + 1440, rm);
    lemma_mod_shift_multiple(qm, 24);
}

proof fn lemma_mod_shift_multiple(a: int, j: int)
    requires
        j >= 0,
    ensures
        (a + 60 * j) % 60 == a % 60,
    decreases j,
{
    if j > 0 {
        lemma_mod_shift_multiple(a, j - 1);
        vstd::arithmetic::div_mod::lemma_mod_add_multiples_vanish(a + 60 * (j - 1), 60);
        assert(a + 60 * (j - 1) + 60 == a + 60 * j);
    }
}

proof fn lemma_digit_char(d: int)
    requires
        0 <= d < 10,
    ensures
        is_digit(digit_char(d)),
        (digit_char(d) as u32) - 48 == d,
{
}

proof fn lemma_numeral(d1: int, d2: int)
    requires
        0 <= d1 < 10,
        0 <= d2 < 10,
    ensures
        digits_value(seq![digit_char(d1)]) == d1,
        digits_value(seq![digit_char(d1), digit_char(d2)]) == 10 * d1 + d2,
        all_digits(seq![digit_char(d1)]),
        all_digits(seq![digit_char(d1), digit_char(d2)]),
{
    lemma_digit_char(d1);
    lemma_digit_char(d2);
    let a = seq![digit_char(d1)];
    let b = seq![digit_char(d1), digit_char(d2)];
    assert(a.drop_last() =~= Seq::<char>::empty());
    assert(b.drop_last() =~= a);
    assert(digits_value(a) == digits_value(a.drop_last()) * 10 + ((a.last() as u32) - 48));
    assert(digits_value(b) == digits_value(b.drop_last()) * 10 + ((b.last() as u32) - 48));
    assert forall|k: int| 0 <= k < b.len() implies is_digit(#[trigger] b[k]) by {
        if k == 0 {
            assert(b[k] == digit_char(d1));
        } else {
            assert(b[k] == digit_char(d2));
        }
    }
    assert forall|k: int| 0 <= k < a.len() implies is_digit(#[trigger] a[k]) by {
        assert(a[k] == digit_char(d1));
    }
}

/// The clock text reads back as the wall clock: it is `H:MM` followed by
/// `am` or `pm`, where `H` is the 12-hour hour (1 to 12, no leading zero)
/// of the local time rounded down to whole hours, `MM` the minute of the
/// hour in two digits, and the suffix `am` exactly before noon.
pub proof fn law_clock_text_reads_back(unix_ms: int, offset_minutes: int)
    ensures
        ({
            let l = local_ms(unix_ms, offset_minutes);
            let h = (l / 3_600_000) % 24;
            let m = (l / 60_000) % 60;
            let h12 = if h == 0 {
                12
            } else if h > 12 {
                h - 12
            } else {
                h
            };
            let t = hhmm_text(unix_ms, offset_minutes);
            let p = t.len() - 5;
            &&& 1 <= h12 <= 12
            &&& 1 <= p <= 2
            &&& t[p] == ':'
            &&& all_digits(t.take(p))
            &&& t[0] != '0'
            &&& digits_value(t.take(p)) == h12
            &&& all_digits(t.subrange(p + 1, p + 3))
            &&& digits_value(t.subrange(p + 1, p + 3)) == m
            &&& t.subrange(p + 3, p + 5) == if h < 12 {
                seq!['a', 'm']
            } else {
                seq!['p', 'm']
            }
        }),
{
    let l = local_ms(unix_ms, offset_minutes);
    let h = (l / 3_600_000) % 24;
    let m = (l / 60_000) % 60;
    let h12 = hour12(h);
    let t = hhmm_text(unix_ms, offset_minutes);
    let mm = two_digit_text(m);
    let suffix = if h < 12 {
        seq!['a', 'm']
    } else {
        seq!['p', 'm']
    };
    assert(t == decimal_text(h12) + seq![':'] + mm + suffix);
    lemma_numeral(m / 10, m % 10);
    assert(10 * (m / 10) + m % 10 == m);
    if h12 < 10 {
        lemma_numeral(h12, 0);
        let a = seq![digit_char(h12)];
        assert(t.take(1) =~= a);
        assert(t.subrange(2, 4) =~= mm);
        assert(t.subrange(4, 6) =~= suffix);
        lemma_digit_char(h12);
        assert(t[0] == digit_char(h12));
    } else {
        lemma_numeral(1, h12 - 10);
        assert(h12 / 10 == 1 && h12 % 10 == h12 - 10);
        let b = seq![digit_char(1), digit_char(h12 - 10)];
        assert(t.take(2) =~= b);
        assert(t.subrange(3, 5) =~= mm);
        assert(t.subrange(5, 7) =~= suffix);
        assert(t[0] == digit_char(1));
    }
}

} // verus!
