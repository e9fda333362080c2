//! City catalog with prefix search and a Soundex phonetic fallback.

use vstd::prelude::*;

use crate::text::{
    alphabetic, ascii_lower, ascii_upper, char_at, char_count, chars_of, is_alphabetic,
    is_ascii_text, lowercase, occurs_in, push_char,
    text_contains, text_starts_with, to_lowercase, to_uppercase, trim_text, trimmed, uppercase,
};

verus! {

/// Soundex digit of an uppercase letter, `None` for letters that carry no code.
pub open spec fn soundex_digit_of(c: char) -> Option<char> {
    if c == 'B' || c == 'F' || c == 'P' || c == 'V' {
        Some('1')
    } else if c == 'C' || c == 'G' || c == 'J' || c == 'K' || c == 'Q' || c == 'S' || c == 'X'
        || c == 'Z' {
        Some('2')
    } else if c == 'D' || c == 'T' {
        Some('3')
    } else if c == 'L' {
        Some('4')
    } else if c == 'M' || c == 'N' {
        Some('5')
    } else if c == 'R' {
        Some('6')
    } else {
        None
    }
}

/// Digits Soundex draws from `rest` (the text after the first letter),
/// given the code of the previous coded letter `last` and the number of
/// digits `room` still missing from the code. Adjacent letters with the
/// same code count once; any uncoded letter other than `H` and `W`
/// separates them. The scan stops as soon as the code has its digits.
pub open spec fn soundex_digits(rest: Seq<char>, last: Option<char>, room: int) -> Seq<char>
    decreases rest.len(),
{
    if rest.len() == 0 {
        seq![]
    } else {
        let c = rest[0];
        match soundex_digit_of(c) {
            Some(d) => if Some(d) != last {
                if room == 1 {
                    seq![d]
                } else {
                    seq![d] + soundex_digits(rest.drop_first(), Some(d), room - 1)
                }
            } else {
                soundex_digits(rest.drop_first(), last, room)
            },
            None => if c != 'H' && c != 'W' {
                soundex_digits(rest.drop_first(), None, room)
            } else {
                soundex_digits(rest.drop_first(), last, room)
            },
        }
    }
}

/// `n` zero digits (none when `n` is not positive).
pub open spec fn zeros(n: int) -> Seq<char> {
    Seq::new(if n > 0 { n as nat } else { 0 }, |i: int| '0')
}

/// Soundex code of an uppercased text whose first character is taken as
/// the leading letter: that letter, up to three digits, then zeros up to
/// four characters.
pub open spec fn soundex_encoding(upper: Seq<char>) -> Seq<char>
    recommends
        upper.len() > 0,
{
    let first = upper[0];
    let digits = soundex_digits(upper.drop_first(), soundex_digit_of(first), 3);
    seq![first] + digits + zeros(3 - digits.len())
}

/// The code given to texts without a leading letter.
pub open spec fn no_code() -> Seq<char> {
    seq!['0', '0', '0', '0']
}

/// Soundex code of an already uppercased text.
pub open spec fn soundex_of_upper(upper: Seq<char>) -> Seq<char> {
    let first = if upper.len() > 0 { upper[0] } else { ' ' };
    if !alphabetic(first) {
        no_code()
    } else {
        soundex_encoding(upper)
    }
}

/// Soundex code of a text, as `soundex` computes it.
pub open spec fn soundex_spec(input: Seq<char>) -> Seq<char> {
    if input.len() == 0 {
        no_code()
    } else {
        soundex_of_upper(uppercase(input))
    }
}

fn soundex_digit(c: char) -> (r: Option<char>)
    ensures
        r == soundex_digit_of(c),
{
    if c == 'B' || c == 'F' || c == 'P' || c == 'V' {
        Some('1')
    } else if c == 'C' || c == 'G' || c == 'J' || c == 'K' || c == 'Q' || c == 'S' || c == 'X'
        || c == 'Z' {
        Some('2')
    } else if c == 'D' || c == 'T' {
        Some('3')
    } else if c == 'L' {
        Some('4')
    } else if c == 'M' || c == 'N' {
        Some('5')
    } else if c == 'R' {
        Some('6')
    } else {
        None
    }
}

fn no_code_string() -> (r: String)
    ensures
        r@ == no_code(),
{
    let mut r = String::new();
    push_char(&mut r, '0');
    push_char(&mut r, '0');
    push_char(&mut r, '0');
    push_char(&mut r, '0');
    r
}

/// Soundex code of an uppercased text whose first character is its leading
/// letter: the letter, then the codes of the following letters (runs of
/// equal codes counted once, `H`/`W` not breaking a run, other uncoded
/// letters breaking it), stopping at three digits and padded with `0` to
/// four characters.
pub fn soundex_encode(upper: &str) -> (code: String)
    requires
        upper@.len() > 0,
    ensures
        code@ == soundex_encoding(upper@),
{
    let n = char_count(upper);
    let first = char_at(upper, 0);
    let ghost u = upper@;
    let ghost total = soundex_digits(u.drop_first(), soundex_digit_of(first), 3);
    let mut code = String::new();
    push_char(&mut code, first);
    let mut last = soundex_digit(first);
    let mut count: usize = 0;
    let mut done = false;
    let mut i: usize = 1;
    let ghost mut acc: Seq<char> = seq![];
    assert(u.subrange(1, n as int) =~= u.drop_first());
    while i < n && !done
        invariant
            n == u.len(),
            u == upper@,
            1 <= i <= n,
            first == u[0],
            count == acc.len(),
            count < 3 || done,
            count <= 3,
            code@ == seq![first] + acc,
            total == soundex_digits(u.drop_first(), soundex_digit_of(first), 3),
            done ==> total == acc,
            !done ==> total == acc + soundex_digits(
                u.subrange(i as int, n as int),
                last,
                3 - count,
            ),
        decreases n - i,
    {
        let c = char_at(upper, i);
        let ghost rest = u.subrange(i as int, n as int);
        assert(rest[0] == c);
        assert(rest.drop_first() =~= u.subrange(i + 1, n as int));
        match soundex_digit(c) {
            Some(d) => {
                if Some(d) != last {
                    push_char(&mut code, d);
                    proof {
                        acc = acc.push(d);
                    }
                    if count == 2 {
                        done = true;
                        assert(total =~= acc);
                    } else {
                        assert(total =~= acc + soundex_digits(
                            u.subrange(i + 1, n as int),
                            Some(d),
                            3 - (count + 1),
                        ));
                    }
                    count = count + 1;
                    last = Some(d);
                }
            },
            None => {
                if c != 'H' && c != 'W' {
                    last = None;
                }
            },
        }
        i = i + 1;
    }
    proof {
        if !done {
            assert(u.subrange(i as int, n as int).len() == 0);
            assert(total =~= acc);
        }
    }
    let pad = 3 - count;
    let mut k: usize = 0;
    while k < pad
        invariant
            k <= pad,
            pad == 3 - count,
            code@ == seq![first] + acc + zeros(k as int),
        decreases pad - k,
    {
        push_char(&mut code, '0');
        k = k + 1;
        assert(zeros(k as int) =~= zeros((k - 1) as int).push('0'));
    }
    assert(u =~= upper@);
    code
}

/// Soundex code of an already uppercased text: the four zeros when it does
/// not start with a letter, else its encoding.
pub fn soundex_from_upper(upper: &str) -> (code: String)
    ensures
        code@ == soundex_of_upper(upper@),
        upper@.len() > 0 && (upper@[0] as u32) < 0x80 ==> (alphabetic(upper@[0]) <==> (
        'A' <= upper@[0] <= 'Z' || 'a' <= upper@[0] <= 'z')),
{
    let n = char_count(upper);
    let first = if n > 0 {
        char_at(upper, 0)
    } else {
        ' '
    };
    if !is_alphabetic(first) {
        no_code_string()
    } else {
        soundex_encode(upper)
    }
}

/// Compute the Soundex phonetic code for a string.
/// Soundex maps a name to a 4-character code (e.g., "Denver" -> "D516").
pub fn soundex(input: &str) -> (code: String)
    ensures
        code@ == soundex_spec(input@),
        input@.len() > 0 && is_ascii_text(input@) ==> uppercase(input@) == input@.map_values(
            |c: char| ascii_upper(c),
        ),
        input@.len() > 0 && is_ascii_text(input@) ==> (alphabetic(uppercase(input@)[0]) <==> (
        'A' <= uppercase(input@)[0] <= 'Z')),
{
    if char_count(input) == 0 {
        return no_code_string();
    }
    let upper = to_uppercase(input);
    soundex_from_upper(upper.as_str())
}


/// Representation of a geographical city entity. Coordinates are kept in
/// ten-thousandths of a degree (the precision of the catalog), north and
/// east positive.
#[derive(Debug, Clone, Copy)]
pub struct City {
    pub name: &'static str,
    pub state: &'static str,
    pub country: &'static str,
    pub country_code: &'static str,
    pub latitude_e4: i32,
    pub longitude_e4: i32,
}

/// The curated built-in catalog of major global cities, in catalog order.
pub open spec fn city_table() -> Seq<City> {
    seq![
        City { name: "Denver", state: "Colorado", country: "United States", country_code: "US", latitude_e4: 397392i32, longitude_e4: (-1049903) as i32 },
        City { name: "New York", state: "New York", country: "United States", country_code: "US", latitude_e4: 407128i32, longitude_e4: (-740060) as i32 },
        City { name: "Los Angeles", state: "California", country: "United States", country_code: "US", latitude_e4: 340522i32, longitude_e4: (-1182437) as i32 },
        City { name: "London", state: "England", country: "United Kingdom", country_code: "GB", latitude_e4: 515074i32, longitude_e4: (-1278) as i32 },
        City { name: "Paris", state: "Île-de-France", country: "France", country_code: "FR", latitude_e4: 488566i32, longitude_e4: 23522i32 },
        City { name: "Tokyo", state: "Tokyo", country: "Japan", country_code: "JP", latitude_e4: 356762i32, longitude_e4: 1396503i32 },
        City { name: "Sydney", state: "New South Wales", country: "Australia", country_code: "AU", latitude_e4: (-338688) as i32, longitude_e4: 1512093i32 },
        City { name: "Berlin", state: "Berlin", country: "Germany", country_code: "DE", latitude_e4: 525200i32, longitude_e4: 134050i32 },
        City { name: "Cairo", state: "Cairo", country: "Egypt", country_code: "EG", latitude_e4: 300444i32, longitude_e4: 312357i32 },
        City { name: "Mumbai", state: "Maharashtra", country: "India", country_code: "IN", latitude_e4: 190760i32, longitude_e4: 728777i32 },
        City { name: "Rio de Janeiro", state: "Rio de Janeiro", country: "Brazil", country_code: "BR", latitude_e4: (-229068) as i32, longitude_e4: (-431729) as i32 },
        City { name: "Cape Town", state: "Western Cape", country: "South Africa", country_code: "ZA", latitude_e4: (-339249) as i32, longitude_e4: 184241i32 },
        City { name: "Toronto", state: "Ontario", country: "Canada", country_code: "CA", latitude_e4: 436532i32, longitude_e4: (-793832) as i32 },
        City { name: "Vancouver", state: "British Columbia", country: "Canada", country_code: "CA", latitude_e4: 492827i32, longitude_e4: (-1231207) as i32 },
        City { name: "Rome", state: "Lazio", country: "Italy", country_code: "IT", latitude_e4: 419028i32, longitude_e4: 124964i32 },
        City { name: "Beijing", state: "Beijing", country: "China", country_code: "CN", latitude_e4: 399042i32, longitude_e4: 1164074i32 },
        City { name: "Singapore", state: "Central Region", country: "Singapore", country_code: "SG", latitude_e4: 13521i32, longitude_e4: 1038198i32 },
        City { name: "Dubai", state: "Dubai", country: "United Arab Emirates", country_code: "AE", latitude_e4: 252048i32, longitude_e4: 552708i32 }
    ]
}


/// A Soundex digit: `0` (padding) through `6`.
pub open spec fn is_code_digit(c: char) -> bool {
    '0' <= c <= '6'
}

proof fn lemma_soundex_digits_bounded(rest: Seq<char>, last: Option<char>, room: int)
    requires
        room >= 1,
    ensures
        soundex_digits(rest, last, room).len() <= room,
        forall|k: int|
            0 <= k < soundex_digits(rest, last, room).len() ==> is_code_digit(
                #[trigger] soundex_digits(rest, last, room)[k],
            ),
    decreases rest.len(),
{
    if rest.len() > 0 {
        let c = rest[0];
        let tail = rest.drop_first();
        match soundex_digit_of(c) {
            Some(d) => {
                if Some(d) != last {
                    if room != 1 {
                        lemma_soundex_digits_bounded(tail, Some(d), room - 1);
                        let t = soundex_digits(tail, Some(d), room - 1);
                        assert forall|k: int| 0 <= k < (seq![d] + t).len() implies is_code_digit(
                            #[trigger] (seq![d] + t)[k],
                        ) by {
                            if k > 0 {
                                assert((seq![d] + t)[k] == t[k - 1]);
                            }
                        }
                    }
                } else {
                    lemma_soundex_digits_bounded(tail, last, room);
                }
            },
            None => {
                if c != 'H' && c != 'W' {
                    lemma_soundex_digits_bounded(tail, None, room);
                } else {
                    lemma_soundex_digits_bounded(tail, last, room);
                }
            },
        }
    }
}

/// Every Soundex code is four characters: either the four zeros, or the
/// uppercased leading letter followed by three of the digits `0` to `6`.
pub proof fn law_soundex_code_shape(input: Seq<char>)
    ensures
        soundex_spec(input).len() == 4,
        soundex_spec(input) == no_code() || (soundex_spec(input)[0] == uppercase(input)[0]
            && forall|k: int|
            1 <= k < 4 ==> is_code_digit(#[trigger] soundex_spec(input)[k])),
{
    let code = soundex_spec(input);
    if code != no_code() {
        let upper = uppercase(input);
        let first = upper[0];
        let digits = soundex_digits(upper.drop_first(), soundex_digit_of(first), 3);
        lemma_soundex_digits_bounded(upper.drop_first(), soundex_digit_of(first), 3);
        assert(code == seq![first] + digits + zeros(3 - digits.len()));
        assert forall|k: int| 1 <= k < 4 implies is_code_digit(#[trigger] code[k]) by {
            if k < 1 + digits.len() {
                assert(code[k] == digits[k - 1]);
            } else {
                assert(code[k] == zeros(3 - digits.len())[k - 1 - digits.len()]);
            }
        }
    }
}

/// A curated built-in catalog of major global cities.
pub fn builtin_cities() -> (v: Vec<City>)
    ensures
        v@ == city_table(),
{
    let mut v: Vec<City> = Vec::new();
    v.push(City { name: "Denver", state: "Colorado", country: "United States", country_code: "US", latitude_e4: 397392, longitude_e4: -1049903 });
    v.push(City { name: "New York", state: "New York", country: "United States", country_code: "US", latitude_e4: 407128, longitude_e4: -740060 });
    v.push(City { name: "Los Angeles", state: "California", country: "United States", country_code: "US", latitude_e4: 340522, longitude_e4: -1182437 });
    v.push(City { name: "London", state: "England", country: "United Kingdom", country_code: "GB", latitude_e4: 515074, longitude_e4: -1278 });
    v.push(City { name: "Paris", state: "Île-de-France", country: "France", country_code: "FR", latitude_e4: 488566, longitude_e4: 23522 });
    v.push(City { name: "Tokyo", state: "Tokyo", country: "Japan", country_code: "JP", latitude_e4: 356762, longitude_e4: 1396503 });
    v.push(City { name: "Sydney", state: "New South Wales", country: "Australia", country_code: "AU", latitude_e4: -338688, longitude_e4: 1512093 });
    v.push(City { name: "Berlin", state: "Berlin", country: "Germany", country_code: "DE", latitude_e4: 525200, longitude_e4: 134050 });
    v.push(City { name: "Cairo", state: "Cairo", country: "Egypt", country_code: "EG", latitude_e4: 300444, longitude_e4: 312357 });
    v.push(City { name: "Mumbai", state: "Maharashtra", country: "India", country_code: "IN", latitude_e4: 190760, longitude_e4: 728777 });
    v.push(City { name: "Rio de Janeiro", state: "Rio de Janeiro", country: "Brazil", country_code: "BR", latitude_e4: -229068, longitude_e4: -431729 });
    v.push(City { name: "Cape Town", state: "Western Cape", country: "South Africa", country_code: "ZA", latitude_e4: -339249, longitude_e4: 184241 });
    v.push(City { name: "Toronto", state: "Ontario", country: "Canada", country_code: "CA", latitude_e4: 436532, longitude_e4: -793832 });
    v.push(City { name: "Vancouver", state: "British Columbia", country: "Canada", country_code: "CA", latitude_e4: 492827, longitude_e4: -1231207 });
    v.push(City { name: "Rome", state: "Lazio", country: "Italy", country_code: "IT", latitude_e4: 419028, longitude_e4: 124964 });
    v.push(City { name: "Beijing", state: "Beijing", country: "China", country_code: "CN", latitude_e4: 399042, longitude_e4: 1164074 });
    v.push(City { name: "Singapore", state: "Central Region", country: "Singapore", country_code: "SG", latitude_e4: 13521, longitude_e4: 1038198 });
    v.push(City { name: "Dubai", state: "Dubai", country: "United Arab Emirates", country_code: "AE", latitude_e4: 252048, longitude_e4: 552708 });
    assert(v@ =~= city_table());
    v
}

/// Whether a city matches a cleaned (trimmed, lowercased) query textually:
/// its lowercased name starts with or contains the query, or its lowercased
/// state or country starts with it.
pub open spec fn city_text_match(c: City, q: Seq<char>) -> bool {
    lowered_text_match(lowercase(c.name@), lowercase(c.state@), lowercase(c.country@), q)
}

/// Whether a query matches lowercased city fields: the name starts with or
/// contains it, or the state or the country starts with it.
pub open spec fn lowered_text_match(
    lname: Seq<char>,
    lstate: Seq<char>,
    lcountry: Seq<char>,
    q: Seq<char>,
) -> bool {
    ||| q.is_prefix_of(lname)
    ||| occurs_in(q, lname)
    ||| q.is_prefix_of(lstate)
    ||| q.is_prefix_of(lcountry)
}

/// `s` with `w` read as `v` (and `W` as `V`), the spelling slip the phonetic
/// fallback forgives.
pub open spec fn fold_w(s: Seq<char>) -> Seq<char> {
    s.map_values(|c: char| fold_w_char(c))
}

/// `w` read as `v`, `W` as `V`; other characters unchanged.
pub open spec fn fold_w_char(c: char) -> char {
    if c == 'w' {
        'v'
    } else if c == 'W' {
        'V'
    } else {
        c
    }
}

/// Predicate form of [`city_text_match`] for a fixed query.
pub open spec fn text_match_pred(q: Seq<char>) -> spec_fn(City) -> bool {
    |c: City| city_text_match(c, q)
}

/// Whether a city's name sounds like `q`: the two have the same Soundex
/// code, or the same code once both are read with `w` as `v`.
pub open spec fn sounds_like(c: City, q: Seq<char>) -> bool {
    ||| soundex_spec(c.name@) == soundex_spec(q)
    ||| soundex_spec(fold_w(c.name@)) == soundex_spec(fold_w(q))
}

/// Predicate form of [`sounds_like`] for a fixed query.
pub open spec fn sound_match_pred(q: Seq<char>) -> spec_fn(City) -> bool {
    |c: City| sounds_like(c, q)
}

/// Cities `search_cities` returns for a query: everything for a blank
/// query, else the textual matches in catalog order, else (when there are
/// none) the cities whose names sound like the query: the same Soundex
/// code, or the same code with `w` read as `v` on both sides.
pub open spec fn city_search_result(query: Seq<char>) -> Seq<City> {
    if trimmed(query).len() == 0 {
        city_table()
    } else {
        cities_for_query(lowercase(trimmed(query)))
    }
}

/// Cities found for an already cleaned (trimmed, lowercased) query `q`.
pub open spec fn cities_for_query(q: Seq<char>) -> Seq<City> {
    if q.len() == 0 {
        city_table()
    } else {
        let hits = city_table().filter(text_match_pred(q));
        if hits.len() > 0 {
            hits
        } else {
            city_table().filter(sound_match_pred(q))
        }
    }
}

fn city_matches_text(c: &City, q: &str) -> (r: bool)
    ensures
        r == city_text_match(*c, q@),
{
    let name = to_lowercase(c.name);
    let state = to_lowercase(c.state);
    let country = to_lowercase(c.country);
    city_text_matches(name.as_str(), state.as_str(), country.as_str(), q)
}

/// Whether a cleaned query matches a city's lowercased name, state and
/// country: the name starts with or contains it, or the state or the
/// country starts with it.
pub fn city_text_matches(lname: &str, lstate: &str, lcountry: &str, q: &str) -> (r: bool)
    ensures
        r == lowered_text_match(lname@, lstate@, lcountry@, q@),
{
    text_starts_with(lname, q) || text_contains(lname, q) || text_starts_with(lstate, q)
        || text_starts_with(lcountry, q)
}

/// `s` with `w` read as `v` and `W` as `V`.
pub fn fold_w_to_v(s: &str) -> (r: String)
    ensures
        r@ == fold_w(s@),
{
    let cs = chars_of(s);
    let mut r = String::new();
    let mut i: usize = 0;
    while i < cs.len()
        invariant
            i <= cs@.len(),
            cs@ == s@,
            r@ == fold_w(s@.take(i as int)),
        decreases cs@.len() - i,
    {
        let c = cs[i];
        let f = if c == 'w' {
            'v'
        } else if c == 'W' {
            'V'
        } else {
            c
        };
        push_char(&mut r, f);
        i = i + 1;
        assert(fold_w(s@.take(i as int)) =~= fold_w(s@.take(i - 1)).push(f));
    }
    assert(s@.take(cs@.len() as int) =~= s@);
    r
}

/// Perform a search on the city database.
/// First attempts a prefix search (MATCH 'prefix*').
/// If prefix search yields zero results, falls back to Soundex phonetic lookup
/// (a plain Soundex match, or one once `w` is read as `v`, so "Denwer" still
/// finds Denver).
pub fn search_cities(query: &str) -> (r: Vec<City>)
    ensures
        r@ == city_search_result(query@),
        is_ascii_text(trimmed(query@)) ==> lowercase(trimmed(query@)) == trimmed(
            query@,
        ).map_values(|c: char| ascii_lower(c)),
{
    let trimmed_query = trim_text(query);
    let clean = to_lowercase(trimmed_query.as_str());
    search_cities_lowercased(clean.as_str())
}

/// [`search_cities`] for a query that is already trimmed and lowercased.
pub fn search_cities_lowercased(clean: &str) -> (r: Vec<City>)
    ensures
        r@ == cities_for_query(clean@),
{
    let all = builtin_cities();
    if char_count(clean) == 0 {
        return all;
    }
    let ghost q = clean@;
    let mut hits: Vec<City> = Vec::new();
    let mut i: usize = 0;
    while i < all.len()
        invariant
            i <= all@.len(),
            all@ == city_table(),
            q == clean@,
            hits@ == all@.take(i as int).filter(text_match_pred(q)),
        decreases all@.len() - i,
    {
        let c = all[i];
        proof {
            reveal(Seq::filter);
            assert(all@.take(i + 1).drop_last() =~= all@.take(i as int));
        }
        if city_matches_text(&c, clean) {
            hits.push(c);
        }
        i = i + 1;
    }
    assert(all@.take(all@.len() as int) =~= all@);
    if hits.len() > 0 {
        return hits;
    }
    let code = soundex(clean);
    let folded = fold_w_to_v(clean);
    let folded_code = soundex(folded.as_str());
    let mut sounds: Vec<City> = Vec::new();
    let mut j: usize = 0;
    while j < all.len()
        invariant
            j <= all@.len(),
            all@ == city_table(),
            q == clean@,
            code@ == soundex_spec(q),
            folded_code@ == soundex_spec(fold_w(q)),
            sounds@ == all@.take(j as int).filter(sound_match_pred(q)),
        decreases all@.len() - j,
    {
        let c = all[j];
        proof {
            reveal(Seq::filter);
            assert(all@.take(j + 1).drop_last() =~= all@.take(j as int));
        }
        let name_code = soundex(c.name);
        let folded_name = fold_w_to_v(c.name);
        let folded_name_code = soundex(folded_name.as_str());
        if name_code == code || folded_name_code == folded_code {
            sounds.push(c);
        }
        j = j + 1;
    }
    sounds
}

proof fn lemma_filter_members(s: Seq<City>, pred: spec_fn(City) -> bool)
    ensures
        forall|k: int|
            0 <= k < s.filter(pred).len() ==> s.contains(#[trigger] s.filter(pred)[k]) && pred(
                s.filter(pred)[k],
            ),
    decreases s.len(),
{
    reveal(Seq::filter);
    if s.len() > 0 {
        let d = s.drop_last();
        lemma_filter_members(d, pred);
        let f = s.filter(pred);
        let fd = d.filter(pred);
        assert forall|k: int| 0 <= k < f.len() implies s.contains(#[trigger] f[k]) && pred(f[k]) by {
            if k < fd.len() {
                assert(f[k] == fd[k]);
                let j = choose|j: int| 0 <= j < d.len() && d[j] == fd[k];
                assert(s[j] == d[j]);
            } else {
                assert(f[k] == s.last());
                assert(s[s.len() - 1] == s.last());
            }
        }
    }
}

/// Every city a non-blank search returns comes from the catalog and matches
/// the query textually; only when no catalog city matches textually does
/// the search fall back to cities whose names sound like the query (the
/// same Soundex code, plain or with `w` read as `v`).
pub proof fn law_city_hits_match(query: Seq<char>)
    ensures
        ({
            let q = lowercase(trimmed(query));
            let r = city_search_result(query);
            trimmed(query).len() > 0 ==> forall|k: int|
                0 <= k < r.len() ==> city_table().contains(#[trigger] r[k]) && (city_text_match(
                    r[k],
                    q,
                ) || ((forall|j: int|
                    0 <= j < city_table().len() ==> !city_text_match(#[trigger] city_table()[j], q))
                    && sounds_like(r[k], q)))
        }),
{
    let q = lowercase(trimmed(query));
    let t = city_table();
    lemma_filter_members(t, text_match_pred(q));
    lemma_filter_members(t, sound_match_pred(q));
    let hits = t.filter(text_match_pred(q));
    if trimmed(query).len() > 0 && hits.len() == 0 {
        assert forall|j: int| 0 <= j < t.len() implies !city_text_match(#[trigger] t[j], q) by {
            if city_text_match(t[j], q) {
                t.lemma_filter_contains(text_match_pred(q), j);
            }
        }
    }
}

/// The phonetic fallback loses no plain Soundex match: when nothing in the
/// catalog matches a non-blank query textually, every city whose name has
/// the query's Soundex code is returned, and so is every city whose code
/// agrees once `w` is read as `v`.
pub proof fn law_fallback_keeps_soundex_matches(query: Seq<char>)
    ensures
        ({
            let q = lowercase(trimmed(query));
            let r = city_search_result(query);
            (trimmed(query).len() > 0 && q.len() > 0 && forall|j: int|
                0 <= j < city_table().len() ==> !city_text_match(#[trigger] city_table()[j], q))
                ==> forall|j: int|
                0 <= j < city_table().len() && sounds_like(#[trigger] city_table()[j], q)
                    ==> r.contains(city_table()[j])
        }),
{
    let q = lowercase(trimmed(query));
    let t = city_table();
    if trimmed(query).len() > 0 && q.len() > 0 && forall|j: int|
        0 <= j < t.len() ==> !city_text_match(#[trigger] t[j], q) {
        let hits = t.filter(text_match_pred(q));
        if hits.len() > 0 {
            lemma_filter_members(t, text_match_pred(q));
            let k = choose|k: int| 0 <= k < t.len() && t[k] == hits[0];
            assert(city_text_match(hits[0], q));
        }
        assert forall|j: int| 0 <= j < t.len() && sounds_like(#[trigger] t[j], q) implies city_search_result(
            query,
        ).contains(t[j]) by {
            t.lemma_filter_contains(sound_match_pred(q), j);
        }
    }
}

/// Soundex codes letters by the standard table. Behind a leading vowel,
/// each of B, F, P, V gives the digit 1; C, G, J, K, Q, S, X, Z give 2;
/// D, T give 3; L gives 4; M, N give 5; R gives 6; and the vowels, Y, H
/// and W give no digit (the code is padded with zeros).
pub proof fn law_soundex_letter_table(c: char)
    ensures
        "BFPV"@.contains(c) ==> soundex_encoding(seq!['A', c]) == seq!['A', '1', '0', '0'],
        "CGJKQSXZ"@.contains(c) ==> soundex_encoding(seq!['A', c]) == seq!['A', '2', '0', '0'],
        "DT"@.contains(c) ==> soundex_encoding(seq!['A', c]) == seq!['A', '3', '0', '0'],
        "L"@.contains(c) ==> soundex_encoding(seq!['A', c]) == seq!['A', '4', '0', '0'],
        "MN"@.contains(c) ==> soundex_encoding(seq!['A', c]) == seq!['A', '5', '0', '0'],
        "R"@.contains(c) ==> soundex_encoding(seq!['A', c]) == seq!['A', '6', '0', '0'],
        "AEIOUYHW"@.contains(c) ==> soundex_encoding(seq!['A', c]) == seq!['A', '0', '0', '0'],
{
    reveal_strlit("BFPV");
    reveal_strlit("CGJKQSXZ");
    reveal_strlit("DT");
    reveal_strlit("L");
    reveal_strlit("MN");
    reveal_strlit("R");
    reveal_strlit("AEIOUYHW");
    let rest = seq!['A', c].drop_first();
    assert(rest =~= seq![c]);
    assert(rest.drop_first() =~= Seq::<char>::empty());
    reveal_with_fuel(soundex_digits, 3);
}

} // verus!
