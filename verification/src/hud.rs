//! Word wrapping for the transient status messages shown over the sky.

use vstd::prelude::*;

use crate::text::{char_at, char_count, char_is_whitespace, is_white_space, push_char};

verus! {

/// Splits `s` on white space, given the word `cur` read so far and the
/// words `acc` already completed (the fold behind [`words`]).
pub open spec fn split_words(s: Seq<char>, cur: Seq<char>, acc: Seq<Seq<char>>) -> Seq<Seq<char>>
    decreases s.len(),
{
    if s.len() == 0 {
        if cur.len() > 0 {
            acc.push(cur)
        } else {
            acc
        }
    } else if is_white_space(s[0]) {
        split_words(
            s.drop_first(),
            seq![],
            if cur.len() > 0 {
                acc.push(cur)
            } else {
                acc
            },
        )
    } else {
        split_words(s.drop_first(), cur.push(s[0]), acc)
    }
}

/// The maximal runs of non-white-space characters of `s`, in order
/// (what `str::split_whitespace` yields).
pub open spec fn words(s: Seq<char>) -> Seq<Seq<char>> {
    split_words(s, seq![], seq![])
}

/// Greedy line filling: `lines` are finished, `cur` is the line being
/// filled; each word joins `cur` after one space when the result stays
/// within `max_chars` characters, and otherwise starts a new line.
pub open spec fn fill_lines(ws: Seq<Seq<char>>, max_chars: int, lines: Seq<Seq<char>>, cur: Seq<char>) -> Seq<
    Seq<char>,
>
    decreases ws.len(),
{
    if ws.len() == 0 {
        if cur.len() > 0 {
            lines.push(cur)
        } else {
            lines
        }
    } else {
        let w = ws[0];
        if cur.len() == 0 {
            fill_lines(ws.drop_first(), max_chars, lines, w)
        } else if cur.len() + 1 + w.len() <= max_chars {
            fill_lines(ws.drop_first(), max_chars, lines, cur + seq![' '] + w)
        } else {
            fill_lines(ws.drop_first(), max_chars, lines.push(cur), w)
        }
    }
}

/// Lines `wrap_toast_message` produces: the greedy fill of the message's
/// words, or a single blank line when there are none.
pub open spec fn toast_lines(message: Seq<char>, max_chars: int) -> Seq<Seq<char>> {
    let lines = fill_lines(words(message), max_chars, seq![], seq![]);
    if lines.len() == 0 {
        seq![seq![]]
    } else {
        lines
    }
}

/// Views of a sequence of strings.
pub open spec fn string_views(v: Seq<String>) -> Seq<Seq<char>> {
    v.map_values(|s: String| s@)
}

/// Splits a message into its white-space separated words.
pub fn split_whitespace_words(message: &str) -> (r: Vec<String>)
    ensures
        string_views(r@) == words(message@),
{
    let n = char_count(message);
    let ghost s = message@;
    let mut acc: Vec<String> = Vec::new();
    let mut cur = String::new();
    let mut cur_n: usize = 0;
    let mut i: usize = 0;
    assert(s.subrange(0, n as int) =~= s);
    assert(string_views(acc@) =~= seq![]);
    assert(cur@ =~= seq![]);
    while i < n
        invariant
            i <= n,
            n == s.len(),
            s == message@,
            cur_n == cur@.len(),
            cur_n <= i,
            words(s) == split_words(s.subrange(i as int, n as int), cur@, string_views(acc@)),
        decreases n - i,
    {
        let c = char_at(message, i);
        let ghost rest = s.subrange(i as int, n as int);
        assert(rest[0] == c);
        assert(rest.drop_first() =~= s.subrange(i + 1, n as int));
        if char_is_whitespace(c) {
            assert(cur_n == 0 ==> cur@ =~= seq![]);
            if cur_n > 0 {
                let ghost before = acc@;
                acc.push(cur);
                assert(string_views(acc@) =~= string_views(before).push(cur@));
                cur = String::new();
                cur_n = 0;
                assert(cur@ =~= seq![]);
            }
        } else {
            push_char(&mut cur, c);
            cur_n = cur_n + 1;
        }
        i = i + 1;
    }
    if cur_n > 0 {
        let ghost before = acc@;
        acc.push(cur);
        assert(string_views(acc@) =~= string_views(before).push(cur@));
    }
    acc
}

/// Greedy word-wrap on whitespace. A word longer than `max_chars` is
/// placed on its own line (and overflows the card visually); for
/// our toast messages — short imperative sentences — that's good
/// enough and avoids a measure-and-shape loop on the hot paint
/// path. Char-count is a rough proxy for visual width since the
/// bundled monospace font has near-uniform advances.
pub fn wrap_toast_message(message: &str, max_chars: usize) -> (lines: Vec<String>)
    ensures
        string_views(lines@) == toast_lines(message@, max_chars as int),
{
    let words = split_whitespace_words(message);
    let ghost ws = string_views(words@);
    let mut lines: Vec<String> = Vec::new();
    let mut current = String::new();
    let mut cur_len: usize = 0;
    let mut i: usize = 0;
    assert(ws.subrange(0, ws.len() as int) =~= ws);
    assert(string_views(lines@) =~= seq![]);
    assert(current@ =~= seq![]);
    while i < words.len()
        invariant
            i <= words@.len(),
            ws == string_views(words@),
            cur_len == current@.len(),
            fill_lines(ws, max_chars as int, seq![], seq![]) == fill_lines(
                ws.subrange(i as int, ws.len() as int),
                max_chars as int,
                string_views(lines@),
                current@,
            ),
        decreases words@.len() - i,
    {
        let word = &words[i];
        let wlen = char_count(word.as_str());
        let ghost rest = ws.subrange(i as int, ws.len() as int);
        assert(rest[0] == word@);
        assert(rest.drop_first() =~= ws.subrange(i + 1, ws.len() as int));
        if cur_len == 0 {
            current = word.clone();
            cur_len = wlen;
        } else if wlen < max_chars && cur_len < max_chars - wlen {
            let ghost old_cur = current@;
            push_char(&mut current, ' ');
            let mut k: usize = 0;
            while k < wlen
                invariant
                    k <= wlen,
                    wlen == word@.len(),
                    current@ == old_cur + seq![' '] + word@.subrange(0, k as int),
                decreases wlen - k,
            {
                push_char(&mut current, char_at(word.as_str(), k));
                k = k + 1;
                assert(current@ =~= old_cur + seq![' '] + word@.subrange(0, k as int));
            }
            assert(word@.subrange(0, wlen as int) =~= word@);
            cur_len = cur_len + 1 + wlen;
        } else {
            let ghost before = lines@;
            lines.push(current);
            assert(string_views(lines@) =~= string_views(before).push(current@));
            current = word.clone();
            cur_len = wlen;
        }
        i = i + 1;
    }
    if cur_len > 0 {
        let ghost before = lines@;
        lines.push(current);
        assert(string_views(lines@) =~= string_views(before).push(current@));
    }
    if lines.len() == 0 {
        lines.push(String::new());
        assert(string_views(lines@) =~= seq![seq![]]);
    }
    lines
}

/// `rest` appended to `acc`, each element preceded by one space.
pub open spec fn join_from(rest: Seq<Seq<char>>, acc: Seq<char>) -> Seq<char>
    decreases rest.len(),
{
    if rest.len() == 0 {
        acc
    } else {
        join_from(rest.drop_first(), acc + seq![' '] + rest[0])
    }
}

/// The elements of `s` joined with single spaces (`[..].join(" ")`).
pub open spec fn join_spaced(s: Seq<Seq<char>>) -> Seq<char> {
    if s.len() == 0 {
        seq![]
    } else {
        join_from(s.drop_first(), s[0])
    }
}

/// A word: non-empty and free of white space.
pub open spec fn is_word(w: Seq<char>) -> bool {
    w.len() > 0 && forall|k: int| 0 <= k < w.len() ==> !is_white_space(#[trigger] w[k])
}

/// A line fits: at most `max_chars` characters, or a single word with no
/// space to break at.
pub open spec fn line_fits(line: Seq<char>, max_chars: int) -> bool {
    line.len() <= max_chars || !line.contains(' ')
}

proof fn lemma_split_words_are_words(s: Seq<char>, cur: Seq<char>, acc: Seq<Seq<char>>)
    requires
        forall|k: int| 0 <= k < acc.len() ==> is_word(#[trigger] acc[k]),
        forall|k: int| 0 <= k < cur.len() ==> !is_white_space(#[trigger] cur[k]),
    ensures
        forall|k: int|
            0 <= k < split_words(s, cur, acc).len() ==> is_word(#[trigger] split_words(s, cur, acc)[k]),
    decreases s.len(),
{
    let acc2 = if cur.len() > 0 {
        acc.push(cur)
    } else {
        acc
    };
    assert forall|k: int| 0 <= k < acc2.len() implies is_word(#[trigger] acc2[k]) by {
        if k < acc.len() {
            assert(acc2[k] == acc[k]);
        }
    }
    if s.len() == 0 {
        assert(split_words(s, cur, acc) == acc2);
    } else {
        if is_white_space(s[0]) {
            assert(split_words(s, cur, acc) == split_words(s.drop_first(), seq![], acc2));
            lemma_split_words_are_words(s.drop_first(), seq![], acc2);
        } else {
            let cur2 = cur.push(s[0]);
            assert forall|k: int| 0 <= k < cur2.len() implies !is_white_space(#[trigger] cur2[k]) by {
                if k < cur.len() {
                    assert(cur2[k] == cur[k]);
                }
            }
            assert(split_words(s, cur, acc) == split_words(s.drop_first(), cur2, acc));
            lemma_split_words_are_words(s.drop_first(), cur2, acc);
        }
    }
}

/// Every element of `words(s)` is a non-empty run without white space.
pub proof fn lemma_words_are_words(s: Seq<char>)
    ensures
        forall|k: int| 0 <= k < words(s).len() ==> is_word(#[trigger] words(s)[k]),
{
    lemma_split_words_are_words(s, seq![], seq![]);
}

proof fn lemma_join_from_push(rest: Seq<Seq<char>>, acc: Seq<char>, x: Seq<char>)
    ensures
        join_from(rest.push(x), acc) == join_from(rest, acc) + seq![' '] + x,
    decreases rest.len(),
{
    let r = rest.push(x);
    assert(r[0] == if rest.len() == 0 {
        x
    } else {
        rest[0]
    });
    if rest.len() == 0 {
        assert(r.drop_first() =~= seq![]);
        assert(join_from(r, acc) == join_from(r.drop_first(), acc + seq![' '] + x));
    } else {
        assert(r.drop_first() =~= rest.drop_first().push(x));
        lemma_join_from_push(rest.drop_first(), acc + seq![' '] + rest[0], x);
    }
}

proof fn lemma_join_spaced_push(s: Seq<Seq<char>>, x: Seq<char>)
    ensures
        join_spaced(s.push(x)) == if s.len() == 0 {
            x
        } else {
            join_spaced(s) + seq![' '] + x
        },
{
    if s.len() == 0 {
        assert(s.push(x).drop_first() =~= seq![]);
    } else {
        assert(s.push(x).drop_first() =~= s.drop_first().push(x));
        lemma_join_from_push(s.drop_first(), s[0], x);
    }
}

proof fn lemma_fill_lines_join(ws: Seq<Seq<char>>, max_chars: int, lines: Seq<Seq<char>>, cur: Seq<char>)
    requires
        forall|k: int| 0 <= k < ws.len() ==> (#[trigger] ws[k]).len() > 0,
        cur.len() > 0,
    ensures
        join_spaced(fill_lines(ws, max_chars, lines, cur)) == join_from(
            ws,
            join_spaced(lines.push(cur)),
        ),
    decreases ws.len(),
{
    if ws.len() > 0 {
        let w = ws[0];
        let rest = ws.drop_first();
        assert forall|k: int| 0 <= k < rest.len() implies (#[trigger] rest[k]).len() > 0 by {
            assert(rest[k] == ws[k + 1]);
        }
        lemma_join_spaced_push(lines, cur);
        if cur.len() + 1 + w.len() <= max_chars {
            let cur2 = cur + seq![' '] + w;
            lemma_fill_lines_join(rest, max_chars, lines, cur2);
            lemma_join_spaced_push(lines, cur2);
            assert(join_spaced(lines.push(cur2)) =~= join_spaced(lines.push(cur)) + seq![' '] + w);
        } else {
            lemma_fill_lines_join(rest, max_chars, lines.push(cur), w);
            lemma_join_spaced_push(lines.push(cur), w);
        }
    }
}

proof fn lemma_fill_lines_fit(ws: Seq<Seq<char>>, max_chars: int, lines: Seq<Seq<char>>, cur: Seq<char>)
    requires
        max_chars >= 0,
        forall|k: int| 0 <= k < ws.len() ==> is_word(#[trigger] ws[k]),
        forall|k: int| 0 <= k < lines.len() ==> line_fits(#[trigger] lines[k], max_chars),
        line_fits(cur, max_chars),
    ensures
        forall|k: int|
            0 <= k < fill_lines(ws, max_chars, lines, cur).len() ==> line_fits(
                #[trigger] fill_lines(ws, max_chars, lines, cur)[k],
                max_chars,
            ),
    decreases ws.len(),
{
    if ws.len() == 0 {
        if cur.len() > 0 {
            let r = lines.push(cur);
            assert(fill_lines(ws, max_chars, lines, cur) == r);
            assert forall|k: int| 0 <= k < r.len() implies line_fits(#[trigger] r[k], max_chars) by {
                if k < lines.len() {
                    assert(r[k] == lines[k]);
                }
            }
        }
    } else {
        let w = ws[0];
        let rest = ws.drop_first();
        assert forall|k: int| 0 <= k < rest.len() implies is_word(#[trigger] rest[k]) by {
            assert(rest[k] == ws[k + 1]);
        }
        assert(is_word(w));
        assert(!w.contains(' ')) by {
            if w.contains(' ') {
                let k = choose|k: int| 0 <= k < w.len() && w[k] == ' ';
                assert(!is_white_space(w[k]));
            }
        }
        if cur.len() == 0 {
            assert(fill_lines(ws, max_chars, lines, cur) == fill_lines(rest, max_chars, lines, w));
            lemma_fill_lines_fit(rest, max_chars, lines, w);
        } else if cur.len() + 1 + w.len() <= max_chars {
            assert(fill_lines(ws, max_chars, lines, cur) == fill_lines(
                rest,
                max_chars,
                lines,
                cur + seq![' '] + w,
            ));
            lemma_fill_lines_fit(rest, max_chars, lines, cur + seq![' '] + w);
        } else {
            let l2 = lines.push(cur);
            assert(fill_lines(ws, max_chars, lines, cur) == fill_lines(rest, max_chars, l2, w));
            assert forall|k: int| 0 <= k < l2.len() implies line_fits(#[trigger] l2[k], max_chars) by {
                if k < lines.len() {
                    assert(l2[k] == lines[k]);
                }
            }
            lemma_fill_lines_fit(rest, max_chars, l2, w);
        }
    }
}

/// Wrapping loses no word and invents none: the wrapped lines joined with
/// single spaces read exactly as the message's words joined with single
/// spaces.
pub proof fn law_wrap_preserves_words(message: Seq<char>, max_chars: usize)
    ensures
        join_spaced(toast_lines(message, max_chars as int)) == join_spaced(words(message)),
{
    let ws = words(message);
    lemma_words_are_words(message);
    if ws.len() == 0 {
        assert(seq![seq![]].drop_first() =~= Seq::<Seq<char>>::empty());
    } else {
        let w = ws[0];
        let rest = ws.drop_first();
        assert forall|k: int| 0 <= k < rest.len() implies (#[trigger] rest[k]).len() > 0 by {
            assert(rest[k] == ws[k + 1]);
            assert(is_word(ws[k + 1]));
        }
        assert(is_word(ws[0]));
        lemma_fill_lines_join(rest, max_chars as int, seq![], w);
        lemma_join_spaced_push(seq![], w);
        assert(seq![].push(w) =~= seq![w]);
        lemma_fill_lines_nonempty(rest, max_chars as int, seq![], w);
    }
}

proof fn lemma_fill_lines_nonempty(ws: Seq<Seq<char>>, max_chars: int, lines: Seq<Seq<char>>, cur: Seq<char>)
    requires
        cur.len() > 0,
    ensures
        fill_lines(ws, max_chars, lines, cur).len() > 0,
    decreases ws.len(),
{
    if ws.len() > 0 {
        let w = ws[0];
        if cur.len() + 1 + w.len() <= max_chars {
            lemma_fill_lines_nonempty(ws.drop_first(), max_chars, lines, cur + seq![' '] + w);
        } else {
            lemma_fill_lines_nonempty_from(ws.drop_first(), max_chars, lines.push(cur), w);
        }
    }
}

proof fn lemma_fill_lines_nonempty_from(ws: Seq<Seq<char>>, max_chars: int, lines: Seq<Seq<char>>, cur: Seq<char>)
    requires
        lines.len() > 0 || cur.len() > 0,
    ensures
        fill_lines(ws, max_chars, lines, cur).len() > 0,
    decreases ws.len(),
{
    if ws.len() > 0 {
        let w = ws[0];
        if cur.len() == 0 {
            lemma_fill_lines_nonempty_from(ws.drop_first(), max_chars, lines, w);
        } else if cur.len() + 1 + w.len() <= max_chars {
            lemma_fill_lines_nonempty_from(ws.drop_first(), max_chars, lines, cur + seq![' '] + w);
        } else {
            lemma_fill_lines_nonempty_from(ws.drop_first(), max_chars, lines.push(cur), w);
        }
    }
}

/// Every wrapped line fits the width, unless it is a single word too long
/// to break (such a line holds no space).
pub proof fn law_wrap_lines_fit(message: Seq<char>, max_chars: usize)
    ensures
        forall|k: int|
            0 <= k < toast_lines(message, max_chars as int).len() ==> line_fits(
                #[trigger] toast_lines(message, max_chars as int)[k],
                max_chars as int,
            ),
{
    lemma_words_are_words(message);
    assert(line_fits(seq![], max_chars as int));
    lemma_fill_lines_fit(words(message), max_chars as int, seq![], seq![]);
    let l = fill_lines(words(message), max_chars as int, seq![], seq![]);
    if l.len() == 0 {
        let b: Seq<Seq<char>> = seq![seq![]];
        assert forall|k: int| 0 <= k < b.len() implies line_fits(#[trigger] b[k], max_chars as int) by {
            assert(b[k] =~= seq![]);
        }
    }
}

/// The card always gets at least one line, a single blank line when the
/// message holds no word.
pub proof fn law_wrap_never_empty(message: Seq<char>, max_chars: usize)
    ensures
        toast_lines(message, max_chars as int).len() >= 1,
        words(message).len() == 0 ==> toast_lines(message, max_chars as int) == seq![
            Seq::<char>::empty(),
        ],
{
}

/// The characters of `s` that are not white space, in order.
pub open spec fn non_white(s: Seq<char>) -> Seq<char>
    decreases s.len(),
{
    if s.len() == 0 {
        seq![]
    } else if is_white_space(s[0]) {
        non_white(s.drop_first())
    } else {
        seq![s[0]] + non_white(s.drop_first())
    }
}

/// The pieces of `ws` written one after the other, with nothing between.
pub open spec fn concat_all(ws: Seq<Seq<char>>) -> Seq<char>
    decreases ws.len(),
{
    if ws.len() == 0 {
        seq![]
    } else {
        concat_all(ws.drop_last()) + ws.last()
    }
}

proof fn lemma_split_words_keep_text(s: Seq<char>, cur: Seq<char>, acc: Seq<Seq<char>>)
    ensures
        concat_all(split_words(s, cur, acc)) == concat_all(acc) + cur + non_white(s),
    decreases s.len(),
{
    let acc2 = if cur.len() > 0 {
        acc.push(cur)
    } else {
        acc
    };
    if cur.len() > 0 {
        assert(acc.push(cur).drop_last() =~= acc);
    }
    assert(concat_all(acc2) =~= concat_all(acc) + cur);
    if s.len() == 0 {
        assert(concat_all(acc) + cur + non_white(s) =~= concat_all(acc) + cur);
    } else if is_white_space(s[0]) {
        lemma_split_words_keep_text(s.drop_first(), seq![], acc2);
        assert(concat_all(acc2) + seq![] + non_white(s.drop_first()) =~= concat_all(acc) + cur
            + non_white(s));
    } else {
        lemma_split_words_keep_text(s.drop_first(), cur.push(s[0]), acc);
        assert(concat_all(acc) + cur.push(s[0]) + non_white(s.drop_first()) =~= concat_all(acc)
            + cur + non_white(s));
    }
}

/// Words are split exactly at white space: written one after the other,
/// the words give back every character of the message that is not white
/// space, in order, and no word holds white space or is empty.
pub proof fn law_words_keep_every_visible_character(message: Seq<char>)
    ensures
        concat_all(words(message)) == non_white(message),
        forall|k: int|
            0 <= k < words(message).len() ==> (#[trigger] words(message)[k]).len() > 0 && forall|
                j: int,
            |
                0 <= j < words(message)[k].len() ==> !is_white_space(#[trigger] words(message)[k][j]),
{
    lemma_split_words_keep_text(message, seq![], seq![]);
    assert(concat_all(Seq::<Seq<char>>::empty()) + seq![] + non_white(message) =~= non_white(
        message,
    ));
    lemma_words_are_words(message);
}

proof fn lemma_non_white_concat(a: Seq<char>, b: Seq<char>)
    ensures
        non_white(a + b) == non_white(a) + non_white(b),
    decreases a.len(),
{
    if a.len() == 0 {
        assert(a + b =~= b);
        assert(non_white(a) + non_white(b) =~= non_white(b));
    } else {
        assert((a + b).drop_first() =~= a.drop_first() + b);
        assert((a + b)[0] == a[0]);
        lemma_non_white_concat(a.drop_first(), b);
        if !is_white_space(a[0]) {
            assert(seq![a[0]] + (non_white(a.drop_first()) + non_white(b)) =~= (seq![a[0]]
                + non_white(a.drop_first())) + non_white(b));
        }
    }
}

proof fn lemma_non_white_of_word(w: Seq<char>)
    requires
        forall|k: int| 0 <= k < w.len() ==> !is_white_space(#[trigger] w[k]),
    ensures
        non_white(w) == w,
    decreases w.len(),
{
    if w.len() > 0 {
        assert forall|k: int| 0 <= k < w.drop_first().len() implies !is_white_space(
            #[trigger] w.drop_first()[k],
        ) by {
            assert(w.drop_first()[k] == w[k + 1]);
        }
        lemma_non_white_of_word(w.drop_first());
        assert(!is_white_space(w[0]));
        assert(seq![w[0]] + w.drop_first() =~= w);
    }
}

proof fn lemma_non_white_join(ws: Seq<Seq<char>>)
    requires
        forall|k: int| 0 <= k < ws.len() ==> is_word(#[trigger] ws[k]),
    ensures
        non_white(join_spaced(ws)) == concat_all(ws),
    decreases ws.len(),
{
    if ws.len() > 0 {
        let d = ws.drop_last();
        let x = ws.last();
        assert forall|k: int| 0 <= k < d.len() implies is_word(#[trigger] d[k]) by {
            assert(d[k] == ws[k]);
        }
        assert(is_word(ws[ws.len() - 1]));
        lemma_non_white_join(d);
        assert(d.push(x) =~= ws);
        lemma_join_spaced_push(d, x);
        lemma_non_white_of_word(x);
        if d.len() == 0 {
            assert(concat_all(ws) == concat_all(d) + x);
            assert(concat_all(d) + x =~= x);
        } else {
            lemma_non_white_concat(join_spaced(d) + seq![' '], x);
            lemma_non_white_concat(join_spaced(d), seq![' ']);
            assert(seq![' '].drop_first() =~= Seq::<char>::empty());
            assert(is_white_space(seq![' '][0]));
            assert(non_white(seq![' '].drop_first()) =~= seq![]);
            assert(non_white(seq![' ']) =~= seq![]);
            assert(non_white(join_spaced(d)) + seq![] =~= non_white(join_spaced(d)));
        }
    }
}

/// Wrapping keeps the text: the wrapped lines, joined with spaces and with
/// white space removed, give back exactly the message's characters that are
/// not white space, in order.
pub proof fn law_wrap_keeps_every_visible_character(message: Seq<char>, max_chars: usize)
    ensures
        non_white(join_spaced(toast_lines(message, max_chars as int))) == non_white(message),
{
    law_wrap_preserves_words(message, max_chars);
    law_words_keep_every_visible_character(message);
    lemma_words_are_words(message);
    lemma_non_white_join(words(message));
}

} // verus!
