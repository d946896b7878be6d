//! The tokenizer: one input line becomes a vector of argument strings under
//! Bourne-style quoting rules, evaluated character by character with two
//! quote-mode bits and an escape that consumes the following character.
//!
//! Rules, in the order they are tried at each character:
//! - an unquoted space ends the pending token; runs of spaces emit nothing,
//!   so no empty token ever appears;
//! - a newline is ignored;
//! - a backslash outside single quotes consumes the next character: inside
//!   double quotes it is dropped only before `"`, `\`, `$` or a backtick and
//!   kept otherwise, outside quotes it is always dropped; a trailing bare
//!   backslash is dropped silently;
//! - a quote character toggles its mode when not inside the other quote;
//! - anything else is appended to the pending token.
use vstd::prelude::*;

use crate::strutil::chars_to_string;

verus! {

/// Appends the pending token `cur` to `acc` when it is non-empty. Empty
/// pending tokens are never emitted, so separators never produce empty
/// arguments.
pub open spec fn flush_token(cur: Seq<char>, acc: Seq<Seq<char>>) -> Seq<Seq<char>> {
    if cur.len() > 0 {
        acc.push(cur)
    } else {
        acc
    }
}

/// The four characters before which a backslash inside double quotes escapes:
/// the backslash is dropped and only `d` is emitted. Before any other
/// character both the backslash and `d` are kept.
pub open spec fn dq_escapable(d: char) -> bool {
    d == '"' || d == '\\' || d == '$' || d == '`'
}

/// The tokenizer's state machine, reading `s` from position `i` with quote
/// modes `in_single` and `in_double`, a pending token `cur` and the tokens
/// `acc` already emitted.
pub open spec fn tokenize_from(
    s: Seq<char>,
    i: int,
    in_single: bool,
    in_double: bool,
    cur: Seq<char>,
    acc: Seq<Seq<char>>,
) -> Seq<Seq<char>>
    decreases s.len() - i,
{
    if !(0 <= i < s.len()) {
        flush_token(cur, acc)
    } else {
        let c = s[i];
        if c == ' ' && !in_single && !in_double {
            tokenize_from(s, i + 1, in_single, in_double, Seq::empty(), flush_token(cur, acc))
        } else if c == '\n' {
            tokenize_from(s, i + 1, in_single, in_double, cur, acc)
        } else if c == '\\' && !in_single {
            if i + 1 >= s.len() {
                flush_token(cur, acc)
            } else if in_double && !dq_escapable(s[i + 1]) {
                tokenize_from(s, i + 2, in_single, in_double, cur.push('\\').push(s[i + 1]), acc)
            } else {
                tokenize_from(s, i + 2, in_single, in_double, cur.push(s[i + 1]), acc)
            }
        } else if c == '\'' && !in_double {
            tokenize_from(s, i + 1, !in_single, in_double, cur, acc)
        } else if c == '"' && !in_single {
            tokenize_from(s, i + 1, in_single, !in_double, cur, acc)
        } else {
            tokenize_from(s, i + 1, in_single, in_double, cur.push(c), acc)
        }
    }
}

/// The tokens of one input line.
pub open spec fn tokens_of(s: Seq<char>) -> Seq<Seq<char>> {
    tokenize_from(s, 0, false, false, Seq::empty(), Seq::empty())
}

/// Every token of `ts` is non-empty.
pub open spec fn all_tokens_nonempty(ts: Seq<Seq<char>>) -> bool {
    forall|k: int| 0 <= k < ts.len() ==> ts[k].len() > 0
}

proof fn lemma_flush_token_nonempty(cur: Seq<char>, acc: Seq<Seq<char>>)
    requires
        all_tokens_nonempty(acc),
    ensures
        all_tokens_nonempty(flush_token(cur, acc)),
{
    if cur.len() > 0 {
        assert forall|k: int|
            0 <= k < flush_token(cur, acc).len() implies flush_token(cur, acc)[k].len() > 0 by {
            if k < acc.len() {
                assert(flush_token(cur, acc)[k] == acc[k]);
            } else {
                assert(flush_token(cur, acc)[k] == cur);
            }
        }
    }
}

proof fn lemma_tokenize_from_nonempty(
    s: Seq<char>,
    i: int,
    in_single: bool,
    in_double: bool,
    cur: Seq<char>,
    acc: Seq<Seq<char>>,
)
    requires
        all_tokens_nonempty(acc),
    ensures
        all_tokens_nonempty(tokenize_from(s, i, in_single, in_double, cur, acc)),
    decreases s.len() - i,
{
    reveal_with_fuel(tokenize_from, 2);
    lemma_flush_token_nonempty(cur, acc);
    if !(0 <= i < s.len()) {
    } else {
        let c = s[i];
        if c == ' ' && !in_single && !in_double {
            lemma_tokenize_from_nonempty(
                s,
                i + 1,
                in_single,
                in_double,
                Seq::empty(),
                flush_token(cur, acc),
            );
        } else if c == '\n' {
            lemma_tokenize_from_nonempty(s, i + 1, in_single, in_double, cur, acc);
        } else if c == '\\' && !in_single {
            if i + 1 >= s.len() {
            } else if in_double && !dq_escapable(s[i + 1]) {
                lemma_tokenize_from_nonempty(
                    s,
                    i + 2,
                    in_single,
                    in_double,
                    cur.push('\\').push(s[i + 1]),
                    acc,
                );
            } else {
                lemma_tokenize_from_nonempty(s, i + 2, in_single, in_double, cur.push(s[i + 1]), acc);
            }
        } else if c == '\'' && !in_double {
            lemma_tokenize_from_nonempty(s, i + 1, !in_single, in_double, cur, acc);
        } else if c == '"' && !in_single {
            lemma_tokenize_from_nonempty(s, i + 1, in_single, !in_double, cur, acc);
        } else {
            lemma_tokenize_from_nonempty(s, i + 1, in_single, in_double, cur.push(c), acc);
        }
    }
}

/// No input line tokenizes to a vector holding an empty string.
pub proof fn lemma_tokens_nonempty(s: Seq<char>)
    ensures
        all_tokens_nonempty(tokens_of(s)),
{
    lemma_tokenize_from_nonempty(s, 0, false, false, Seq::empty(), Seq::empty());
}

/// A character with no role in tokenization: not a separator, not a quote,
/// not an escape, not an ignored newline. Tokens made only of such
/// characters pass through the tokenizer unchanged.
pub open spec fn plain_char(c: char) -> bool {
    c != ' ' && c != '\'' && c != '"' && c != '\\' && c != '\n'
}

/// Every character of `t` is plain.
pub open spec fn token_plain(t: Seq<char>) -> bool {
    forall|j: int| 0 <= j < t.len() ==> plain_char(t[j])
}

/// Every token of `ts` is made of plain characters only.
pub open spec fn all_tokens_plain(ts: Seq<Seq<char>>) -> bool {
    forall|k: int| 0 <= k < ts.len() ==> token_plain(#[trigger] ts[k])
}

/// The tokens joined back into one line with a single space between
/// neighbours.
pub open spec fn join_spaced(ts: Seq<Seq<char>>) -> Seq<char>
    decreases ts.len(),
{
    if ts.len() == 0 {
        Seq::empty()
    } else if ts.len() == 1 {
        ts[0]
    } else {
        ts[0] + seq![' '] + join_spaced(ts.drop_first())
    }
}

/// Appending one more token to a join appends a separating space and the
/// token (the token alone if nothing was joined yet).
pub proof fn lemma_join_spaced_push(ts: Seq<Seq<char>>, t: Seq<char>)
    ensures
        join_spaced(ts.push(t)) == if ts.len() == 0 {
            t
        } else {
            join_spaced(ts) + seq![' '] + t
        },
    decreases ts.len(),
{
    reveal_with_fuel(join_spaced, 3);
    if ts.len() == 0 {
        assert(ts.push(t) =~= seq![t]);
        assert(join_spaced(seq![t]) == seq![t][0]);
    } else if ts.len() == 1 {
        assert(ts.push(t).drop_first() =~= seq![t]);
        assert(join_spaced(ts.push(t)) == ts.push(t)[0] + seq![' '] + join_spaced(
            ts.push(t).drop_first(),
        ));
        assert(ts.push(t)[0] == ts[0]);
        assert(join_spaced(seq![t]) == seq![t][0]);
    } else {
        assert(ts.push(t).drop_first() =~= ts.drop_first().push(t));
        lemma_join_spaced_push(ts.drop_first(), t);
        assert(ts[0] + seq![' '] + (join_spaced(ts.drop_first()) + seq![' '] + t) =~= (ts[0]
            + seq![' '] + join_spaced(ts.drop_first())) + seq![' '] + t);
    }
}

/// Tokenizing from position `i` of `s` is tokenizing the suffix of `s` at
/// `i` from its start.
proof fn lemma_tokenize_suffix(
    s: Seq<char>,
    i: int,
    in_single: bool,
    in_double: bool,
    cur: Seq<char>,
    acc: Seq<Seq<char>>,
)
    requires
        0 <= i <= s.len(),
    ensures
        tokenize_from(s, i, in_single, in_double, cur, acc) == tokenize_from(
            s.skip(i),
            0,
            in_single,
            in_double,
            cur,
            acc,
        ),
    decreases s.len() - i,
{
    let u = s.skip(i);
    if i == s.len() {
        assert(u.len() == 0);
    } else {
        let c = s[i];
        assert(u[0] == c);
        assert(u.skip(1) =~= s.skip(i + 1));
        if c == ' ' && !in_single && !in_double {
            lemma_tokenize_suffix(s, i + 1, in_single, in_double, Seq::empty(), flush_token(cur, acc));
            lemma_tokenize_suffix(u, 1, in_single, in_double, Seq::empty(), flush_token(cur, acc));
        } else if c == '\n' {
            lemma_tokenize_suffix(s, i + 1, in_single, in_double, cur, acc);
            lemma_tokenize_suffix(u, 1, in_single, in_double, cur, acc);
        } else if c == '\\' && !in_single {
            if i + 1 >= s.len() {
                assert(u.len() == 1);
            } else {
                let d = s[i + 1];
                assert(u[1] == d);
                assert(u.skip(2) =~= s.skip(i + 2));
                let cur2 = if in_double && !dq_escapable(d) {
                    cur.push('\\').push(d)
                } else {
                    cur.push(d)
                };
                lemma_tokenize_suffix(s, i + 2, in_single, in_double, cur2, acc);
                lemma_tokenize_suffix(u, 2, in_single, in_double, cur2, acc);
            }
        } else if c == '\'' && !in_double {
            lemma_tokenize_suffix(s, i + 1, !in_single, in_double, cur, acc);
            lemma_tokenize_suffix(u, 1, !in_single, in_double, cur, acc);
        } else if c == '"' && !in_single {
            lemma_tokenize_suffix(s, i + 1, in_single, !in_double, cur, acc);
            lemma_tokenize_suffix(u, 1, in_single, !in_double, cur, acc);
        } else {
            lemma_tokenize_suffix(s, i + 1, in_single, in_double, cur.push(c), acc);
            lemma_tokenize_suffix(u, 1, in_single, in_double, cur.push(c), acc);
        }
    }
}

/// Outside quotes, a run of plain characters is appended to the pending
/// token and tokenization continues after it.
proof fn lemma_tokenize_plain_run(t: Seq<char>, u: Seq<char>, cur: Seq<char>, acc: Seq<Seq<char>>)
    requires
        token_plain(t),
    ensures
        tokenize_from(t + u, 0, false, false, cur, acc) == tokenize_from(
            u,
            0,
            false,
            false,
            cur + t,
            acc,
        ),
    decreases t.len(),
{
    if t.len() == 0 {
        assert(t + u =~= u);
        assert(cur + t =~= cur);
    } else {
        let s = t + u;
        let c = t[0];
        assert(s[0] == c);
        assert(plain_char(c));
        lemma_tokenize_suffix(s, 1, false, false, cur.push(c), acc);
        assert(s.skip(1) =~= t.drop_first() + u);
        lemma_tokenize_plain_run(t.drop_first(), u, cur.push(c), acc);
        assert(cur.push(c) + t.drop_first() =~= cur + t);
    }
}

/// Tokenizing the spaced join of non-empty plain tokens appends exactly
/// those tokens to what was already emitted.
proof fn lemma_tokenize_join(ts: Seq<Seq<char>>, acc: Seq<Seq<char>>)
    requires
        all_tokens_plain(ts),
        all_tokens_nonempty(ts),
    ensures
        tokenize_from(join_spaced(ts), 0, false, false, Seq::empty(), acc) == acc + ts,
    decreases ts.len(),
{
    if ts.len() == 0 {
        assert(acc + ts =~= acc);
    } else if ts.len() == 1 {
        let t = ts[0];
        assert(token_plain(t));
        assert(t + Seq::<char>::empty() =~= t);
        lemma_tokenize_plain_run(t, Seq::empty(), Seq::empty(), acc);
        assert(Seq::<char>::empty() + t =~= t);
        assert(acc.push(t) =~= acc + ts);
    } else {
        let t = ts[0];
        assert(token_plain(t));
        let rest = seq![' '] + join_spaced(ts.drop_first());
        assert(join_spaced(ts) =~= t + rest);
        lemma_tokenize_plain_run(t, rest, Seq::empty(), acc);
        assert(Seq::<char>::empty() + t =~= t);
        assert(rest[0] == ' ');
        lemma_tokenize_suffix(rest, 1, false, false, Seq::empty(), flush_token(t, acc));
        assert(rest.skip(1) =~= join_spaced(ts.drop_first()));
        assert(all_tokens_plain(ts.drop_first())) by {
            assert(forall|k: int|
                0 <= k < ts.drop_first().len() ==> ts.drop_first()[k] == ts[k + 1]);
        }
        assert(all_tokens_nonempty(ts.drop_first()));
        lemma_tokenize_join(ts.drop_first(), acc.push(t));
        assert(acc.push(t) + ts.drop_first() =~= acc + ts);
    }
}

/// A line of plain characters and spaces only: already-normalized input
/// with no quoting at work.
pub open spec fn line_plain(s: Seq<char>) -> bool {
    forall|j: int| 0 <= j < s.len() ==> plain_char(#[trigger] s[j]) || s[j] == ' '
}

proof fn lemma_flush_token_plain(cur: Seq<char>, acc: Seq<Seq<char>>)
    requires
        token_plain(cur),
        all_tokens_plain(acc),
    ensures
        all_tokens_plain(flush_token(cur, acc)),
{
    if cur.len() > 0 {
        assert forall|k: int|
            0 <= k < flush_token(cur, acc).len() implies token_plain(
            #[trigger] flush_token(cur, acc)[k],
        ) by {
            if k < acc.len() {
                assert(flush_token(cur, acc)[k] == acc[k]);
            } else {
                assert(flush_token(cur, acc)[k] == cur);
            }
        }
    }
}

proof fn lemma_tokenize_from_plain(s: Seq<char>, i: int, cur: Seq<char>, acc: Seq<Seq<char>>)
    requires
        line_plain(s),
        token_plain(cur),
        all_tokens_plain(acc),
    ensures
        all_tokens_plain(tokenize_from(s, i, false, false, cur, acc)),
    decreases s.len() - i,
{
    lemma_flush_token_plain(cur, acc);
    if !(0 <= i < s.len()) {
    } else {
        let c = s[i];
        if c == ' ' {
            lemma_tokenize_from_plain(s, i + 1, Seq::empty(), flush_token(cur, acc));
        } else {
            assert(plain_char(c));
            assert(token_plain(cur.push(c))) by {
                assert forall|j: int| 0 <= j < cur.push(c).len() implies plain_char(
                    cur.push(c)[j],
                ) by {
                    if j < cur.len() {
                        assert(cur.push(c)[j] == cur[j]);
                    } else {
                        assert(cur.push(c)[j] == c);
                    }
                }
            }
            lemma_tokenize_from_plain(s, i + 1, cur.push(c), acc);
        }
    }
}

/// The tokens of a line of plain characters and spaces are plain.
pub proof fn lemma_plain_line_tokens(s: Seq<char>)
    requires
        line_plain(s),
    ensures
        all_tokens_plain(tokens_of(s)),
{
    lemma_tokenize_from_plain(s, 0, Seq::empty(), Seq::empty());
}

/// Re-tokenizing the tokens of a line, joined back with single spaces,
/// yields the same tokens, provided every token is free of separator,
/// quote, escape and newline characters. (A token that keeps a space or a
/// quote through quoting, as in `echo 'a b'`, is split differently on the
/// second pass, so such lines are excluded.)
pub proof fn lemma_retokenize_join(line: Seq<char>)
    requires
        all_tokens_plain(tokens_of(line)),
    ensures
        tokens_of(join_spaced(tokens_of(line))) == tokens_of(line),
{
    lemma_tokens_nonempty(line);
    lemma_tokenize_join(tokens_of(line), Seq::empty());
    assert(Seq::<Seq<char>>::empty() + tokens_of(line) =~= tokens_of(line));
}

/// The same, from a hypothesis on the line itself: a line of plain
/// characters and spaces re-tokenizes to the same tokens after joining.
pub proof fn lemma_retokenize_plain_line(line: Seq<char>)
    requires
        line_plain(line),
    ensures
        tokens_of(join_spaced(tokens_of(line))) == tokens_of(line),
{
    lemma_plain_line_tokens(line);
    lemma_retokenize_join(line);
}

/// Splits one input line into argument strings under the quoting rules.
/// No produced token is empty.
pub fn tokenize(line: &str) -> (tokens: Vec<String>)
    ensures
        tokens.deep_view() == tokens_of(line@),
        all_tokens_nonempty(tokens.deep_view()),
{
    proof {
        lemma_tokens_nonempty(line@);
    }
    let n = line.unicode_len();
    let mut i: usize = 0;
    let mut in_single = false;
    let mut in_double = false;
    let mut cur: Vec<char> = Vec::new();
    let mut acc: Vec<String> = Vec::new();
    proof {
        assert(cur@ =~= Seq::<char>::empty());
        assert(acc.deep_view() =~= Seq::<Seq<char>>::empty());
    }
    while i < n
        invariant
            n == line@.len(),
            i <= n,
            tokenize_from(line@, i as int, in_single, in_double, cur@, acc.deep_view())
                == tokens_of(line@),
        decreases n - i,
    {
        let ghost prev_acc = acc.deep_view();
        let c = line.get_char(i);
        if c == ' ' && !in_single && !in_double {
            if cur.len() > 0 {
                let t = chars_to_string(&cur);
                acc.push(t);
                proof {
                    assert(acc.deep_view() =~= flush_token(cur@, prev_acc));
                }
                cur = Vec::new();
            }
            proof {
                assert(cur@ =~= Seq::<char>::empty());
            }
            i += 1;
        } else if c == '\n' {
            i += 1;
        } else if c == '\\' && !in_single {
            if i + 1 >= n {
                i = n;
            } else {
                let d = line.get_char(i + 1);
                if in_double && !(d == '"' || d == '\\' || d == '$' || d == '`') {
                    cur.push('\\');
                    cur.push(d);
                } else {
                    cur.push(d);
                }
                i += 2;
            }
        } else if c == '\'' && !in_double {
            in_single = !in_single;
            i += 1;
        } else if c == '"' && !in_single {
            in_double = !in_double;
            i += 1;
        } else {
            cur.push(c);
            i += 1;
        }
    }
    let ghost prev_acc = acc.deep_view();
    if cur.len() > 0 {
        let t = chars_to_string(&cur);
        acc.push(t);
        proof {
            assert(acc.deep_view() =~= flush_token(cur@, prev_acc));
        }
    }
    acc
}

} // verus!
