//! The `history` built-in: the shell's past input lines rendered with their
//! one-based numbers, and the parsing of its optional count argument.
use vstd::prelude::*;

use crate::strutil::chars_to_string;

verus! {

/// The character for one decimal digit.
pub open spec fn digit_char(d: nat) -> char {
    if d == 0 {
        '0'
    } else if d == 1 {
        '1'
    } else if d == 2 {
        '2'
    } else if d == 3 {
        '3'
    } else if d == 4 {
        '4'
    } else if d == 5 {
        '5'
    } else if d == 6 {
        '6'
    } else if d == 7 {
        '7'
    } else if d == 8 {
        '8'
    } else {
        '9'
    }
}

/// The decimal digits of `n`, most significant first, with no leading
/// zeroes (a single zero for zero itself).
pub open spec fn dec_digits(n: nat) -> Seq<char>
    decreases n,
{
    if n < 10 {
        seq![digit_char(n)]
    } else {
        dec_digits(n / 10).push(digit_char(n % 10))
    }
}

fn digit_char_exec(d: usize) -> (r: char)
    requires
        d < 10,
    ensures
        r == digit_char(d as nat),
{
    if d == 0 {
        '0'
    } else if d == 1 {
        '1'
    } else if d == 2 {
        '2'
    } else if d == 3 {
        '3'
    } else if d == 4 {
        '4'
    } else if d == 5 {
        '5'
    } else if d == 6 {
        '6'
    } else if d == 7 {
        '7'
    } else if d == 8 {
        '8'
    } else {
        '9'
    }
}

fn dec_chars(n: usize) -> (r: Vec<char>)
    ensures
        r@ == dec_digits(n as nat),
    decreases n,
{
    if n < 10 {
        let mut v: Vec<char> = Vec::new();
        v.push(digit_char_exec(n));
        proof {
            assert(v@ =~= seq![digit_char(n as nat)]);
        }
        v
    } else {
        let mut v = dec_chars(n / 10);
        v.push(digit_char_exec(n % 10));
        v
    }
}

/// Renders a number in decimal.
pub fn format_usize(n: usize) -> (r: String)
    ensures
        r@ == dec_digits(n as nat),
{
    let v = dec_chars(n);
    chars_to_string(&v)
}

/// Whether a character is a decimal digit.
pub open spec fn is_digit(c: char) -> bool {
    '0' <= c <= '9'
}

/// Every character of `s` is a decimal digit.
pub open spec fn all_digits(s: Seq<char>) -> bool {
    forall|j: int| 0 <= j < s.len() ==> is_digit(#[trigger] s[j])
}

/// The numeric value of one digit character.
pub open spec fn digit_val(c: char) -> nat {
    (c as nat - '0' as nat) as nat
}

/// The value of a digit string read in decimal.
pub open spec fn dec_val(s: Seq<char>) -> nat
    decreases s.len(),
{
    if s.len() == 0 {
        0
    } else {
        dec_val(s.drop_last()) * 10 + digit_val(s.last())
    }
}

proof fn lemma_dec_val_prefix_le(s: Seq<char>, i: int)
    requires
        0 <= i <= s.len(),
    ensures
        dec_val(s.take(i)) <= dec_val(s),
    decreases s.len() - i,
{
    if i == s.len() {
        assert(s.take(i) =~= s);
    } else {
        lemma_dec_val_prefix_le(s, i + 1);
        assert(s.take(i + 1).drop_last() =~= s.take(i));
        assert(dec_val(s.take(i + 1)) == dec_val(s.take(i)) * 10 + digit_val(s.take(i + 1).last()));
    }
}

/// Parses a decimal count: the digits' value when the string is non-empty,
/// all digits, and the value fits the machine word; nothing otherwise.
pub fn parse_usize(s: &str) -> (r: Option<usize>)
    ensures
        r is Some <==> s@.len() > 0 && all_digits(s@) && dec_val(s@) <= usize::MAX,
        r is Some ==> r->0 == dec_val(s@),
{
    let n = s.unicode_len();
    if n == 0 {
        return None;
    }
    let mut acc: usize = 0;
    let mut i: usize = 0;
    proof {
        assert(s@.take(0) =~= Seq::<char>::empty());
    }
    while i < n
        invariant
            n == s@.len(),
            i <= n,
            all_digits(s@.take(i as int)),
            acc == dec_val(s@.take(i as int)),
        decreases n - i,
    {
        let c = s.get_char(i);
        if !(c >= '0' && c <= '9') {
            proof {
                assert(s@[i as int] == c);
                assert(!is_digit(s@[i as int]));
            }
            return None;
        }
        let d = (c as u32 - '0' as u32) as usize;
        proof {
            assert(d == digit_val(c));
        }
        let next = match acc.checked_mul(10) {
            Some(m) => m.checked_add(d),
            None => None,
        };
        proof {
            assert(s@.take(i as int + 1).drop_last() =~= s@.take(i as int));
            assert(dec_val(s@.take(i as int + 1)) == acc * 10 + d);
        }
        match next {
            Some(v) => {
                acc = v;
            },
            None => {
                proof {
                    assert(dec_val(s@.take(i as int + 1)) > usize::MAX);
                    lemma_dec_val_prefix_le(s@, i as int + 1);
                }
                return None;
            },
        }
        proof {
            assert(all_digits(s@.take(i as int + 1)));
        }
        i += 1;
    }
    proof {
        assert(s@.take(n as int) =~= s@);
    }
    Some(acc)
}

/// One line of `history` output: four spaces, the one-based entry number,
/// two spaces, the stored line.
pub open spec fn history_line(idx: nat, entry: Seq<char>) -> Seq<char> {
    "    "@ + dec_digits(idx) + "  "@ + entry
}

/// Renders the `history` built-in's output: the last `count` entries (all
/// of them when `count` is absent or too large), each with its original
/// one-based number.
pub fn history_output(history: &Vec<String>, count: Option<usize>) -> (r: Vec<String>)
    ensures
        r.len() == (match count {
            Option::Some(k) => if k <= history.len() {
                k as int
            } else {
                history.len() as int
            },
            Option::None => history.len() as int,
        }),
        forall|j: int|
            0 <= j < r.len() ==> r.deep_view()[j] == history_line(
                (history.len() - r.len() + j + 1) as nat,
                history.deep_view()[history.len() - r.len() + j],
            ),
{
    let len = history.len();
    let shown: usize = match count {
        Some(k) => if k <= len {
            k
        } else {
            len
        },
        None => len,
    };
    let start = len - shown;
    let mut r: Vec<String> = Vec::new();
    let mut j: usize = 0;
    while j < shown
        invariant
            len == history.len(),
            shown <= len,
            start == len - shown,
            j <= shown,
            r.len() == j,
            forall|t: int|
                0 <= t < j ==> r.deep_view()[t] == history_line(
                    (start + t + 1) as nat,
                    history.deep_view()[start + t],
                ),
        decreases shown - j,
    {
        let mut line = String::from_str("    ");
        let num = format_usize(start + j + 1);
        line.append(num.as_str());
        line.append("  ");
        line.append(history[start + j].as_str());
        proof {
            assert(history.deep_view()[start + j] == history[start + j]@);
            assert(line@ =~= history_line(
                (start + j + 1) as nat,
                history.deep_view()[start + j],
            ));
        }
        let ghost prev = r.deep_view();
        let ghost line_view = line@;
        r.push(line);
        proof {
            assert(r.deep_view() =~= prev.push(line_view));
        }
        j += 1;
    }
    r
}

} // verus!
