//! Small verified string helpers shared by the tokenizer and the built-ins:
//! character-level equality, prefix test, joining, and one trusted
//! conversion from a character vector to a `String`.
use vstd::prelude::*;

use crate::tokenize::join_spaced;
use crate::tokenize::lemma_join_spaced_push;

verus! {

/// Joins the parts from index `from` on with a single space between
/// neighbours.
pub fn join_tail_spaced(parts: &Vec<String>, from: usize) -> (r: String)
    requires
        from <= parts.len(),
    ensures
        r@ == join_spaced(parts.deep_view().skip(from as int)),
{
    let ghost dv = parts.deep_view();
    let mut out = String::new();
    let mut i: usize = from;
    proof {
        assert(dv.subrange(from as int, from as int) =~= Seq::<Seq<char>>::empty());
        assert(out@ =~= Seq::<char>::empty());
    }
    while i < parts.len()
        invariant
            from <= i <= parts.len(),
            dv == parts.deep_view(),
            dv.len() == parts.len(),
            out@ == join_spaced(dv.subrange(from as int, i as int)),
        decreases parts.len() - i,
    {
        let ghost prefix = dv.subrange(from as int, i as int);
        proof {
            lemma_join_spaced_push(prefix, dv[i as int]);
            assert(dv.subrange(from as int, i as int + 1) =~= prefix.push(dv[i as int]));
            assert(dv[i as int] == parts[i as int]@);
        }
        if i > from {
            out.append(" ");
            proof {
                reveal_strlit(" ");
                assert(" "@ =~= seq![' ']);
            }
        }
        out.append(parts[i].as_str());
        i += 1;
        proof {
            assert(out@ =~= join_spaced(dv.subrange(from as int, i as int)));
        }
    }
    proof {
        assert(dv.subrange(from as int, parts.len() as int) =~= dv.skip(from as int));
    }
    out
}

/// Relies on `core::iter::Iterator::collect` (via `String`'s `FromIterator`):
/// collecting the characters of a vector yields the string of exactly those
/// characters in order.
#[verifier::external_body]
pub(crate) fn chars_to_string(v: &Vec<char>) -> (r: String)
    ensures
        r@ == v@,
{
    v.iter().collect()
}

/// Character-for-character equality of two string slices.
pub fn str_eq(a: &str, b: &str) -> (r: bool)
    ensures
        r == (a@ == b@),
{
    let na = a.unicode_len();
    let nb = b.unicode_len();
    if na != nb {
        return false;
    }
    let mut i: usize = 0;
    while i < na
        invariant
            na == a@.len(),
            na == b@.len(),
            i <= na,
            forall|j: int| 0 <= j < i ==> a@[j] == b@[j],
        decreases na - i,
    {
        if a.get_char(i) != b.get_char(i) {
            return false;
        }
        i += 1;
    }
    proof {
        assert(a@ =~= b@);
    }
    true
}

} // verus!
