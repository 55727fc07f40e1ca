//! Small helpers on strings and token sequences that the rest of the library
//! shares.

use vstd::prelude::*;
use vstd::string::StringExecFns;

verus! {

/// The given pieces joined by a single space between neighbours.
pub open spec fn join_spaces(ts: Seq<Seq<char>>) -> Seq<char>
    decreases ts.len(),
{
    if ts.len() == 0 {
        Seq::empty()
    } else if ts.len() == 1 {
        ts[0]
    } else {
        join_spaces(ts.drop_last()) + seq![' '] + ts.last()
    }
}

/// Join the pieces from index `start` on with single spaces.
pub fn join_with_spaces(parts: &Vec<String>, start: usize) -> (r: String)
    requires
        start <= parts@.len(),
    ensures
        r@ == join_spaces(parts.deep_view().skip(start as int)),
{
    let mut r = String::new();
    let n = parts.len();
    let mut j: usize = start;
    while j < n
        invariant
            start <= j <= n,
            n == parts@.len(),
            r@ == join_spaces(parts.deep_view().subrange(start as int, j as int)),
        decreases n - j,
    {
        let ghost before = parts.deep_view().subrange(start as int, j as int);
        if j > start {
            push_char(&mut r, ' ');
        }
        r.append(parts[j].as_str());
        j = j + 1;
        proof {
            let after = parts.deep_view().subrange(start as int, j as int);
            assert(after.drop_last() =~= before);
            assert(after.last() == parts.deep_view()[j - 1]);
            if before.len() == 0 {
                assert(r@ =~= join_spaces(after));
            } else {
                assert(r@ =~= join_spaces(before) + seq![' '] + parts.deep_view()[j - 1]);
            }
        }
    }
    proof {
        assert(parts.deep_view().skip(start as int) =~= parts.deep_view().subrange(
            start as int,
            n as int,
        ));
    }
    r
}

/// Relies on `String::push`: appends the given character to the end of the
/// string, changing nothing else.
#[verifier::external_body]
pub fn push_char(s: &mut String, c: char)
    ensures
        final(s)@ == old(s)@.push(c),
{
    s.push(c);
}

/// Character-by-character equality of two string slices.
pub fn str_eq(a: &str, b: &str) -> (r: bool)
    ensures
        r == (a@ == b@),
{
    let na = a.unicode_len();
    let nb = b.unicode_len();
    if na != nb {
        return false;
    }
    let mut i: usize = 0;
    while i < na
        invariant
            i <= na,
            na == a@.len(),
            nb == b@.len(),
            na == nb,
            forall|j: int| 0 <= j < i ==> a@[j] == b@[j],
        decreases na - i,
    {
        if a.get_char(i) != b.get_char(i) {
            return false;
        }
        i = i + 1;
    }
    proof {
        assert(a@ =~= b@);
    }
    true
}

} // verus!
