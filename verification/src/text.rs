//! Small character-level string utilities shared by the mailbox model.

use vstd::prelude::*;
use vstd::string::StrSliceExecFns;

verus! {

/// Relies on `String::push`: it appends the given character to the end of
/// the string.
#[verifier::external_body]
pub fn string_push(s: &mut String, c: char)
    ensures
        final(s)@ == old(s)@.push(c),
{
    s.push(c);
}

/// Whether `prefix` is a prefix of `line`, comparing characters.
pub fn str_starts_with(line: &str, prefix: &str) -> (r: bool)
    ensures
        r == prefix@.is_prefix_of(line@),
{
    let n = prefix.unicode_len();
    let ln = line.unicode_len();
    if n > ln {
        return false;
    }
    let mut i: usize = 0;
    while i < n
        invariant
            i <= n,
            n == prefix@.len(),
            n <= line@.len(),
            forall|j: int| 0 <= j < i ==> line@[j] == prefix@[j],
        decreases n - i,
    {
        if line.get_char(i) != prefix.get_char(i) {
            assert(!prefix@.is_prefix_of(line@));
            return false;
        }
        i += 1;
    }
    assert(prefix@ =~= line@.subrange(0, n as int));
    true
}

/// Whether `line` contains the character `c`.
pub fn str_contains_char(line: &str, c: char) -> (r: bool)
    ensures
        r == line@.contains(c),
{
    let n = line.unicode_len();
    let mut i: usize = 0;
    while i < n
        invariant
            i <= n,
            n == line@.len(),
            forall|j: int| 0 <= j < i ==> line@[j] != c,
        decreases n - i,
    {
        if line.get_char(i) == c {
            return true;
        }
        i += 1;
    }
    assert(!line@.contains(c));
    false
}

/// The characters of `s` that are not `ch`, in order.
pub open spec fn without_char(s: Seq<char>, ch: char) -> Seq<char> {
    s.filter(|c: char| c != ch)
}

/// A copy of `line` with every occurrence of the character `ch` removed.
pub fn filter_out_char(line: &str, ch: char) -> (r: String)
    ensures
        r@ == without_char(line@, ch),
{
    let n = line.unicode_len();
    let mut r = String::new();
    let mut i: usize = 0;
    while i < n
        invariant
            i <= n,
            n == line@.len(),
            r@ == without_char(line@.take(i as int), ch),
        decreases n - i,
    {
        let c = line.get_char(i);
        proof {
            reveal(Seq::filter);
            assert(line@.take(i + 1 as int).drop_last() =~= line@.take(i as int));
            assert(line@.take(i + 1 as int).last() == line@[i as int]);
        }
        if c != ch {
            string_push(&mut r, c);
        }
        assert(r@ =~= without_char(line@.take(i + 1 as int), ch));
        i += 1;
    }
    assert(line@.take(n as int) =~= line@);
    r
}

} // verus!
