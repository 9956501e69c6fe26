//! Text metrics and small string utilities.

use vstd::prelude::*;
use vstd::string::StrSliceExecFns;

verus! {

/// Counts the Unicode scalar values of `text` (not its bytes: an accented
/// word of five scalar values counts as five, however it is encoded).
pub fn count_characters(text: &str) -> (count: u64)
    ensures
        count == text@.len(),
{
    let n: usize = text.unicode_len();
    n as u64
}

/// Character-for-character equality of two string slices.
pub fn str_eq(a: &str, b: &str) -> (r: bool)
    ensures
        r == (a@ == b@),
{
    let an: usize = a.unicode_len();
    let bn: usize = b.unicode_len();
    if an != bn {
        return false;
    }
    let mut i: usize = 0;
    while i < an
        invariant
            an == a@.len(),
            an == b@.len(),
            i <= an,
            forall|j: int| 0 <= j < i ==> a@[j] == b@[j],
        decreases an - i,
    {
        if a.get_char(i) != b.get_char(i) {
            return false;
        }
        i += 1;
    }
    proof {
        assert(a@ =~= b@);
    }
    true
}

} // verus!
