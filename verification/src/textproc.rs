//! Fixed post-processing of recognized text.
//!
//! The engine is known to misread round brackets as curly ones; every
//! recognized text therefore has `{` replaced by `(` and `}` by `)` before
//! delivery. The substitution works on the UTF-8 bytes of the text: all four
//! characters are single ASCII bytes, so the byte substitution is exactly
//! the character substitution and keeps the text valid UTF-8.

use vstd::prelude::*;

verus! {

/// One byte after the bracket substitution: `{` (byte 123) becomes `(`
/// (byte 40), `}` (byte 125) becomes `)` (byte 41), all else is kept.
pub open spec fn subst_byte(b: u8) -> u8 {
    if b == 123 {
        40
    } else if b == 125 {
        41
    } else {
        b
    }
}

/// A whole text after the bracket substitution.
pub open spec fn substituted(s: Seq<u8>) -> Seq<u8> {
    s.map_values(|b: u8| subst_byte(b))
}

/// Applies the fixed bracket substitution to the UTF-8 bytes of a
/// recognized text.
pub fn post_process(text: &Vec<u8>) -> (out: Vec<u8>)
    ensures
        out@ == substituted(text@),
{
    let n: usize = text.len();
    let mut out: Vec<u8> = Vec::new();
    let mut j: usize = 0;
    while j < n
        invariant
            n == text.len(),
            0 <= j <= n,
            out.len() == j,
            forall|k: int| 0 <= k < j ==> out[k] == subst_byte(text[k]),
        decreases n - j,
    {
        let b = text[j];
        if b == 123 {
            out.push(40);
        } else if b == 125 {
            out.push(41);
        } else {
            out.push(b);
        }
        j = j + 1;
    }
    proof {
        assert(out@ =~= substituted(text@));
    }
    out
}

} // verus!
