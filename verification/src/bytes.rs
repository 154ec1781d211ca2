//! Byte-string utilities shared by the decoders: equality, ASCII digit
//! parsing and rendering.  Field names and textual payloads are held as
//! byte strings throughout the library.

use vstd::prelude::*;
use vstd::string::StringSliceAdditionalSpecFns;

verus! {

/// Whether a byte is an ASCII decimal digit.
pub open spec fn is_digit(b: u8) -> bool {
    48 <= b <= 57
}

/// The numeric value of a sequence of ASCII digits, most significant first.
pub open spec fn digits_val(b: Seq<u8>) -> nat
    decreases b.len(),
{
    if b.len() == 0 {
        0
    } else {
        (digits_val(b.drop_last()) * 10 + (b.last() - 48)) as nat
    }
}

/// Whether every byte of the sequence is an ASCII decimal digit.
pub open spec fn all_digits(b: Seq<u8>) -> bool {
    forall|i: int| 0 <= i < b.len() ==> is_digit(#[trigger] b[i])
}

/// Whether two byte strings hold the same bytes.
pub fn bytes_eq(a: &[u8], b: &[u8]) -> (r: bool)
    ensures
        r == (a@ == b@),
{
    if a.len() != b.len() {
        assert(a@ != b@) by {
            assert(a@.len() != b@.len());
        }
        return false;
    }
    let mut i: usize = 0;
    while i < a.len()
        invariant
            i <= a.len(),
            a@.len() == b@.len(),
            forall|k: int| 0 <= k < i ==> a@[k] == b@[k],
        decreases a.len() - i,
    {
        if a[i] != b[i] {
            return false;
        }
        i += 1;
    }
    proof {
        assert(a@ =~= b@);
    }
    true
}

/// The bytes of a string literal, as a fresh vector.  Key names of the
/// wire format are written as string literals and compared as bytes.
pub fn lit(s: &str) -> (r: Vec<u8>)
    ensures
        r@ == s.spec_bytes(),
{
    vstd::slice::slice_to_vec(s.as_bytes())
}

/// A digit prefix read from `b` starting at `from`: the scan stops at the
/// first non-digit byte or at the end.
pub open spec fn scan_digits(b: Seq<u8>, from: int) -> int
    decreases b.len() - from,
{
    if 0 <= from < b.len() && is_digit(b[from]) {
        scan_digits(b, from + 1)
    } else {
        from
    }
}

/// Everything inside a digit scan is a digit, and the scan stops at the
/// first byte that is not.
pub proof fn lemma_scan_digits_all(b: Seq<u8>, from: int)
    requires
        0 <= from <= b.len(),
    ensures
        from <= scan_digits(b, from) <= b.len(),
        forall|k: int| from <= k < scan_digits(b, from) ==> is_digit(#[trigger] b[k]),
        scan_digits(b, from) < b.len() ==> !is_digit(b[scan_digits(b, from)]),
    decreases b.len() - from,
{
    if from < b.len() && is_digit(b[from]) {
        lemma_scan_digits_all(b, from + 1);
    }
}

/// Where the digit prefix beginning at `from` ends.
pub fn find_digits_end(b: &[u8], from: usize) -> (r: usize)
    requires
        from <= b@.len(),
    ensures
        r == scan_digits(b@, from as int),
        from <= r <= b@.len(),
    decreases b@.len() - from,
{
    if from < b.len() && b[from] >= 48 && b[from] <= 57 {
        find_digits_end(b, from + 1)
    } else {
        from
    }
}

} // verus!
