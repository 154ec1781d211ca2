//! UTC timestamps, modelled as their calendar fields.  The wire format
//! carries them as `YYYY-MM-DDTHH:MM:SS(.fff)Z` strings; parsing keeps
//! every field, including how many fractional digits the source wrote,
//! so nothing is lost on the way through.

use vstd::prelude::*;

use crate::bytes::{digits_val, is_digit, scan_digits};
use crate::num::pow10;

verus! {

/// A UTC timestamp: calendar fields plus the fractional-second digits
/// exactly as the source carried them.
#[derive(Clone, Copy, PartialEq, Eq, Structural, Debug)]
pub struct UtcStamp {
    pub year: u16,
    pub month: u8,
    pub day: u8,
    pub hour: u8,
    pub minute: u8,
    pub second: u8,
    /// How many fractional-second digits the source wrote (0 to 9).
    pub frac_digits: u8,
    /// The fractional-second digits, read as an integer.
    pub frac: u32,
}

impl UtcStamp {
    /// Field ranges of a well-formed timestamp.
    pub open spec fn wf(self) -> bool {
        &&& self.year <= 9999
        &&& 1 <= self.month <= 12
        &&& 1 <= self.day <= 31
        &&& self.hour <= 23
        &&& self.minute <= 59
        &&& self.second <= 59
        &&& self.frac_digits <= 9
        &&& self.frac < pow10(self.frac_digits as nat)
    }
}

/// Whether `b[i]` and `b[i + 1]` are digits.
pub open spec fn two_digits_at(b: Seq<u8>, i: int) -> bool {
    is_digit(b[i]) && is_digit(b[i + 1])
}

/// The value of the two digits at `i`.
pub open spec fn two_val(b: Seq<u8>, i: int) -> int {
    (b[i] - 48) * 10 + (b[i + 1] - 48)
}

/// The value of the four digits at `i`.
pub open spec fn four_val(b: Seq<u8>, i: int) -> int {
    ((b[i] - 48) * 1000) + ((b[i + 1] - 48) * 100) + ((b[i + 2] - 48) * 10) + (b[i + 3] - 48)
}

/// Whether the bytes have the shape `YYYY-MM-DDTHH:MM:SS` followed by
/// either `Z` or a fraction `.d{1..9}Z`.
pub open spec fn ts_shape(b: Seq<u8>) -> bool {
    &&& b.len() >= 20
    &&& is_digit(b[0]) && is_digit(b[1]) && is_digit(b[2]) && is_digit(b[3])
    &&& b[4] == 45
    &&& two_digits_at(b, 5)
    &&& b[7] == 45
    &&& two_digits_at(b, 8)
    &&& b[10] == 84
    &&& two_digits_at(b, 11)
    &&& b[13] == 58
    &&& two_digits_at(b, 14)
    &&& b[16] == 58
    &&& two_digits_at(b, 17)
    &&& if b[19] == 90 {
        b.len() == 20
    } else {
        &&& b[19] == 46
        &&& b.len() >= 21
        &&& scan_digits(b, 20) == b.len() - 1
        &&& b.len() - 21 <= 9
        &&& b.len() >= 22
        &&& b[b.len() - 1] == 90
    }
}

/// How many fractional digits the text carries.
pub open spec fn ts_frac_digits(b: Seq<u8>) -> int {
    if b.len() >= 20 && b[19] == 90 {
        0
    } else {
        b.len() - 21
    }
}

/// The value of the fractional digits.
pub open spec fn ts_frac_val(b: Seq<u8>) -> nat {
    if b.len() >= 20 && b[19] == 90 {
        0
    } else {
        digits_val(b.subrange(20, b.len() - 1))
    }
}

/// What parsing a timestamp from `b` yields: the calendar fields when
/// the text has the right shape and the fields are in range, nothing
/// otherwise.
pub open spec fn spec_parse_ts(b: Seq<u8>) -> Option<UtcStamp> {
    if !ts_shape(b) {
        None
    } else {
        let t = UtcStamp {
            year: four_val(b, 0) as u16,
            month: two_val(b, 5) as u8,
            day: two_val(b, 8) as u8,
            hour: two_val(b, 11) as u8,
            minute: two_val(b, 14) as u8,
            second: two_val(b, 17) as u8,
            frac_digits: ts_frac_digits(b) as u8,
            frac: ts_frac_val(b) as u32,
        };
        if 1 <= t.month <= 12 && 1 <= t.day <= 31 && t.hour <= 23 && t.minute <= 59 && t.second
            <= 59 {
            Some(t)
        } else {
            None
        }
    }
}

fn read_two(b: &[u8], i: usize) -> (r: Option<u8>)
    requires
        i + 2 <= b@.len(),
    ensures
        match r {
            Some(v) => two_digits_at(b@, i as int) && v == two_val(b@, i as int),
            None => !two_digits_at(b@, i as int),
        },
{
    let c0 = b[i];
    let c1 = b[i + 1];
    if c0 < 48 || c0 > 57 || c1 < 48 || c1 > 57 {
        return None;
    }
    Some((c0 - 48) * 10 + (c1 - 48))
}

/// Parses the bytes as a UTC timestamp, yielding nothing when the shape
/// or a field range is wrong.
#[verifier::rlimit(30)]
pub fn parse_ts(b: &[u8]) -> (r: Option<UtcStamp>)
    ensures
        r == spec_parse_ts(b@),
        r is Some ==> r.unwrap().wf(),
{
    let n = b.len();
    if n < 20 {
        return None;
    }
    if b[0] < 48 || b[0] > 57 || b[1] < 48 || b[1] > 57 || b[2] < 48 || b[2] > 57 || b[3] < 48
        || b[3] > 57 {
        return None;
    }
    if b[4] != 45 || b[7] != 45 || b[10] != 84 || b[13] != 58 || b[16] != 58 {
        return None;
    }
    let year: u16 = ((b[0] - 48) as u16) * 1000 + ((b[1] - 48) as u16) * 100 + ((b[2] - 48) as u16)
        * 10 + ((b[3] - 48) as u16);
    let month = match read_two(b, 5) {
        Some(v) => v,
        None => {
            return None;
        },
    };
    let day = match read_two(b, 8) {
        Some(v) => v,
        None => {
            return None;
        },
    };
    let hour = match read_two(b, 11) {
        Some(v) => v,
        None => {
            return None;
        },
    };
    let minute = match read_two(b, 14) {
        Some(v) => v,
        None => {
            return None;
        },
    };
    let second = match read_two(b, 17) {
        Some(v) => v,
        None => {
            return None;
        },
    };
    let mut frac_digits: u8 = 0;
    let mut frac: u32 = 0;
    if b[19] == 90 {
        if n != 20 {
            assert(!ts_shape(b@));
            return None;
        }
    } else {
        if b[19] != 46 {
            assert(!ts_shape(b@));
            return None;
        }
        let fe = crate::bytes::find_digits_end(b, 20);
        if fe == 20 || fe != n - 1 || n - 21 > 9 {
            assert(!ts_shape(b@));
            return None;
        }
        if b[n - 1] != 90 {
            assert(!ts_shape(b@));
            return None;
        }
        frac_digits = (n - 21) as u8;
        proof {
            crate::bytes::lemma_scan_digits_all(b@, 20);
            assert(b@.subrange(20, b@.len() - 1).subrange(0, b@.len() - 1 - 20) =~= b@.subrange(
                20,
                b@.len() - 1,
            ));
        }
        let fv = match crate::num::digits_to_u128(b, 20, n - 1, 999999999) {
            Some(v) => v,
            None => {
                proof {
                    lemma_nine_digits_bound(b@.subrange(20, b@.len() - 1));
                }
                assert(false);
                return None;
            },
        };
        frac = fv as u32;
    }
    assert(ts_shape(b@));
    let t = UtcStamp { year, month, day, hour, minute, second, frac_digits, frac };
    if month < 1 || month > 12 || day < 1 || day > 31 || hour > 23 || minute > 59 || second > 59 {
        return None;
    }
    proof {
        if b@[19] == 90 {
            assert(pow10(0) == 1) by {
                reveal_with_fuel(pow10, 1);
            }
        } else {
            crate::bytes::lemma_scan_digits_all(b@, 20);
            lemma_digits_val_upper(b@.subrange(20, b@.len() - 1));
        }
    }
    Some(t)
}

// ----- rendering a timestamp back to text -----

/// The digits of `n`, left-padded with zeros to width `w`.
pub open spec fn padded(n: nat, w: nat) -> Seq<u8> {
    crate::num::zeros((w - crate::num::digits_of(n).len()) as nat) + crate::num::digits_of(n)
}

/// The canonical text of a timestamp: `YYYY-MM-DDTHH:MM:SSZ`, with the
/// fractional digits the source carried, if any, before the `Z`.
pub open spec fn spec_render_ts(t: UtcStamp) -> Seq<u8> {
    padded(t.year as nat, 4) + seq![45u8] + padded(t.month as nat, 2) + seq![45u8] + padded(
        t.day as nat,
        2,
    ) + seq![84u8] + padded(t.hour as nat, 2) + seq![58u8] + padded(t.minute as nat, 2)
        + seq![58u8] + padded(t.second as nat, 2) + (if t.frac_digits == 0 {
        Seq::<u8>::empty()
    } else {
        seq![46u8] + padded(t.frac as nat, t.frac_digits as nat)
    }) + seq![90u8]
}

/// Padding to a width the digits fit keeps every byte a digit, makes
/// the width exact, and keeps the value.
pub proof fn lemma_padded(n: nat, w: nat)
    requires
        w >= 1,
        n < pow10(w),
    ensures
        padded(n, w).len() == w,
        forall|i: int| 0 <= i < w ==> is_digit(#[trigger] padded(n, w)[i]),
        digits_val(padded(n, w)) == n,
{
    crate::num::lemma_digits_of_len_bound(n, w);
    crate::num::lemma_digits_of_shape(n);
    crate::num::lemma_digits_of_val(n);
    let z = crate::num::zeros((w - crate::num::digits_of(n).len()) as nat);
    let d = crate::num::digits_of(n);
    assert forall|i: int| 0 <= i < w implies is_digit(#[trigger] padded(n, w)[i]) by {
        if i < z.len() {
            assert(padded(n, w)[i] == 48);
        } else {
            assert(padded(n, w)[i] == d[i - z.len()]);
        }
    }
    crate::num::lemma_digits_val_concat(z, d);
    crate::num::lemma_digits_val_zeros(z.len());
    assert(0 * pow10(d.len()) == 0) by (nonlinear_arith);
}

fn push_padded(out: &mut Vec<u8>, n: u32, w: usize)
    requires
        w >= 1,
        n < pow10(w as nat),
    ensures
        final(out)@ == old(out)@ + padded(n as nat, w as nat),
{
    proof {
        crate::num::lemma_digits_of_len_bound(n as nat, w as nat);
    }
    let mut tmp: Vec<u8> = Vec::new();
    crate::num::push_digits(&mut tmp, n as u128);
    let pad: usize = w - tmp.len();
    let ghost base = out@;
    let mut j: usize = 0;
    while j < pad
        invariant
            j <= pad,
            out@ == base + crate::num::zeros(j as nat),
        decreases pad - j,
    {
        out.push(48);
        assert(out@ =~= base + crate::num::zeros((j + 1) as nat));
        j += 1;
    }
    crate::json::push_bytes(out, tmp.as_slice());
    assert(out@ =~= base + padded(n as nat, w as nat));
}

/// Renders a timestamp as its canonical text.
pub fn render_ts(t: UtcStamp) -> (r: Vec<u8>)
    requires
        t.wf(),
    ensures
        r@ == spec_render_ts(t),
{
    proof {
        lemma_small_pow10();
    }
    let mut out: Vec<u8> = Vec::new();
    push_padded(&mut out, t.year as u32, 4);
    out.push(45);
    push_padded(&mut out, t.month as u32, 2);
    out.push(45);
    push_padded(&mut out, t.day as u32, 2);
    out.push(84);
    push_padded(&mut out, t.hour as u32, 2);
    out.push(58);
    push_padded(&mut out, t.minute as u32, 2);
    out.push(58);
    push_padded(&mut out, t.second as u32, 2);
    if t.frac_digits > 0 {
        out.push(46);
        push_padded(&mut out, t.frac, t.frac_digits as usize);
    }
    out.push(90);
    assert(out@ =~= spec_render_ts(t));
    out
}

proof fn lemma_small_pow10()
    ensures
        pow10(2) == 100,
        pow10(4) == 10000,
{
    reveal_with_fuel(pow10, 5);
}

proof fn lemma_digits_val2(s: Seq<u8>)
    requires
        s.len() == 2,
        forall|i: int| 0 <= i < 2 ==> is_digit(#[trigger] s[i]),
    ensures
        digits_val(s) == ((s[0] - 48) * 10 + (s[1] - 48)) as nat,
{
    let s1 = s.drop_last();
    assert(s1 =~= seq![s[0]]);
    assert(s1.drop_last() =~= Seq::<u8>::empty());
    assert(digits_val(s1.drop_last()) == 0);
    assert(s1.last() == s[0]);
    assert(digits_val(s1) == (0 * 10 + (s[0] - 48)) as nat);
    assert(s.last() == s[1]);
    assert(digits_val(s) == (digits_val(s1) * 10 + (s[1] - 48)) as nat);
}

proof fn lemma_digits_val4(s: Seq<u8>)
    requires
        s.len() == 4,
        forall|i: int| 0 <= i < 4 ==> is_digit(#[trigger] s[i]),
    ensures
        digits_val(s) == ((s[0] - 48) * 1000 + (s[1] - 48) * 100 + (s[2] - 48) * 10 + (s[3]
            - 48)) as nat,
{
    let s3 = s.drop_last();
    assert(s3 =~= seq![s[0], s[1], s[2]]);
    assert(forall|i: int| 0 <= i < 3 ==> s3[i] == s[i]);
    let s2 = s3.drop_last();
    assert(s2 =~= seq![s[0], s[1]]);
    lemma_digits_val2(s2);
    assert(s2[0] == s[0] && s2[1] == s[1]);
    assert(s3.last() == s[2]);
    assert(digits_val(s3) == (digits_val(s2) * 10 + (s[2] - 48)) as nat);
    assert(s.last() == s[3]);
    assert(digits_val(s) == (digits_val(s3) * 10 + (s[3] - 48)) as nat);
}

/// Rendering a timestamp and parsing the text back yields the very
/// same timestamp, fractional digits included.
#[verifier::rlimit(100)]
pub proof fn lemma_ts_round_trip(t: UtcStamp)
    requires
        t.wf(),
    ensures
        spec_parse_ts(spec_render_ts(t)) == Some(t),
{
    lemma_small_pow10();
    let s = spec_render_ts(t);
    let y = padded(t.year as nat, 4);
    let mo = padded(t.month as nat, 2);
    let d = padded(t.day as nat, 2);
    let h = padded(t.hour as nat, 2);
    let mi = padded(t.minute as nat, 2);
    let se = padded(t.second as nat, 2);
    lemma_padded(t.year as nat, 4);
    lemma_padded(t.month as nat, 2);
    lemma_padded(t.day as nat, 2);
    lemma_padded(t.hour as nat, 2);
    lemma_padded(t.minute as nat, 2);
    lemma_padded(t.second as nat, 2);
    assert(forall|i: int| 0 <= i < 4 ==> s[i] == y[i]);
    assert(s[4] == 45);
    assert(forall|i: int| 0 <= i < 2 ==> s[5 + i] == mo[i]);
    assert(s[7] == 45);
    assert(forall|i: int| 0 <= i < 2 ==> s[8 + i] == d[i]);
    assert(s[10] == 84);
    assert(forall|i: int| 0 <= i < 2 ==> s[11 + i] == h[i]);
    assert(s[13] == 58);
    assert(forall|i: int| 0 <= i < 2 ==> s[14 + i] == mi[i]);
    assert(s[16] == 58);
    assert(forall|i: int| 0 <= i < 2 ==> s[17 + i] == se[i]);

    assert(y =~= s.subrange(0, 4));
    lemma_digits_val4(s.subrange(0, 4));
    assert(four_val(s, 0) == t.year);
    assert(mo =~= s.subrange(5, 7));
    lemma_digits_val2(s.subrange(5, 7));
    assert(two_val(s, 5) == t.month);
    assert(d =~= s.subrange(8, 10));
    lemma_digits_val2(s.subrange(8, 10));
    assert(two_val(s, 8) == t.day);
    assert(h =~= s.subrange(11, 13));
    lemma_digits_val2(s.subrange(11, 13));
    assert(two_val(s, 11) == t.hour);
    assert(mi =~= s.subrange(14, 16));
    lemma_digits_val2(s.subrange(14, 16));
    assert(two_val(s, 14) == t.minute);
    assert(se =~= s.subrange(17, 19));
    lemma_digits_val2(s.subrange(17, 19));
    assert(two_val(s, 17) == t.second);

    if t.frac_digits == 0 {
        assert(s.len() == 20);
        assert(s[19] == 90);
        assert(ts_shape(s));
        assert(ts_frac_digits(s) == 0);
        assert(pow10(0) == 1);
        assert(t.frac == 0);
        assert(spec_parse_ts(s) == Some(t));
    } else {
        let fd = t.frac_digits as nat;
        let f = padded(t.frac as nat, fd);
        lemma_padded(t.frac as nat, fd);
        assert(s.len() == 21 + fd);
        assert(s[19] == 46);
        assert(forall|i: int| 0 <= i < fd ==> s[20 + i] == f[i]);
        assert(s[s.len() - 1] == 90);
        assert(forall|k: int| 20 <= k < s.len() - 1 ==> is_digit(#[trigger] s[k]));
        crate::num::lemma_scan_digits_region(s, 20, s.len() - 1);
        assert(ts_shape(s));
        assert(ts_frac_digits(s) == fd);
        assert(f =~= s.subrange(20, s.len() - 1));
        assert(ts_frac_val(s) == t.frac);
        assert(spec_parse_ts(s) == Some(t));
    }
}

proof fn lemma_nine_digits_bound(s: Seq<u8>)
    requires
        s.len() <= 9,
        forall|i: int| 0 <= i < s.len() ==> is_digit(#[trigger] s[i]),
    ensures
        digits_val(s) <= 999999999,
{
    lemma_digits_val_upper(s);
    crate::num::lemma_pow10_le_9(s.len() as nat);
}

/// Digits of length `n` are worth less than `10^n`.
pub proof fn lemma_digits_val_upper(s: Seq<u8>)
    requires
        forall|i: int| 0 <= i < s.len() ==> is_digit(#[trigger] s[i]),
    ensures
        digits_val(s) < pow10(s.len()),
    decreases s.len(),
{
    if s.len() == 0 {
        assert(pow10(0) == 1);
    } else {
        assert(forall|i: int|
            0 <= i < s.len() - 1 ==> s.drop_last()[i] == #[trigger] s[i]);
        lemma_digits_val_upper(s.drop_last());
        assert(is_digit(s[s.len() - 1]));
        assert(pow10(s.len()) == 10 * pow10((s.len() - 1) as nat));
        let a = digits_val(s.drop_last());
        let p = pow10((s.len() - 1) as nat);
        assert(a * 10 + (s.last() - 48) < p * 10) by (nonlinear_arith)
            requires
                a < p,
                s.last() - 48 < 10,
        ;
    }
}

} // verus!
