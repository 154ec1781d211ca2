//! Exact decimal numbers.  A `Dec` holds a sign, a 96-bit integer
//! significand and a power-of-ten scale, exactly as the rows store
//! supply and percentage figures: no value ever passes through a binary
//! float.  Parsing accepts the full JSON number grammar, including an
//! exponent, and rejects values beyond the capacity below.

use vstd::prelude::*;

use crate::bytes::{all_digits, digits_val, find_digits_end, is_digit, scan_digits};

verus! {

/// Largest significand a `Dec` can carry: `2^96 - 1`.
pub const MAX_MANT: u128 = 79228162514264337593543950335;

/// Largest scale a `Dec` can carry.
pub const MAX_SCALE: u32 = 28;

/// A decimal number `(-1)^neg * mant / 10^scale`, exact.
#[derive(Clone, Copy, PartialEq, Eq, Structural, Debug)]
pub struct Dec {
    pub neg: bool,
    pub mant: u128,
    pub scale: u32,
}

impl Dec {
    /// Capacity and canonicity: zero is never negative.
    pub open spec fn wf(self) -> bool {
        &&& self.mant <= MAX_MANT
        &&& self.scale <= MAX_SCALE
        &&& (self.mant == 0 ==> !self.neg)
    }
}

/// Ten to the `k`.
pub open spec fn pow10(k: nat) -> nat
    decreases k,
{
    if k == 0 {
        1
    } else {
        10 * pow10((k - 1) as nat)
    }
}

// ----- the JSON number grammar, as positions in the byte string -----

/// Whether the text carries a leading minus sign.
pub open spec fn num_neg(b: Seq<u8>) -> bool {
    b.len() > 0 && b[0] == 45
}

/// Where the integer digits begin.
pub open spec fn int_start(b: Seq<u8>) -> int {
    if num_neg(b) {
        1
    } else {
        0
    }
}

/// Where the integer digits end.
pub open spec fn int_end(b: Seq<u8>) -> int {
    scan_digits(b, int_start(b))
}

/// Whether a fractional part follows the integer digits.
pub open spec fn has_dot(b: Seq<u8>) -> bool {
    int_end(b) < b.len() && b[int_end(b)] == 46
}

/// Where the fractional digits begin.
pub open spec fn frac_start(b: Seq<u8>) -> int {
    if has_dot(b) {
        int_end(b) + 1
    } else {
        int_end(b)
    }
}

/// Where the fractional digits end.
pub open spec fn frac_end(b: Seq<u8>) -> int {
    scan_digits(b, frac_start(b))
}

/// Whether an exponent part follows.
pub open spec fn has_exp(b: Seq<u8>) -> bool {
    frac_end(b) < b.len() && (b[frac_end(b)] == 101 || b[frac_end(b)] == 69)
}

/// Whether the exponent carries a minus sign.
pub open spec fn exp_neg(b: Seq<u8>) -> bool {
    has_exp(b) && frac_end(b) + 1 < b.len() && b[frac_end(b) + 1] == 45
}

/// Where the exponent digits begin.
pub open spec fn exp_digits_start(b: Seq<u8>) -> int {
    if has_exp(b) && frac_end(b) + 1 < b.len() && (b[frac_end(b) + 1] == 43 || b[frac_end(b) + 1]
        == 45) {
        frac_end(b) + 2
    } else {
        frac_end(b) + 1
    }
}

/// Where the exponent digits end.
pub open spec fn exp_end(b: Seq<u8>) -> int {
    scan_digits(b, exp_digits_start(b))
}

/// Whether the bytes form a JSON number: optional sign, integer digits
/// without a superfluous leading zero, optional fraction, optional
/// exponent, nothing after.
pub open spec fn is_num_text(b: Seq<u8>) -> bool {
    &&& int_end(b) > int_start(b)
    &&& (int_end(b) - int_start(b) > 1 ==> b[int_start(b)] != 48)
    &&& (has_dot(b) ==> frac_end(b) > frac_start(b))
    &&& if has_exp(b) {
        exp_end(b) > exp_digits_start(b) && exp_end(b) == b.len()
    } else {
        frac_end(b) == b.len()
    }
}

/// The significand digits: integer digits followed by fractional digits.
pub open spec fn mant_digits(b: Seq<u8>) -> Seq<u8> {
    b.subrange(int_start(b), int_end(b)) + b.subrange(frac_start(b), frac_end(b))
}

/// How many fractional digits the text carries.
pub open spec fn frac_len(b: Seq<u8>) -> int {
    frac_end(b) - frac_start(b)
}

/// The signed value of the exponent part, zero when absent.
pub open spec fn exp_val(b: Seq<u8>) -> int {
    if has_exp(b) {
        let v = digits_val(b.subrange(exp_digits_start(b), exp_end(b)));
        if exp_neg(b) {
            -(v as int)
        } else {
            v as int
        }
    } else {
        0
    }
}

/// Positions the decimal point: the value of the text is
/// `+/- digits * 10^point_shift(b)`.
pub open spec fn point_shift(b: Seq<u8>) -> int {
    exp_val(b) - frac_len(b)
}

/// What parsing a decimal from `b` yields: the exact value when the text
/// is a JSON number within capacity, nothing otherwise.
pub open spec fn spec_parse_dec(b: Seq<u8>) -> Option<Dec> {
    if !is_num_text(b) {
        None
    } else {
        let raw = digits_val(mant_digits(b));
        let shift = point_shift(b);
        if raw == 0 {
            if shift >= 0 {
                Some(Dec { neg: false, mant: 0, scale: 0 })
            } else if -shift <= MAX_SCALE {
                Some(Dec { neg: false, mant: 0, scale: (-shift) as u32 })
            } else {
                None
            }
        } else if shift >= 0 {
            if raw * pow10(shift as nat) <= MAX_MANT {
                Some(
                    Dec {
                        neg: num_neg(b),
                        mant: (raw * pow10(shift as nat)) as u128,
                        scale: 0,
                    },
                )
            } else {
                None
            }
        } else {
            if -shift <= MAX_SCALE && raw <= MAX_MANT {
                Some(Dec { neg: num_neg(b), mant: raw as u128, scale: (-shift) as u32 })
            } else {
                None
            }
        }
    }
}

// ----- lemmas about digit sequences -----

proof fn lemma_digits_val_monotone(b: Seq<u8>, i: int, j: int)
    requires
        0 <= i <= j <= b.len(),
        all_digits(b.take(j)),
    ensures
        digits_val(b.take(i)) <= digits_val(b.take(j)),
    decreases j - i,
{
    if i < j {
        assert(b.take(j - 1) =~= b.take(j).take(j - 1));
        lemma_digits_val_monotone(b, i, j - 1);
        assert(b.take(j).drop_last() =~= b.take(j - 1));
        assert(is_digit(b.take(j)[j - 1]));
        assert(digits_val(b.take(j)) == digits_val(b.take(j - 1)) * 10 + (b.take(j).last() - 48));
    }
}

/// Reads the digits `b[start..end]` into an integer, refusing values
/// over `cap`.
pub fn digits_to_u128(b: &[u8], start: usize, end: usize, cap: u128) -> (r: Option<u128>)
    requires
        start <= end <= b@.len(),
        all_digits(b@.subrange(start as int, end as int)),
        cap >= 9,
    ensures
        match r {
            Some(v) => v == digits_val(b@.subrange(start as int, end as int)) && v <= cap,
            None => digits_val(b@.subrange(start as int, end as int)) > cap,
        },
{
    let ghost s = b@.subrange(start as int, end as int);
    let mut acc: u128 = 0;
    let mut i: usize = start;
    while i < end
        invariant
            start <= i <= end <= b@.len(),
            cap >= 9,
            s == b@.subrange(start as int, end as int),
            all_digits(s),
            acc == digits_val(s.take(i - start)),
            acc <= cap,
        decreases end - i,
    {
        let d: u8 = b[i];
        assert(s[i - start] == d);
        assert(is_digit(d));
        let dv: u128 = (d - 48) as u128;
        if acc > (cap - dv) / 10 {
            proof {
                assert(s.take(i - start + 1).drop_last() =~= s.take(i - start));
                assert(digits_val(s.take(i - start + 1)) == acc * 10 + dv);
                assert(acc * 10 + dv > cap) by (nonlinear_arith)
                    requires
                        acc > (cap - dv) / 10,
                        dv < 10,
                        0 <= cap,
                        0 <= dv,
                ;
                lemma_digits_val_monotone(s, i - start + 1, s.len() as int);
                assert(s.take(s.len() as int) =~= s);
            }
            return None;
        }
        proof {
            assert(acc * 10 + dv <= cap) by (nonlinear_arith)
                requires
                    acc <= (cap - dv) / 10,
                    dv < 10,
                    0 <= cap,
                    0 <= dv,
            ;
            assert(s.take(i - start + 1).drop_last() =~= s.take(i - start));
        }
        acc = acc * 10 + dv;
        i += 1;
    }
    proof {
        assert(s.take(s.len() as int) =~= s);
    }
    Some(acc)
}

/// Exponent values beyond this bound cannot bring a nonzero number back
/// into capacity, whatever the length of the input.
pub const EXP_CAP: u128 = 100000000000000000000;

proof fn lemma_pow10_adds(a: nat, b: nat)
    ensures
        pow10(a + b) == pow10(a) * pow10(b),
    decreases a,
{
    if a == 0 {
        assert(pow10(a) == 1);
        assert(a + b == b);
        assert(pow10(a + b) == pow10(a) * pow10(b));
    } else {
        lemma_pow10_adds((a - 1) as nat, b);
        assert((a + b - 1) as nat == (a - 1) as nat + b);
        assert(pow10(a + b) == 10 * pow10((a - 1) as nat + b));
        assert(pow10(a) == 10 * pow10((a - 1) as nat));
        assert(pow10(a + b) == pow10(a) * pow10(b)) by (nonlinear_arith)
            requires
                pow10((a - 1) as nat + b) == pow10((a - 1) as nat) * pow10(b),
                pow10(a + b) == 10 * pow10((a - 1) as nat + b),
                pow10(a) == 10 * pow10((a - 1) as nat),
        ;
    }
}

/// Parses the bytes as a JSON number into an exact decimal, yielding
/// nothing when the text is not a number or the value is out of
/// capacity.
#[verifier::rlimit(100)]
#[verifier::loop_isolation(false)]
pub fn parse_dec(b: &[u8]) -> (r: Option<Dec>)
    ensures
        r == spec_parse_dec(b@),
        r is Some ==> r.unwrap().wf(),
{
    let n = b.len();
    let neg = n > 0 && b[0] == 45;
    let i0: usize = if neg { 1 } else { 0 };
    assert(i0 as int == int_start(b@));
    let i1 = find_digits_end(b, i0);
    if i1 == i0 {
        assert(!is_num_text(b@));
        return None;
    }
    if i1 - i0 > 1 && b[i0] == 48 {
        assert(!is_num_text(b@));
        return None;
    }
    let has_d = i1 < n && b[i1] == 46;
    assert(has_d == has_dot(b@));
    let fs: usize = if has_d { i1 + 1 } else { i1 };
    assert(fs as int == frac_start(b@));
    let i2 = find_digits_end(b, fs);
    if has_d && i2 == fs {
        assert(!is_num_text(b@));
        return None;
    }
    let has_e = i2 < n && (b[i2] == 101 || b[i2] == 69);
    assert(has_e == has_exp(b@));
    let mut e_neg = false;
    let mut eds: usize = n;
    let mut i3: usize = n;
    if has_e {
        if i2 + 1 < n && (b[i2 + 1] == 43 || b[i2 + 1] == 45) {
            e_neg = b[i2 + 1] == 45;
            eds = i2 + 2;
        } else {
            eds = i2 + 1;
        }
        if eds > n {
            assert(exp_end(b@) == exp_digits_start(b@));
            assert(!is_num_text(b@));
            return None;
        }
        i3 = find_digits_end(b, eds);
        if i3 == eds || i3 != n {
            assert(!is_num_text(b@));
            return None;
        }
        assert(e_neg == exp_neg(b@));
        assert(eds as int == exp_digits_start(b@));
        assert(i3 as int == exp_end(b@));
    } else {
        if i2 != n {
            assert(!is_num_text(b@));
            return None;
        }
    }
    assert(is_num_text(b@));

    // significand digits: integer part then fractional part
    let ipart = vstd::slice::slice_subrange(b, i0, i1);
    let fpart = vstd::slice::slice_subrange(b, fs, i2);
    let mut dvv: Vec<u8> = Vec::new();
    crate::json::push_bytes(&mut dvv, ipart);
    crate::json::push_bytes(&mut dvv, fpart);
    assert(dvv@ =~= mant_digits(b@));
    proof {
        crate::bytes::lemma_scan_digits_all(b@, i0 as int);
        crate::bytes::lemma_scan_digits_all(b@, fs as int);
        assert forall|k: int| 0 <= k < dvv@.len() implies is_digit(#[trigger] dvv@[k]) by {
            if k < ipart@.len() {
                assert(dvv@[k] == b@[i0 + k]);
            } else {
                assert(dvv@[k] == b@[fs + (k - ipart@.len())]);
            }
        }
        assert(dvv@.subrange(0, dvv@.len() as int) =~= dvv@);
    }
    let raw_opt = digits_to_u128(dvv.as_slice(), 0, dvv.len(), MAX_MANT);
    let ghost raws: nat = digits_val(mant_digits(b@));

    // exponent value
    let mut e_huge = false;
    let mut ev: u128 = 0;
    if has_e {
        proof {
            crate::bytes::lemma_scan_digits_all(b@, eds as int);
        }
        match digits_to_u128(b, eds, i3, EXP_CAP) {
            Some(v) => {
                ev = v;
            },
            None => {
                e_huge = true;
            },
        }
    }
    let ghost shift_s: int = point_shift(b@);

    let raw: u128;
    match raw_opt {
        Some(v) => {
            raw = v;
        },
        None => {
            // the significand digits alone exceed the capacity
            proof {
                assert(raws > MAX_MANT);
                if shift_s >= 0 {
                    lemma_pow10_pos(shift_s as nat);
                    assert(raws * pow10(shift_s as nat) >= raws * 1) by (nonlinear_arith)
                        requires
                            pow10(shift_s as nat) >= 1,
                            raws >= 0,
                    ;
                }
            }
            return None;
        },
    }

    if e_huge {
        // |exponent| exceeds EXP_CAP, far past any length the input can have
        proof {
            assert(digits_val(b@.subrange(eds as int, i3 as int)) > EXP_CAP);
            assert(frac_len(b@) <= n);
        }
        if e_neg {
            assert(-shift_s > 28);
            return None;
        }
        assert(shift_s > 29);
        if raw == 0 {
            return Some(Dec { neg: false, mant: 0, scale: 0 });
        }
        proof {
            lemma_big_shift_overflows(raws, shift_s as nat);
        }
        return None;
    }

    let fl: u128 = (i2 - fs) as u128;
    let shift: i128 = (if e_neg {
        -(ev as i128)
    } else {
        ev as i128
    }) - (fl as i128);
    assert(shift as int == shift_s);

    if raw == 0 {
        if shift >= 0 {
            return Some(Dec { neg: false, mant: 0, scale: 0 });
        }
        let ns: i128 = -shift;
        if ns <= 28 {
            return Some(Dec { neg: false, mant: 0, scale: ns as u32 });
        }
        return None;
    }
    if shift > 0 {
        if shift >= 29 {
            proof {
                lemma_big_shift_overflows(raws, shift_s as nat);
            }
            return None;
        }
        let sh: u32 = shift as u32;
        let mut m: u128 = raw;
        let mut k: u32 = 0;
        while k < sh
            invariant
                k <= sh,
                sh == shift_s,
                raws >= 1,
                m == raws * pow10(k as nat),
                m <= MAX_MANT,
            decreases sh - k,
        {
            if m > MAX_MANT / 10 {
                proof {
                    assert(m * 10 > MAX_MANT);
                    assert(raws * pow10((k + 1) as nat) == m * 10) by (nonlinear_arith)
                        requires
                            m == raws * pow10(k as nat),
                            pow10((k + 1) as nat) == 10 * pow10(k as nat),
                    ;
                    lemma_pow10_adds((k + 1) as nat, (sh - k - 1) as nat);
                    lemma_pow10_pos((sh - k - 1) as nat);
                    assert(raws * pow10(sh as nat) >= raws * pow10((k + 1) as nat))
                        by (nonlinear_arith)
                        requires
                            pow10(sh as nat) == pow10((k + 1) as nat) * pow10((sh - k - 1) as nat),
                            pow10((sh - k - 1) as nat) >= 1,
                            raws >= 1,
                            pow10((k + 1) as nat) >= 0,
                    ;
                }
                return None;
            }
            proof {
                assert(raws * pow10((k + 1) as nat) == m * 10) by (nonlinear_arith)
                    requires
                        m == raws * pow10(k as nat),
                        pow10((k + 1) as nat) == 10 * pow10(k as nat),
                ;
            }
            m = m * 10;
            k += 1;
        }
        proof {
            lemma_pow10_pos(sh as nat);
            assert(m >= 1) by (nonlinear_arith)
                requires
                    m == raws * pow10(sh as nat),
                    raws >= 1,
                    pow10(sh as nat) >= 1,
            ;
        }
        return Some(Dec { neg, mant: m, scale: 0 });
    }
    let ns: i128 = -shift;
    if ns > 28 {
        return None;
    }
    Some(Dec { neg, mant: raw, scale: ns as u32 })
}

proof fn lemma_big_shift_overflows(raw: nat, shift: nat)
    requires
        raw >= 1,
        shift >= 29,
    ensures
        raw * pow10(shift) > MAX_MANT,
{
    lemma_pow10_29();
    lemma_pow10_adds(29, (shift - 29) as nat);
    lemma_pow10_pos((shift - 29) as nat);
    assert(raw * pow10(shift) >= pow10(29)) by (nonlinear_arith)
        requires
            pow10(shift) == pow10(29) * pow10((shift - 29) as nat),
            pow10((shift - 29) as nat) >= 1,
            raw >= 1,
            pow10(29) >= 1,
    ;
}

/// Decimal fields round-trip exactly: rendering a decimal and parsing
/// the text back yields the very same value, with no drift.
#[verifier::rlimit(100)]
pub proof fn lemma_dec_round_trip(d: Dec)
    requires
        d.wf(),
    ensures
        spec_parse_dec(spec_render_dec(d)) == Some(d),
{
    let s = spec_render_dec(d);
    let p = pow10(d.scale as nat) as int;
    lemma_pow10_pos(d.scale as nat);
    let m = d.mant as int;
    let ip = m / p;
    let fp = m % p;
    vstd::arithmetic::div_mod::lemma_fundamental_div_mod(m, p);
    assert(0 <= fp < p) by {
        vstd::arithmetic::div_mod::lemma_mod_bound(m, p);
    }
    assert(ip >= 0) by {
        vstd::arithmetic::div_mod::lemma_div_pos_is_pos(m, p);
    }
    let iv = ip as nat;
    let fv = fp as nat;
    let idig = digits_of(iv);
    let fdig = digits_of(fv);
    lemma_digits_of_shape(iv);
    lemma_digits_of_shape(fv);
    lemma_digits_of_val(iv);
    lemma_digits_of_val(fv);
    let sl: int = if d.neg {
        1
    } else {
        0
    };
    let ie: int = sl + idig.len();

    // the sign and the integer digits
    assert(num_neg(s) == d.neg) by {
        if d.neg {
            assert(s[0] == 45);
        } else {
            assert(s[0] == idig[0]);
            assert(is_digit(s[0]));
        }
    }
    assert(int_start(s) == sl);
    assert(forall|k: int| sl <= k < ie ==> s[k] == idig[k - sl]);
    assert(forall|k: int| sl <= k < ie ==> is_digit(#[trigger] s[k]));

    if d.scale == 0 {
        assert(s.len() == ie);
        lemma_scan_digits_region(s, sl, ie);
        assert(int_end(s) == ie);
        assert(!has_dot(s));
        assert(frac_start(s) == ie && frac_end(s) == ie);
        assert(!has_exp(s));
        assert(is_num_text(s)) by {
            if ie - sl > 1 {
                assert(iv >= 10) by {
                    if iv < 10 {
                        assert(idig.len() == 1);
                    }
                }
                assert(s[sl] == idig[0]);
            }
        }
        assert(mant_digits(s) =~= idig);
        assert(digits_val(mant_digits(s)) == iv);
        assert(p == 1) by {
            reveal_with_fuel(pow10, 1);
        }
        assert(m == ip) by (nonlinear_arith)
            requires
                m == p * ip + fp,
                p == 1,
                0 <= fp < p,
        ;
        assert(iv == d.mant);
        assert(frac_len(s) == 0 && exp_val(s) == 0 && point_shift(s) == 0);
        if d.mant == 0 {
            assert(spec_parse_dec(s) == Some(d));
        } else {
            assert(iv * pow10(0) == iv);
            assert(spec_parse_dec(s) == Some(d));
        }
    } else {
        lemma_digits_of_len_bound(fv, d.scale as nat);
        let pad = (d.scale - fdig.len()) as nat;
        let frac = zeros(pad) + fdig;
        assert(frac.len() == d.scale);
        assert(s =~= (if d.neg {
            seq![45u8]
        } else {
            Seq::<u8>::empty()
        }) + idig + seq![46u8] + frac);
        assert(s.len() == ie + 1 + d.scale);
        assert(s[ie] == 46);
        lemma_scan_digits_region(s, sl, ie);
        assert(int_end(s) == ie);
        assert(has_dot(s));
        let fsx = ie + 1;
        assert(frac_start(s) == fsx);
        assert(forall|k: int| fsx <= k < s.len() ==> s[k] == frac[k - fsx]);
        assert(all_digits(frac)) by {
            assert(forall|k: int| 0 <= k < pad ==> frac[k] == 48);
            assert(forall|k: int|
                pad <= k < frac.len() ==> frac[k] == fdig[k - pad]);
        }
        assert(forall|k: int| fsx <= k < s.len() ==> is_digit(#[trigger] s[k]));
        lemma_scan_digits_region(s, fsx, s.len() as int);
        assert(frac_end(s) == s.len());
        assert(!has_exp(s));
        assert(is_num_text(s)) by {
            if ie - sl > 1 {
                assert(iv >= 10) by {
                    if iv < 10 {
                        assert(idig.len() == 1);
                    }
                }
                assert(s[sl] == idig[0]);
            }
        }
        assert(frac_len(s) == d.scale);
        assert(exp_val(s) == 0);
        assert(point_shift(s) == -(d.scale as int));

        // the significand digits carry exactly the stored value
        assert(mant_digits(s) =~= idig + frac);
        lemma_digits_val_concat(idig, frac);
        lemma_digits_val_concat(zeros(pad), fdig);
        lemma_digits_val_zeros(pad);
        lemma_pow10_adds(pad, fdig.len() as nat);
        assert(digits_val(frac) == fv) by {
            assert(digits_val(zeros(pad)) == 0);
            assert(digits_val(fdig) == fv);
            assert(digits_val(frac) == digits_val(zeros(pad)) * pow10(fdig.len())
                + digits_val(fdig));
            assert(0 * pow10(fdig.len()) == 0) by (nonlinear_arith);
        }
        assert(digits_val(mant_digits(s)) == iv * pow10(d.scale as nat) + fv) by {
            assert(digits_val(idig + frac) == digits_val(idig) * pow10(frac.len())
                + digits_val(frac));
            assert(frac.len() == d.scale);
        }
        assert(iv * pow10(d.scale as nat) + fv == d.mant) by (nonlinear_arith)
            requires
                m == p * ip + fp,
                iv == ip,
                fv == fp,
                m == d.mant,
                p == pow10(d.scale as nat),
        ;
        if d.mant == 0 {
            assert(spec_parse_dec(s) == Some(d));
        } else {
            assert(spec_parse_dec(s) == Some(d));
        }
    }
}

proof fn lemma_pow10_pos(k: nat)
    ensures
        pow10(k) >= 1,
    decreases k,
{
    if k > 0 {
        lemma_pow10_pos((k - 1) as nat);
    }
}

proof fn lemma_pow10_29()
    ensures
        pow10(29) > MAX_MANT,
{
    reveal_with_fuel(pow10, 30);
}

proof fn lemma_pow10_mono(a: nat, k: nat)
    ensures
        pow10(a) <= pow10(a + k),
    decreases k,
{
    if k > 0 {
        lemma_pow10_mono(a, (k - 1) as nat);
        lemma_pow10_pos((a + k - 1) as nat);
    }
}

// ----- rendering a decimal back to text -----

/// The decimal digits of `n`, most significant first.
pub open spec fn digits_of(n: nat) -> Seq<u8>
    decreases n,
{
    if n < 10 {
        seq![(48 + n) as u8]
    } else {
        digits_of(n / 10).push((48 + n % 10) as u8)
    }
}

/// A run of `k` zero digits.
pub open spec fn zeros(k: nat) -> Seq<u8> {
    Seq::new(k, |i: int| 48u8)
}

/// The canonical text of a decimal: sign, integer digits, and for a
/// positive scale a point followed by exactly `scale` fractional digits.
pub open spec fn spec_render_dec(d: Dec) -> Seq<u8> {
    let p = pow10(d.scale as nat) as int;
    let ip = (d.mant as int) / p;
    let fp = (d.mant as int) % p;
    let sign = if d.neg {
        seq![45u8]
    } else {
        Seq::<u8>::empty()
    };
    let frac = if d.scale == 0 {
        Seq::<u8>::empty()
    } else {
        seq![46u8] + zeros((d.scale - digits_of(fp as nat).len()) as nat) + digits_of(fp as nat)
    };
    sign + digits_of(ip as nat) + frac
}

/// The digits of a number: at least one, all digits, no leading zero
/// beyond a lone zero.
pub proof fn lemma_digits_of_shape(n: nat)
    ensures
        digits_of(n).len() >= 1,
        all_digits(digits_of(n)),
        digits_of(n).first() != 48 || n < 10,
        n >= 10 ==> digits_of(n).len() >= 2,
        n >= 1 ==> digits_of(n).first() != 48,
    decreases n,
{
    if n >= 10 {
        lemma_digits_of_shape(n / 10);
        assert(digits_of(n) == digits_of(n / 10).push((48 + n % 10) as u8));
        assert forall|i: int| 0 <= i < digits_of(n).len() implies is_digit(
            #[trigger] digits_of(n)[i],
        ) by {
            if i < digits_of(n / 10).len() {
                assert(digits_of(n)[i] == digits_of(n / 10)[i]);
            }
        }
    }
}

/// Reading the digits of `n` back gives `n`.
pub proof fn lemma_digits_of_val(n: nat)
    ensures
        digits_val(digits_of(n)) == n,
    decreases n,
{
    if n < 10 {
        let s = digits_of(n);
        assert(s == seq![(48 + n) as u8]);
        assert(s.drop_last() =~= Seq::<u8>::empty());
        assert(digits_val(s.drop_last()) == 0);
        assert(s.last() == (48 + n) as u8);
        assert(digits_val(s) == (digits_val(s.drop_last()) * 10 + (s.last() - 48)) as nat);
    } else {
        lemma_digits_of_val(n / 10);
        let s = digits_of(n);
        assert(s == digits_of(n / 10).push((48 + n % 10) as u8));
        assert(s.drop_last() =~= digits_of(n / 10));
        assert(s.last() == (48 + n % 10) as u8);
        assert(digits_val(s) == (digits_val(s.drop_last()) * 10 + (s.last() - 48)) as nat);
    }
}

/// A number below `10^k` has at most `k` digits.
pub proof fn lemma_digits_of_len_bound(n: nat, k: nat)
    requires
        k >= 1,
        n < pow10(k),
    ensures
        digits_of(n).len() <= k,
    decreases n,
{
    if n < 10 {
    } else {
        assert(pow10(k) == 10 * pow10((k - 1) as nat));
        assert(n / 10 < pow10((k - 1) as nat));
        if k == 1 {
            assert(pow10(1nat) == 10) by {
                reveal_with_fuel(pow10, 2);
            }
            assert(false);
        }
        lemma_digits_of_len_bound(n / 10, (k - 1) as nat);
    }
}

/// A run of zero digits is worth nothing.
pub proof fn lemma_digits_val_zeros(k: nat)
    ensures
        digits_val(zeros(k)) == 0,
    decreases k,
{
    if k > 0 {
        lemma_digits_val_zeros((k - 1) as nat);
        assert(zeros(k).drop_last() =~= zeros((k - 1) as nat));
        assert(zeros(k).last() == 48);
    }
}

/// Concatenating digit runs: the left run is shifted by the length of
/// the right one.
pub proof fn lemma_digits_val_concat(x: Seq<u8>, y: Seq<u8>)
    requires
        all_digits(y),
    ensures
        digits_val(x + y) == digits_val(x) * pow10(y.len()) + digits_val(y),
    decreases y.len(),
{
    if y.len() == 0 {
        assert(x + y =~= x);
        assert(pow10(0) == 1);
    } else {
        assert(all_digits(y.drop_last())) by {
            assert(forall|i: int|
                0 <= i < y.len() - 1 ==> y.drop_last()[i] == #[trigger] y[i]);
        }
        lemma_digits_val_concat(x, y.drop_last());
        assert((x + y).drop_last() =~= x + y.drop_last());
        assert((x + y).last() == y.last());
        assert(is_digit(y[y.len() - 1]));
        assert(pow10(y.len()) == 10 * pow10((y.len() - 1) as nat));
        let q = digits_val(x);
        let p1 = pow10((y.len() - 1) as nat);
        let b1 = digits_val(y.drop_last());
        let t = y.last() - 48;
        assert(digits_val(x + y) == ((q * p1 + b1) * 10 + t) as nat);
        assert(digits_val(y) == (b1 * 10 + t) as nat);
        assert((q * p1 + b1) * 10 + t == q * (10 * p1) + (b1 * 10 + t)) by (nonlinear_arith);
    }
}

/// Ten to the `k`, as a machine integer.
pub fn pow10_u128(k: u32) -> (r: u128)
    requires
        k <= MAX_SCALE,
    ensures
        r == pow10(k as nat),
        r >= 1,
{
    proof {
        lemma_pow10_28();
    }
    let mut p: u128 = 1;
    let mut i: u32 = 0;
    while i < k
        invariant
            i <= k <= MAX_SCALE,
            p == pow10(i as nat),
        decreases k - i,
    {
        proof {
            lemma_pow10_mono((i + 1) as nat, (28 - i - 1) as nat);
            lemma_pow10_28();
        }
        p = p * 10;
        i += 1;
    }
    proof {
        lemma_pow10_pos(k as nat);
    }
    p
}

proof fn lemma_pow10_28()
    ensures
        pow10(28) == 10000000000000000000000000000,
{
    reveal_with_fuel(pow10, 29);
}

/// Nine or fewer digits stay under a billion.
pub proof fn lemma_pow10_le_9(k: nat)
    requires
        k <= 9,
    ensures
        pow10(k) <= 1000000000,
{
    lemma_pow10_mono(k, (9 - k) as nat);
    assert(pow10(9) == 1000000000) by {
        reveal_with_fuel(pow10, 10);
    }
}

/// Appends the decimal digits of `n` to `out`.
pub fn push_digits(out: &mut Vec<u8>, n: u128)
    ensures
        final(out)@ == old(out)@ + digits_of(n as nat),
    decreases n,
{
    if n < 10 {
        out.push((48 + n) as u8);
        assert(final(out)@ =~= old(out)@ + digits_of(n as nat));
    } else {
        push_digits(out, n / 10);
        out.push((48 + (n % 10)) as u8);
        assert(final(out)@ =~= old(out)@ + digits_of(n as nat));
    }
}

/// Renders a decimal as its canonical text: sign, integer digits, and
/// for a positive scale a point followed by exactly `scale` digits.
pub fn render_dec(d: Dec) -> (r: Vec<u8>)
    requires
        d.wf(),
    ensures
        r@ == spec_render_dec(d),
{
    let mut out: Vec<u8> = Vec::new();
    if d.neg {
        out.push(45);
    }
    let p = pow10_u128(d.scale);
    let ip = d.mant / p;
    let fp = d.mant % p;
    let ghost sign: Seq<u8> = if d.neg {
        seq![45u8]
    } else {
        Seq::<u8>::empty()
    };
    assert(out@ =~= sign);
    push_digits(&mut out, ip);
    if d.scale == 0 {
        assert(out@ =~= spec_render_dec(d));
        return out;
    }
    out.push(46);
    let mut tmp: Vec<u8> = Vec::new();
    push_digits(&mut tmp, fp);
    proof {
        lemma_digits_of_len_bound(fp as nat, d.scale as nat);
    }
    let pad: usize = d.scale as usize - tmp.len();
    let ghost mid: Seq<u8> = sign + digits_of(ip as nat) + seq![46u8];
    let mut j: usize = 0;
    while j < pad
        invariant
            j <= pad,
            out@ == mid + zeros(j as nat),
        decreases pad - j,
    {
        out.push(48);
        assert(out@ =~= mid + zeros((j + 1) as nat));
        j += 1;
    }
    crate::json::push_bytes(&mut out, tmp.as_slice());
    assert(out@ =~= spec_render_dec(d));
    out
}

/// A digit scan over a known all-digit region stops right after it.
pub proof fn lemma_scan_digits_region(s: Seq<u8>, from: int, to: int)
    requires
        0 <= from <= to <= s.len(),
        forall|k: int| from <= k < to ==> is_digit(#[trigger] s[k]),
        to < s.len() ==> !is_digit(s[to]),
    ensures
        scan_digits(s, from) == to,
    decreases to - from,
{
    if from < to {
        lemma_scan_digits_region(s, from + 1, to);
    }
}

} // verus!
