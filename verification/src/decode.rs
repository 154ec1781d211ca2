//! Shared decoding machinery: the decode error taxonomy, dotted field
//! paths, typed field getters over JSON objects, and the scan that
//! reports the paths of unknown fields.  Unknown fields never fail a
//! decode: the wire format is expected to grow new optional fields.

use vstd::prelude::*;

use crate::bytes::{bytes_eq, digits_val, is_digit};
use crate::json::{copy_bytes, lookup, obj_get, push_bytes, Json};
use crate::num::{spec_parse_dec, Dec};
use crate::tstamp::{spec_parse_ts, UtcStamp};

verus! {

/// Why a payload failed to decode; each variant names the path of the
/// first offending field.
#[derive(Debug, Clone, PartialEq, Eq)]
pub enum DecodeError {
    /// The bytes are not a JSON document.
    Syntax,
    /// A required field is absent.
    Missing(Vec<u8>),
    /// A field holds a value of the wrong JSON type.
    WrongType(Vec<u8>),
    /// An integer-coded enum field holds an integer outside its values.
    InvalidEnumValue(Vec<u8>),
    /// A number is malformed or beyond the decimal capacity.
    InvalidNumber(Vec<u8>),
    /// A timestamp string is malformed or out of range.
    InvalidTimestamp(Vec<u8>),
}

/// The mathematical image of a `DecodeError`.
pub enum DecodeErrorV {
    Syntax,
    Missing(Seq<u8>),
    WrongType(Seq<u8>),
    InvalidEnumValue(Seq<u8>),
    InvalidNumber(Seq<u8>),
    InvalidTimestamp(Seq<u8>),
}

impl View for DecodeError {
    type V = DecodeErrorV;

    open spec fn view(&self) -> DecodeErrorV {
        match self {
            DecodeError::Syntax => DecodeErrorV::Syntax,
            DecodeError::Missing(p) => DecodeErrorV::Missing(p@),
            DecodeError::WrongType(p) => DecodeErrorV::WrongType(p@),
            DecodeError::InvalidEnumValue(p) => DecodeErrorV::InvalidEnumValue(p@),
            DecodeError::InvalidNumber(p) => DecodeErrorV::InvalidNumber(p@),
            DecodeError::InvalidTimestamp(p) => DecodeErrorV::InvalidTimestamp(p@),
        }
    }
}

/// `prefix.key`, or just `key` at the top level.
pub open spec fn join_path(prefix: Seq<u8>, key: Seq<u8>) -> Seq<u8> {
    if prefix.len() == 0 {
        key
    } else {
        prefix + seq![46u8] + key
    }
}

/// Builds `prefix.key` as bytes.
pub fn make_path(prefix: &[u8], key: &[u8]) -> (r: Vec<u8>)
    ensures
        r@ == join_path(prefix@, key@),
{
    let mut out: Vec<u8> = Vec::new();
    if prefix.len() > 0 {
        push_bytes(&mut out, prefix);
        out.push(46);
        assert(out@ =~= prefix@ + seq![46u8]);
    }
    push_bytes(&mut out, key);
    assert(out@ =~= join_path(prefix@, key@));
    out
}

/// The views of a list of byte strings.
pub open spec fn paths_view(s: Seq<Vec<u8>>) -> Seq<Seq<u8>> {
    s.map_values(|v: Vec<u8>| v@)
}

// ----- unsigned integer fields -----

/// Whether the bytes are the canonical text of an integer that fits in
/// a `u32`: digits only, no superfluous leading zero.
pub open spec fn is_u32_text(b: Seq<u8>) -> bool {
    &&& b.len() >= 1
    &&& forall|i: int| 0 <= i < b.len() ==> is_digit(#[trigger] b[i])
    &&& (b.len() > 1 ==> b[0] != 48)
    &&& digits_val(b) <= u32::MAX
}

/// What parsing a `u32` from bytes yields.
pub open spec fn spec_parse_u32(b: Seq<u8>) -> Option<u32> {
    if is_u32_text(b) {
        Some(digits_val(b) as u32)
    } else {
        None
    }
}

/// Parses a `u32` from its canonical decimal text.
pub fn parse_u32(b: &[u8]) -> (r: Option<u32>)
    ensures
        r == spec_parse_u32(b@),
{
    let n = b.len();
    if n == 0 {
        return None;
    }
    let de = crate::bytes::find_digits_end(b, 0);
    if de != n {
        proof {
            crate::bytes::lemma_scan_digits_all(b@, 0);
            assert(!is_digit(b@[de as int]));
        }
        return None;
    }
    if n > 1 && b[0] == 48 {
        return None;
    }
    proof {
        crate::bytes::lemma_scan_digits_all(b@, 0);
        assert(b@.subrange(0, n as int) =~= b@);
    }
    match crate::num::digits_to_u128(b, 0, n, u32::MAX as u128) {
        Some(v) => Some(v as u32),
        None => None,
    }
}

// ----- typed getters over an object's member list -----

/// An absent member, or one set to `null`, counts as not present.
pub open spec fn spec_opt_field(fields: Seq<(Vec<u8>, Json)>, key: Seq<u8>) -> Option<Json> {
    match obj_get(fields, key) {
        None => None,
        Some(v) => if v is Null {
            None
        } else {
            Some(v)
        },
    }
}

/// A required `u32` member.
pub open spec fn spec_get_u32(fields: Seq<(Vec<u8>, Json)>, key: Seq<u8>, path: Seq<u8>) -> Result<
    u32,
    DecodeErrorV,
> {
    match obj_get(fields, key) {
        None => Err(DecodeErrorV::Missing(path)),
        Some(Json::Num(t)) => match spec_parse_u32(t@) {
            Some(v) => Ok(v),
            None => Err(DecodeErrorV::InvalidNumber(path)),
        },
        Some(_) => Err(DecodeErrorV::WrongType(path)),
    }
}

/// Reads a required `u32` member.
pub fn get_u32(fields: &Vec<(Vec<u8>, Json)>, key: &[u8], prefix: &[u8]) -> (r: Result<
    u32,
    DecodeError,
>)
    ensures
        match r {
            Ok(v) => spec_get_u32(fields@, key@, join_path(prefix@, key@)) == Ok::<
                u32,
                DecodeErrorV,
            >(v),
            Err(e) => spec_get_u32(fields@, key@, join_path(prefix@, key@)) == Err::<
                u32,
                DecodeErrorV,
            >(e@),
        },
{
    match lookup(fields, key) {
        None => Err(DecodeError::Missing(make_path(prefix, key))),
        Some(Json::Num(t)) => match parse_u32(t.as_slice()) {
            Some(v) => Ok(v),
            None => Err(DecodeError::InvalidNumber(make_path(prefix, key))),
        },
        Some(_) => Err(DecodeError::WrongType(make_path(prefix, key))),
    }
}

/// A required string member, kept as bytes.
pub open spec fn spec_get_str(fields: Seq<(Vec<u8>, Json)>, key: Seq<u8>, path: Seq<u8>) -> Result<
    Seq<u8>,
    DecodeErrorV,
> {
    match obj_get(fields, key) {
        None => Err(DecodeErrorV::Missing(path)),
        Some(Json::Str(s)) => Ok(s@),
        Some(_) => Err(DecodeErrorV::WrongType(path)),
    }
}

/// Reads a required string member.
pub fn get_str(fields: &Vec<(Vec<u8>, Json)>, key: &[u8], prefix: &[u8]) -> (r: Result<
    Vec<u8>,
    DecodeError,
>)
    ensures
        match r {
            Ok(v) => spec_get_str(fields@, key@, join_path(prefix@, key@)) == Ok::<
                Seq<u8>,
                DecodeErrorV,
            >(v@),
            Err(e) => spec_get_str(fields@, key@, join_path(prefix@, key@)) == Err::<
                Seq<u8>,
                DecodeErrorV,
            >(e@),
        },
{
    match lookup(fields, key) {
        None => Err(DecodeError::Missing(make_path(prefix, key))),
        Some(Json::Str(s)) => Ok(copy_bytes(s.as_slice())),
        Some(_) => Err(DecodeError::WrongType(make_path(prefix, key))),
    }
}

/// A required timestamp member.
pub open spec fn spec_get_ts(fields: Seq<(Vec<u8>, Json)>, key: Seq<u8>, path: Seq<u8>) -> Result<
    UtcStamp,
    DecodeErrorV,
> {
    match obj_get(fields, key) {
        None => Err(DecodeErrorV::Missing(path)),
        Some(Json::Str(s)) => match spec_parse_ts(s@) {
            Some(t) => Ok(t),
            None => Err(DecodeErrorV::InvalidTimestamp(path)),
        },
        Some(_) => Err(DecodeErrorV::WrongType(path)),
    }
}

/// Reads a required timestamp member.
pub fn get_ts(fields: &Vec<(Vec<u8>, Json)>, key: &[u8], prefix: &[u8]) -> (r: Result<
    UtcStamp,
    DecodeError,
>)
    ensures
        match r {
            Ok(v) => spec_get_ts(fields@, key@, join_path(prefix@, key@)) == Ok::<
                UtcStamp,
                DecodeErrorV,
            >(v),
            Err(e) => spec_get_ts(fields@, key@, join_path(prefix@, key@)) == Err::<
                UtcStamp,
                DecodeErrorV,
            >(e@),
        },
{
    match lookup(fields, key) {
        None => Err(DecodeError::Missing(make_path(prefix, key))),
        Some(Json::Str(s)) => match crate::tstamp::parse_ts(s.as_slice()) {
            Some(t) => Ok(t),
            None => Err(DecodeError::InvalidTimestamp(make_path(prefix, key))),
        },
        Some(_) => Err(DecodeError::WrongType(make_path(prefix, key))),
    }
}

/// A required decimal member: a number token, or the same grammar in a
/// string, decoded exactly.
pub open spec fn spec_get_dec(fields: Seq<(Vec<u8>, Json)>, key: Seq<u8>, path: Seq<u8>) -> Result<
    Dec,
    DecodeErrorV,
> {
    match obj_get(fields, key) {
        None => Err(DecodeErrorV::Missing(path)),
        Some(Json::Num(t)) => match spec_parse_dec(t@) {
            Some(d) => Ok(d),
            None => Err(DecodeErrorV::InvalidNumber(path)),
        },
        Some(Json::Str(s)) => match spec_parse_dec(s@) {
            Some(d) => Ok(d),
            None => Err(DecodeErrorV::InvalidNumber(path)),
        },
        Some(_) => Err(DecodeErrorV::WrongType(path)),
    }
}

/// Reads a required decimal member.
pub fn get_dec(fields: &Vec<(Vec<u8>, Json)>, key: &[u8], prefix: &[u8]) -> (r: Result<
    Dec,
    DecodeError,
>)
    ensures
        match r {
            Ok(v) => spec_get_dec(fields@, key@, join_path(prefix@, key@)) == Ok::<
                Dec,
                DecodeErrorV,
            >(v) && v.wf(),
            Err(e) => spec_get_dec(fields@, key@, join_path(prefix@, key@)) == Err::<
                Dec,
                DecodeErrorV,
            >(e@),
        },
{
    match lookup(fields, key) {
        None => Err(DecodeError::Missing(make_path(prefix, key))),
        Some(Json::Num(t)) => match crate::num::parse_dec(t.as_slice()) {
            Some(d) => Ok(d),
            None => Err(DecodeError::InvalidNumber(make_path(prefix, key))),
        },
        Some(Json::Str(s)) => match crate::num::parse_dec(s.as_slice()) {
            Some(d) => Ok(d),
            None => Err(DecodeError::InvalidNumber(make_path(prefix, key))),
        },
        Some(_) => Err(DecodeError::WrongType(make_path(prefix, key))),
    }
}

/// An optional decimal member: absent or `null` yields nothing.
pub open spec fn spec_get_opt_dec(
    fields: Seq<(Vec<u8>, Json)>,
    key: Seq<u8>,
    path: Seq<u8>,
) -> Result<Option<Dec>, DecodeErrorV> {
    match spec_opt_field(fields, key) {
        None => Ok(None),
        Some(Json::Num(t)) => match spec_parse_dec(t@) {
            Some(d) => Ok(Some(d)),
            None => Err(DecodeErrorV::InvalidNumber(path)),
        },
        Some(Json::Str(s)) => match spec_parse_dec(s@) {
            Some(d) => Ok(Some(d)),
            None => Err(DecodeErrorV::InvalidNumber(path)),
        },
        Some(_) => Err(DecodeErrorV::WrongType(path)),
    }
}

/// Reads an optional decimal member.
pub fn get_opt_dec(fields: &Vec<(Vec<u8>, Json)>, key: &[u8], prefix: &[u8]) -> (r: Result<
    Option<Dec>,
    DecodeError,
>)
    ensures
        match r {
            Ok(v) => spec_get_opt_dec(fields@, key@, join_path(prefix@, key@)) == Ok::<
                Option<Dec>,
                DecodeErrorV,
            >(v) && (v is Some ==> v.unwrap().wf()),
            Err(e) => spec_get_opt_dec(fields@, key@, join_path(prefix@, key@)) == Err::<
                Option<Dec>,
                DecodeErrorV,
            >(e@),
        },
{
    match lookup(fields, key) {
        None => Ok(None),
        Some(Json::Null) => Ok(None),
        Some(Json::Num(t)) => match crate::num::parse_dec(t.as_slice()) {
            Some(d) => Ok(Some(d)),
            None => Err(DecodeError::InvalidNumber(make_path(prefix, key))),
        },
        Some(Json::Str(s)) => match crate::num::parse_dec(s.as_slice()) {
            Some(d) => Ok(Some(d)),
            None => Err(DecodeError::InvalidNumber(make_path(prefix, key))),
        },
        Some(_) => Err(DecodeError::WrongType(make_path(prefix, key))),
    }
}

/// An optional `u32` member: absent or `null` yields nothing.
pub open spec fn spec_get_opt_u32(
    fields: Seq<(Vec<u8>, Json)>,
    key: Seq<u8>,
    path: Seq<u8>,
) -> Result<Option<u32>, DecodeErrorV> {
    match spec_opt_field(fields, key) {
        None => Ok(None),
        Some(Json::Num(t)) => match spec_parse_u32(t@) {
            Some(v) => Ok(Some(v)),
            None => Err(DecodeErrorV::InvalidNumber(path)),
        },
        Some(_) => Err(DecodeErrorV::WrongType(path)),
    }
}

/// Reads an optional `u32` member.
pub fn get_opt_u32(fields: &Vec<(Vec<u8>, Json)>, key: &[u8], prefix: &[u8]) -> (r: Result<
    Option<u32>,
    DecodeError,
>)
    ensures
        match r {
            Ok(v) => spec_get_opt_u32(fields@, key@, join_path(prefix@, key@)) == Ok::<
                Option<u32>,
                DecodeErrorV,
            >(v),
            Err(e) => spec_get_opt_u32(fields@, key@, join_path(prefix@, key@)) == Err::<
                Option<u32>,
                DecodeErrorV,
            >(e@),
        },
{
    match lookup(fields, key) {
        None => Ok(None),
        Some(Json::Null) => Ok(None),
        Some(Json::Num(t)) => match parse_u32(t.as_slice()) {
            Some(v) => Ok(Some(v)),
            None => Err(DecodeError::InvalidNumber(make_path(prefix, key))),
        },
        Some(_) => Err(DecodeError::WrongType(make_path(prefix, key))),
    }
}

/// An optional string member: absent or `null` yields nothing.
pub open spec fn spec_get_opt_str(
    fields: Seq<(Vec<u8>, Json)>,
    key: Seq<u8>,
    path: Seq<u8>,
) -> Result<Option<Seq<u8>>, DecodeErrorV> {
    match spec_opt_field(fields, key) {
        None => Ok(None),
        Some(Json::Str(s)) => Ok(Some(s@)),
        Some(_) => Err(DecodeErrorV::WrongType(path)),
    }
}

/// Reads an optional string member.
pub fn get_opt_str(fields: &Vec<(Vec<u8>, Json)>, key: &[u8], prefix: &[u8]) -> (r: Result<
    Option<Vec<u8>>,
    DecodeError,
>)
    ensures
        match r {
            Ok(v) => spec_get_opt_str(fields@, key@, join_path(prefix@, key@)) == Ok::<
                Option<Seq<u8>>,
                DecodeErrorV,
            >(match v {
                Some(b) => Some(b@),
                None => None,
            }),
            Err(e) => spec_get_opt_str(fields@, key@, join_path(prefix@, key@)) == Err::<
                Option<Seq<u8>>,
                DecodeErrorV,
            >(e@),
        },
{
    match lookup(fields, key) {
        None => Ok(None),
        Some(Json::Null) => Ok(None),
        Some(Json::Str(s)) => Ok(Some(copy_bytes(s.as_slice()))),
        Some(_) => Err(DecodeError::WrongType(make_path(prefix, key))),
    }
}

// ----- the integer-coded active flag -----

/// Whether the bytes are a JSON integer token: a number without a
/// fraction or an exponent.
pub open spec fn is_int_text(b: Seq<u8>) -> bool {
    crate::num::is_num_text(b) && !crate::num::has_dot(b) && !crate::num::has_exp(b)
}

/// A required active flag, transmitted as an integer: zero clears it,
/// one sets it, any other integer is an invalid enum value.
pub open spec fn spec_get_active(
    fields: Seq<(Vec<u8>, Json)>,
    key: Seq<u8>,
    path: Seq<u8>,
) -> Result<bool, DecodeErrorV> {
    match obj_get(fields, key) {
        None => Err(DecodeErrorV::Missing(path)),
        Some(Json::Num(t)) => if t@ == seq![48u8] {
            Ok(false)
        } else if t@ == seq![49u8] {
            Ok(true)
        } else if is_int_text(t@) {
            Err(DecodeErrorV::InvalidEnumValue(path))
        } else {
            Err(DecodeErrorV::WrongType(path))
        },
        Some(_) => Err(DecodeErrorV::WrongType(path)),
    }
}

/// Reads the integer-coded active flag.
pub fn get_active(fields: &Vec<(Vec<u8>, Json)>, key: &[u8], prefix: &[u8]) -> (r: Result<
    bool,
    DecodeError,
>)
    ensures
        match r {
            Ok(v) => spec_get_active(fields@, key@, join_path(prefix@, key@)) == Ok::<
                bool,
                DecodeErrorV,
            >(v),
            Err(e) => spec_get_active(fields@, key@, join_path(prefix@, key@)) == Err::<
                bool,
                DecodeErrorV,
            >(e@),
        },
{
    match lookup(fields, key) {
        None => Err(DecodeError::Missing(make_path(prefix, key))),
        Some(Json::Num(t)) => {
            if t.len() == 1 && t[0] == 48 {
                assert(t@ =~= seq![48u8]);
                return Ok(false);
            }
            if t.len() == 1 && t[0] == 49 {
                assert(t@ =~= seq![49u8]);
                return Ok(true);
            }
            assert(t@ != seq![48u8] && t@ != seq![49u8]) by {
                if t@.len() == 1 {
                    assert(t@[0] == t[0 as int]);
                }
            }
            if is_int_token(t.as_slice()) {
                Err(DecodeError::InvalidEnumValue(make_path(prefix, key)))
            } else {
                Err(DecodeError::WrongType(make_path(prefix, key)))
            }
        },
        Some(_) => Err(DecodeError::WrongType(make_path(prefix, key))),
    }
}

/// Whether the bytes are a JSON integer token.
pub fn is_int_token(b: &[u8]) -> (r: bool)
    ensures
        r == is_int_text(b@),
{
    let n = b.len();
    let neg = n > 0 && b[0] == 45;
    let i0: usize = if neg { 1 } else { 0 };
    let i1 = crate::bytes::find_digits_end(b, i0);
    if i1 == i0 {
        return false;
    }
    if i1 - i0 > 1 && b[i0] == 48 {
        return false;
    }
    if i1 != n {
        assert(!is_int_text(b@)) by {
            crate::bytes::lemma_scan_digits_all(b@, i0 as int);
            assert(crate::num::int_end(b@) == i1 as int);
            if crate::num::is_num_text(b@) && !crate::num::has_dot(b@) && !crate::num::has_exp(
                b@,
            ) {
                assert(!is_digit(b@[i1 as int]));
                assert(crate::num::frac_start(b@) == i1 as int);
                assert(crate::num::frac_end(b@) == i1 as int);
                assert(false);
            }
        }
        return false;
    }
    assert(crate::num::int_end(b@) == i1 as int);
    assert(!crate::num::has_dot(b@) && !crate::num::has_exp(b@));
    assert(crate::num::frac_end(b@) == i1 as int);
    true
}

// ----- unknown fields -----

/// Whether `k` occurs in the list of known names.
pub open spec fn name_in(known: Seq<Seq<u8>>, k: Seq<u8>) -> bool {
    exists|j: int| 0 <= j < known.len() && known[j] == k
}

/// The dotted paths of the members of `fields`, from position `i` on,
/// whose names are not known, in member order.
pub open spec fn spec_unknown(
    fields: Seq<(Vec<u8>, Json)>,
    known: Seq<Seq<u8>>,
    prefix: Seq<u8>,
    i: int,
) -> Seq<Seq<u8>>
    decreases fields.len() - i,
{
    if i < 0 || i >= fields.len() {
        Seq::empty()
    } else {
        let rest = spec_unknown(fields, known, prefix, i + 1);
        if !name_in(known, fields[i].0@) {
            seq![join_path(prefix, fields[i].0@)] + rest
        } else {
            rest
        }
    }
}

fn name_in_at(known: &Vec<Vec<u8>>, k: &[u8], i: usize) -> (r: bool)
    requires
        i <= known@.len(),
    ensures
        r == exists|j: int| i <= j < known@.len() && known@[j]@ == k@,
    decreases known@.len() - i,
{
    if i == known.len() {
        false
    } else if bytes_eq(known[i].as_slice(), k) {
        assert(known@[i as int]@ == k@);
        true
    } else {
        name_in_at(known, k, i + 1)
    }
}

/// Whether `k` occurs in the list of known names.
pub fn name_in_list(known: &Vec<Vec<u8>>, k: &[u8]) -> (r: bool)
    ensures
        r == name_in(paths_view(known@), k@),
{
    let r = name_in_at(known, k, 0);
    proof {
        if r {
            let j = choose|j: int| 0 <= j < known@.len() && known@[j]@ == k@;
            assert(paths_view(known@)[j] == k@);
        } else {
            if name_in(paths_view(known@), k@) {
                let j = choose|j: int|
                    0 <= j < paths_view(known@).len() && paths_view(known@)[j] == k@;
                assert(known@[j]@ == k@);
            }
        }
    }
    r
}

fn collect_unknown_at(
    fields: &Vec<(Vec<u8>, Json)>,
    known: &Vec<Vec<u8>>,
    prefix: &[u8],
    i: usize,
    out: &mut Vec<Vec<u8>>,
)
    requires
        i <= fields@.len(),
    ensures
        paths_view(final(out)@) == paths_view(old(out)@) + spec_unknown(
            fields@,
            paths_view(known@),
            prefix@,
            i as int,
        ),
    decreases fields@.len() - i,
{
    if i == fields.len() {
        assert(paths_view(final(out)@) =~= paths_view(old(out)@) + spec_unknown(
            fields@,
            paths_view(known@),
            prefix@,
            i as int,
        ));
        return ;
    }
    if !name_in_list(known, fields[i].0.as_slice()) {
        let p = make_path(prefix, fields[i].0.as_slice());
        out.push(p);
        assert(paths_view(out@) =~= paths_view(old(out)@) + seq![
            join_path(prefix@, fields@[i as int].0@),
        ]);
    }
    let ghost mid = out@;
    collect_unknown_at(fields, known, prefix, i + 1, out);
    assert(paths_view(final(out)@) =~= paths_view(old(out)@) + spec_unknown(
        fields@,
        paths_view(known@),
        prefix@,
        i as int,
    ));
}

/// Appends the dotted paths of the unknown members of `fields` to
/// `out`, in member order.
pub fn collect_unknown(
    fields: &Vec<(Vec<u8>, Json)>,
    known: &Vec<Vec<u8>>,
    prefix: &[u8],
    out: &mut Vec<Vec<u8>>,
)
    ensures
        paths_view(final(out)@) == paths_view(old(out)@) + spec_unknown(
            fields@,
            paths_view(known@),
            prefix@,
            0,
        ),
{
    collect_unknown_at(fields, known, prefix, 0, out);
}

} // verus!
