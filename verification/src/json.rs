//! The JSON document model that the decoders work on.  Object members
//! keep their order; numbers keep their exact source text, so decimal
//! fields suffer no precision loss on the way in.

use vstd::prelude::*;

verus! {

/// A JSON value.  Strings and numbers are byte strings: a number holds
/// the exact characters of its source token.
pub enum Json {
    Null,
    Bool(bool),
    Num(Vec<u8>),
    Str(Vec<u8>),
    Arr(Vec<Json>),
    Obj(Vec<(Vec<u8>, Json)>),
}

/// The first member of `fields` at or after `i` whose name is `key`.
pub open spec fn obj_get_from(fields: Seq<(Vec<u8>, Json)>, key: Seq<u8>, i: int) -> Option<Json>
    decreases fields.len() - i,
{
    if i < 0 || i >= fields.len() {
        None
    } else if fields[i].0@ == key {
        Some(fields[i].1)
    } else {
        obj_get_from(fields, key, i + 1)
    }
}

/// The member of an object named `key`: the first occurrence decides.
pub open spec fn obj_get(fields: Seq<(Vec<u8>, Json)>, key: Seq<u8>) -> Option<Json> {
    obj_get_from(fields, key, 0)
}

fn obj_get_at<'a>(fields: &'a Vec<(Vec<u8>, Json)>, key: &[u8], i: usize) -> (r: Option<&'a Json>)
    requires
        i <= fields@.len(),
    ensures
        match r {
            Some(v) => obj_get_from(fields@, key@, i as int) == Some(*v),
            None => obj_get_from(fields@, key@, i as int) is None,
        },
    decreases fields@.len() - i,
{
    if i == fields.len() {
        None
    } else if crate::bytes::bytes_eq(fields[i].0.as_slice(), key) {
        Some(&fields[i].1)
    } else {
        obj_get_at(fields, key, i + 1)
    }
}

/// Looks a member up by name in an object's member list.
pub fn lookup<'a>(fields: &'a Vec<(Vec<u8>, Json)>, key: &[u8]) -> (r: Option<&'a Json>)
    ensures
        match r {
            Some(v) => obj_get(fields@, key@) == Some(*v),
            None => obj_get(fields@, key@) is None,
        },
{
    obj_get_at(fields, key, 0)
}

/// A fresh copy of a byte string.
pub fn copy_bytes(b: &[u8]) -> (r: Vec<u8>)
    ensures
        r@ == b@,
{
    vstd::slice::slice_to_vec(b)
}

/// Appends all of `b` to `out`.
pub fn push_bytes(out: &mut Vec<u8>, b: &[u8])
    ensures
        final(out)@ == old(out)@ + b@,
{
    let mut i: usize = 0;
    while i < b.len()
        invariant
            i <= b@.len(),
            out@ == old(out)@ + b@.take(i as int),
        decreases b@.len() - i,
    {
        out.push(b[i]);
        assert(b@.take(i + 1int) =~= b@.take(i as int).push(b@[i as int]));
        i += 1;
    }
    assert(b@.take(b@.len() as int) =~= b@);
}

} // verus!
