//! Conversions between strings and their UTF-8 bytes.
//!
//! The codecs of this library work on bytes; the data types carry
//! strings.  These helpers cross that boundary, in both directions.

use vstd::prelude::*;

use vstd::string::StrSliceExecFns;
use vstd::utf8::{decode_utf8, encode_utf8, valid_utf8};

use crate::errors::AttestErrors;

verus! {

/// Copies a byte vector.
pub fn copy_bytes(v: &Vec<u8>) -> (r: Vec<u8>)
    ensures
        r@ == v@,
{
    let mut r: Vec<u8> = Vec::new();
    let mut i: usize = 0;
    while i < v.len()
        invariant
            i <= v@.len(),
            r@ =~= v@.subrange(0, i as int),
        decreases v@.len() - i,
    {
        r.push(v[i]);
        proof {
            assert(r@ =~= v@.subrange(0, i + 1));
        }
        i = i + 1;
    }
    proof {
        assert(r@ =~= v@);
    }
    r
}

/// The UTF-8 bytes of a string.
pub fn string_bytes(s: &String) -> (r: Vec<u8>)
    ensures
        r@ == encode_utf8(s@),
{
    s.as_str().as_bytes_vec()
}

/// Relies on std's `String::from_utf8`: succeeds exactly on valid UTF-8,
/// returning the string those bytes encode.
#[verifier::external_body]
pub(crate) fn string_from_utf8(v: Vec<u8>) -> (r: Result<String, AttestErrors>)
    ensures
        r is Ok ==> valid_utf8(v@) && r.unwrap()@ == decode_utf8(v@) && encode_utf8(
            r.unwrap()@,
        ) == v@,
        r is Err ==> !valid_utf8(v@),
        r matches Err(e) ==> e == AttestErrors::AttestDataMalformedError,
{
    match String::from_utf8(v) {
        Ok(s) => Ok(s),
        Err(_) => Err(AttestErrors::AttestDataMalformedError),
    }
}

/// Relies on std's `String::from_utf8`: ASCII bytes are valid UTF-8 and
/// decode one byte to one character.
#[verifier::external_body]
pub(crate) fn ascii_string(v: &Vec<u8>) -> (r: String)
    requires
        forall|i: int| 0 <= i < v@.len() ==> v@[i] < 0x80,
    ensures
        r@.len() == v@.len(),
        forall|i: int| 0 <= i < v@.len() ==> r@[i] == v@[i] as char,
        encode_utf8(r@) == v@,
{
    String::from_utf8(v.clone()).expect("ASCII bytes are valid UTF-8")
}

} // verus!
