//! The calls into bincode (1.3, its default `serialize` / `deserialize`
//! functions: fixed-width little-endian integers, no size limit, trailing
//! bytes allowed), one per primitive piece of the protocol's values.
//!
//! Each contract says what bincode's source shows for that piece:
//! `serialize_str` writes the UTF-8 length as a `u64` then the bytes,
//! `serialize_seq` the element count then the elements, `serialize_none` /
//! `serialize_some` a `0` / `1` tag byte; `deserialize` reads the same through
//! its slice reader and fails exactly where a read runs past the end, a length
//! does not fit in a `usize`, the bytes are not UTF-8, or an option tag is
//! neither `0` nor `1`.  Serialising into a `Vec` with no size limit cannot fail.

use crate::wire::{
    bincode_opt_str, bincode_str, bincode_strs, bincode_u32, read_opt_str, read_str, read_strs,
    read_u32, str_views,
};
use vstd::prelude::*;

verus! {

/// bincode's error type (`bincode::Error` is `Box<bincode::ErrorKind>`).
#[verifier::external_type_specification]
#[verifier::external_body]
pub struct ExBincodeErrorKind(bincode::ErrorKind);

/// The view of an optional string.
pub open spec fn opt_str_view(o: Option<String>) -> Option<Seq<char>> {
    match o {
        Some(s) => Some(s@),
        None => None,
    }
}

/// `bincode::serialize` of a `u32`: its four little-endian bytes.
#[verifier::external_body]
pub(crate) fn bincode_serialize_u32(v: u32) -> (res: Result<Vec<u8>, Box<bincode::ErrorKind>>)
    ensures
        res is Ok,
        res matches Ok(b) ==> b@ == bincode_u32(v),
{
    bincode::serialize(&v)
}

/// `bincode::serialize` of a `String`: the UTF-8 length as a little-endian
/// `u64`, then the UTF-8 bytes.
#[verifier::external_body]
pub(crate) fn bincode_serialize_string(s: &String) -> (res: Result<Vec<u8>, Box<bincode::ErrorKind>>)
    ensures
        res is Ok,
        res matches Ok(b) ==> b@ == bincode_str(s@),
{
    bincode::serialize(s)
}

/// `bincode::serialize` of a `Vec<String>`: the count as a little-endian
/// `u64`, then each string as above.
#[verifier::external_body]
pub(crate) fn bincode_serialize_strings(v: &Vec<String>) -> (res: Result<
    Vec<u8>,
    Box<bincode::ErrorKind>,
>)
    ensures
        res is Ok,
        res matches Ok(b) ==> b@ == bincode_strs(str_views(v@)),
{
    bincode::serialize(v)
}

/// `bincode::serialize` of an `Option<String>`: a `0` byte, or a `1` byte and
/// the string.
#[verifier::external_body]
pub(crate) fn bincode_serialize_opt_string(o: &Option<String>) -> (res: Result<
    Vec<u8>,
    Box<bincode::ErrorKind>,
>)
    ensures
        res is Ok,
        res matches Ok(b) ==> b@ == bincode_opt_str(opt_str_view(*o)),
{
    bincode::serialize(o)
}

/// bincode's error text when `deserialize::<u32>` fails on the bytes `b`.
pub uninterp spec fn u32_read_error(b: Seq<u8>) -> Seq<char>;

/// bincode's error text when `deserialize::<String>` fails on the bytes `b`.
pub uninterp spec fn str_read_error(b: Seq<u8>) -> Seq<char>;

/// bincode's error text when `deserialize::<Vec<String>>` fails on the bytes
/// `b`.
pub uninterp spec fn strs_read_error(b: Seq<u8>) -> Seq<char>;

/// bincode's error text when `deserialize::<Option<String>>` fails on the
/// bytes `b`.
pub uninterp spec fn opt_str_read_error(b: Seq<u8>) -> Seq<char>;

/// `bincode::deserialize::<u32>`: the first four bytes, little-endian; an
/// error where there are fewer than four, given as bincode's `Display` text,
/// which its source computes from the bytes alone.
#[verifier::external_body]
pub(crate) fn bincode_deserialize_u32(b: &[u8]) -> (res: Result<u32, String>)
    ensures
        res is Ok <==> read_u32(b@) is Some,
        res matches Ok(v) ==> v == read_u32(b@).unwrap().0,
        res matches Err(e) ==> e@ == u32_read_error(b@),
{
    match bincode::deserialize::<u32>(b) {
        Ok(v) => Ok(v),
        Err(e) => Err(e.to_string()),
    }
}

/// `bincode::deserialize::<String>`: a `u64` length that fits in a `usize`,
/// then that many bytes, which must be UTF-8; an error is given as bincode's
/// `Display` text, which its source computes from the bytes alone.
#[verifier::external_body]
pub(crate) fn bincode_deserialize_string(b: &[u8]) -> (res: Result<String, String>)
    ensures
        res is Ok <==> read_str(b@) is Some,
        res matches Ok(s) ==> s@ == read_str(b@).unwrap().0,
        res matches Err(e) ==> e@ == str_read_error(b@),
{
    match bincode::deserialize::<String>(b) {
        Ok(s) => Ok(s),
        Err(e) => Err(e.to_string()),
    }
}

/// `bincode::deserialize::<Vec<String>>`: a `u64` count that fits in a
/// `usize`, then that many strings; an error is given as bincode's `Display`
/// text, which its source computes from the bytes alone.
#[verifier::external_body]
pub(crate) fn bincode_deserialize_strings(b: &[u8]) -> (res: Result<Vec<String>, String>)
    ensures
        res is Ok <==> read_strs(b@) is Some,
        res matches Ok(v) ==> str_views(v@) == read_strs(b@).unwrap().0,
        res matches Err(e) ==> e@ == strs_read_error(b@),
{
    match bincode::deserialize::<Vec<String>>(b) {
        Ok(v) => Ok(v),
        Err(e) => Err(e.to_string()),
    }
}

/// `bincode::deserialize::<Option<String>>`: a tag byte, `0` for `None`, `1`
/// followed by a string for `Some`; any other tag is an error.  An error is
/// given as bincode's `Display` text, which its source computes from the
/// bytes alone.
#[verifier::external_body]
pub(crate) fn bincode_deserialize_opt_string(b: &[u8]) -> (res: Result<Option<String>, String>)
    ensures
        res is Ok <==> read_opt_str(b@) is Some,
        res matches Ok(o) ==> opt_str_view(o) == read_opt_str(b@).unwrap().0,
        res matches Err(e) ==> e@ == opt_str_read_error(b@),
{
    match bincode::deserialize::<Option<String>>(b) {
        Ok(o) => Ok(o),
        Err(e) => Err(e.to_string()),
    }
}

/// The `Display` text of a bincode error.  What the text says is not stated
/// here: it is bincode's own wording for each kind of error.
#[verifier::external_body]
pub(crate) fn bincode_error_text(e: &Box<bincode::ErrorKind>) -> String {
    e.to_string()
}

} // verus!
