//! Version extraction from migration directory names.
//!
//! A directory name has the shape `<version><separator><description>`: the
//! version token is the part of the name before the first `'_'`, with every
//! `'-'` removed (so `2023-01-01_init` and `20230101_init` carry the same
//! version). Both the scanner and the builder derive versions through the one
//! function here, so the two can never disagree.

use vstd::prelude::*;
use vstd::utf8::encode_utf8;
use crate::errors::ScanError;

verus! {

/// The bytes of `s` before its first `'_'` (byte 95); all of `s` if it has
/// none. In UTF-8 the byte 95 occurs only as the character `'_'`, so this is
/// the byte-level image of splitting the text at its first underscore.
pub open spec fn before_underscore(s: Seq<u8>) -> Seq<u8>
    decreases s.len(),
{
    if s.len() == 0 {
        Seq::empty()
    } else if s[0] == 95 {
        Seq::empty()
    } else {
        seq![s[0]] + before_underscore(s.drop_first())
    }
}

/// `s` with every `'-'` (byte 45) removed.
pub open spec fn without_dashes(s: Seq<u8>) -> Seq<u8>
    decreases s.len(),
{
    if s.len() == 0 {
        Seq::empty()
    } else if s[0] == 45 {
        without_dashes(s.drop_first())
    } else {
        seq![s[0]] + without_dashes(s.drop_first())
    }
}

/// The version token a directory name carries, as bytes: the segment before
/// the first `'_'`, with every `'-'` removed.
pub open spec fn raw_version_of(name: Seq<u8>) -> Seq<u8> {
    without_dashes(before_underscore(name))
}

/// A name carries a usable version exactly when the token is non-empty.
pub open spec fn valid_version(name: Seq<u8>) -> bool {
    raw_version_of(name).len() > 0
}

/// Relies on `migrations_internals::version_from_string`: the result is the
/// segment of the name before the first `'_'` (the whole name if it has
/// none), with every `'-'` removed. `split('_')` always yields a first
/// segment, so the call always returns `Some`; the `None` arm is unreachable
/// and maps to the empty token.
#[verifier::external_body]
fn extract_version(name: &str) -> (r: String)
    ensures
        encode_utf8(r@) == raw_version_of(encode_utf8(name@)),
{
    match migrations_internals::version_from_string(name) {
        Some(v) => v,
        None => String::new(),
    }
}

/// A text is empty exactly when its UTF-8 encoding is: every character
/// encodes to at least one byte.
proof fn lemma_encode_utf8_empty(s: Seq<char>)
    ensures
        encode_utf8(s).len() == 0 <==> s.len() == 0,
{
    if s.len() > 0 {
        assert(encode_utf8(s) == vstd::utf8::encode_scalar(s[0] as u32) + encode_utf8(
            s.drop_first(),
        ));
        assert(vstd::utf8::encode_scalar(s[0] as u32).len() >= 1);
    }
}

/// Derives the version token of a migration directory name, rejecting names
/// whose token is empty (a name that starts with `'_'`, or whose leading
/// segment is nothing but `'-'`).
pub fn version_of(name: &str) -> (r: Result<String, ScanError>)
    ensures
        r is Ok <==> valid_version(encode_utf8(name@)),
        r matches Ok(v) ==> encode_utf8(v@) == raw_version_of(encode_utf8(name@)),
        r matches Err(e) ==> e matches ScanError::InvalidVersion(n) && n@ == name@,
{
    let v = extract_version(name);
    proof {
        lemma_encode_utf8_empty(v@);
    }
    if v.as_str().is_empty() {
        Err(ScanError::InvalidVersion(name.to_owned()))
    } else {
        Ok(v)
    }
}

} // verus!
