//! Turning the raw bytes behind the priority header into text.
//!
//! A buffer that opens with the UTF-8 byte-order mark is taken as a
//! promise of well-formed UTF-8: the mark is stripped and the rest must
//! decode strictly, or the datagram is rejected.  Any other buffer is of
//! unknown encoding and is decoded lossily, with invalid sequences
//! replaced by the replacement character, so that decoding never fails.

use vstd::prelude::*;

use vstd::slice::slice_subrange;
use vstd::utf8::decode_utf8;
use vstd::utf8::valid_utf8;

verus! {

/// What `String::from_utf8_lossy` returns: a function of the bytes alone.
pub uninterp spec fn lossy_chars(b: Seq<u8>) -> Seq<char>;

/// The buffer opens with the three-byte UTF-8 byte-order mark.
pub open spec fn has_bom(b: Seq<u8>) -> bool {
    b.len() >= 3 && b[0] == 0xef && b[1] == 0xbb && b[2] == 0xbf
}

/// Normalization succeeds: either there is no byte-order mark, or the
/// bytes after the mark are valid UTF-8.
pub open spec fn spec_normalize_ok(b: Seq<u8>) -> bool {
    has_bom(b) ==> valid_utf8(b.subrange(3, b.len() as int))
}

/// The text that normalization produces when it succeeds.
pub open spec fn spec_normalized(b: Seq<u8>) -> Seq<char> {
    if has_bom(b) {
        decode_utf8(b.subrange(3, b.len() as int))
    } else {
        lossy_chars(b)
    }
}

/// Relies on `String::from_utf8`: it succeeds exactly on valid UTF-8 and
/// then returns its decoding; on failure, `Utf8Error::valid_up_to` is the
/// length of a valid prefix, short of the first invalid sequence.
#[verifier::external_body]
fn utf8_to_string(bytes: &[u8]) -> (r: Result<String, usize>)
    ensures
        (r is Ok) == valid_utf8(bytes@),
        r matches Ok(s) ==> s@ == decode_utf8(bytes@),
        r matches Err(n) ==> n < bytes@.len() && valid_utf8(bytes@.subrange(0, n as int)),
{
    String::from_utf8(bytes.to_vec()).map_err(|e| e.utf8_error().valid_up_to())
}

/// Relies on `String::from_utf8_lossy`: the result is a function of the
/// bytes alone, and is the strict decoding whenever the bytes are valid
/// UTF-8.
#[verifier::external_body]
fn lossy_to_string(bytes: &[u8]) -> (r: String)
    ensures
        r@ == lossy_chars(bytes@),
        valid_utf8(bytes@) ==> r@ == decode_utf8(bytes@),
{
    String::from_utf8_lossy(bytes).into_owned()
}

/// Best-effort extraction of text from the content of a datagram.
///
/// On failure the error carries the number of bytes after the byte-order
/// mark up to which the content was still valid UTF-8.
pub fn normalize(buf: &[u8]) -> (r: Result<String, usize>)
    ensures
        (r is Ok) == spec_normalize_ok(buf@),
        r matches Ok(s) ==> s@ == spec_normalized(buf@),
        r matches Err(n) ==> {
            &&& has_bom(buf@)
            &&& !valid_utf8(buf@.subrange(3, buf@.len() as int))
            &&& n < buf@.len() - 3
            &&& valid_utf8(buf@.subrange(3, buf@.len() as int).subrange(0, n as int))
        },
{
    let n = buf.len();
    if n >= 3 && buf[0] == 0xef && buf[1] == 0xbb && buf[2] == 0xbf {
        let rest = slice_subrange(buf, 3, n);
        match utf8_to_string(rest) {
            Ok(s) => Ok(s),
            Err(off) => Err(off),
        }
    } else {
        assert(!has_bom(buf@));
        Ok(lossy_to_string(buf))
    }
}

} // verus!
