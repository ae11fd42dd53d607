//! The decoder's guarantees, stated and proved once and for all inputs:
//! what the priority header yields, which buffers are rejected, and what
//! full tokenization leaves in each field.

use vstd::prelude::*;

use crate::decoder::all_digit_bytes;
use crate::decoder::dec_value;
use crate::decoder::find_gt;
use crate::decoder::first_space;
use crate::decoder::is_digit_byte;
use crate::decoder::priority_of_token;
use crate::decoder::spec_decode;
use crate::decoder::spec_record_from_text;
use crate::decoder::SpecDecodeResult;
use crate::encoding::has_bom;
use crate::timestamp::spec_parse_timestamp;

verus! {

proof fn lemma_find_gt_some(b: Seq<u8>, i: int, j: int)
    requires
        1 <= i <= j <= 6,
        j < b.len(),
        b[j] == 0x3e,
        forall|k: int| i <= k < j ==> b[k] != 0x3e,
    ensures
        find_gt(b, i) == Some(j),
    decreases j - i,
{
    if i < j {
        lemma_find_gt_some(b, i + 1, j);
    }
}

proof fn lemma_find_gt_none(b: Seq<u8>, i: int)
    requires
        1 <= i <= 7,
        forall|k: int| i <= k <= 6 && k < b.len() ==> b[k] != 0x3e,
    ensures
        find_gt(b, i) is None,
    decreases 7 - i,
{
    if i <= 6 && i < b.len() {
        lemma_find_gt_none(b, i + 1);
    }
}

proof fn lemma_find_gt_props(b: Seq<u8>, i: int)
    requires
        1 <= i <= 7,
        find_gt(b, i) is Some,
    ensures
        ({
            let j = find_gt(b, i)->Some_0;
            &&& i <= j <= 6
            &&& j < b.len()
            &&& b[j] == 0x3e
            &&& forall|k: int| i <= k < j ==> b[k] != 0x3e
        }),
    decreases 7 - i,
{
    if i <= 6 && i < b.len() && b[i] != 0x3e {
        lemma_find_gt_props(b, i + 1);
    }
}

/// For every priority value `p` up to 191, decoding a minimal message
/// `<p>rest` yields a record with `facility == p / 8` and
/// `severity == p % 8` — as long as the rest does not open with a
/// byte-order mark, which could still reject the datagram over its
/// encoding.
pub proof fn lemma_priority_encodes_facility_severity(p: u8, tok: Seq<u8>, rest: Seq<u8>)
    requires
        p <= 191,
        1 <= tok.len() <= 5,
        all_digit_bytes(tok),
        dec_value(tok) == p,
        !has_bom(rest),
    ensures
        ({
            let b = seq![0x3cu8] + tok + seq![0x3eu8] + rest;
            &&& spec_decode(b) matches SpecDecodeResult::Record(v)
            &&& spec_decode(b)->Record_0.facility == p / 8
            &&& spec_decode(b)->Record_0.severity == p % 8
        }),
{
    let b = seq![0x3cu8] + tok + seq![0x3eu8] + rest;
    let j = tok.len() as int + 1;
    assert(b[0] == 0x3c);
    assert(b[j] == 0x3e);
    assert forall|k: int| 1 <= k < j implies b[k] != 0x3e by {
        assert(b[k] == tok[k - 1]);
        assert(is_digit_byte(tok[k - 1]));
    }
    lemma_find_gt_some(b, 1, j);
    assert(b.subrange(1, j) =~= tok);
    assert(is_digit_byte(tok[0]));
    assert(priority_of_token(tok) == Some(p));
    assert(b.subrange(j + 1, b.len() as int) =~= rest);
}

/// Decoding a buffer that does not start with `<` always yields no
/// record.
pub proof fn lemma_missing_bracket_rejected(b: Seq<u8>)
    requires
        b.len() == 0 || b[0] != 0x3c,
    ensures
        spec_decode(b) == SpecDecodeResult::HeaderMalformed,
{
}

/// Decoding a buffer whose priority token holds a byte that is neither a
/// digit nor a plus sign always yields no record.  `j` is the index of
/// the closing `>`, `i` the offending byte's.
pub proof fn lemma_non_numeric_priority_rejected(b: Seq<u8>, j: int, i: int)
    requires
        find_gt(b, 1) == Some(j),
        1 <= i < j,
        !is_digit_byte(b[i]),
        b[i] != 0x2b,
    ensures
        spec_decode(b) == SpecDecodeResult::HeaderMalformed,
{
    lemma_find_gt_props(b, 1);
    let tok = b.subrange(1, j);
    assert(tok[i - 1] == b[i]);
    if tok.len() > 0 && tok[0] == 0x2b {
        let digits = tok.subrange(1, tok.len() as int);
        assert(i - 1 != 0);
        assert(digits[i - 2] == b[i]);
        assert(!all_digit_bytes(digits));
    } else {
        assert(!all_digit_bytes(tok));
    }
}

/// Decoding a buffer whose closing `>` does not appear within six bytes
/// of the opening `<` always yields no record.
pub proof fn lemma_unclosed_header_rejected(b: Seq<u8>)
    requires
        forall|k: int| 1 <= k <= 6 && k < b.len() ==> b[k] != 0x3e,
    ensures
        spec_decode(b) == SpecDecodeResult::HeaderMalformed,
{
    lemma_find_gt_none(b, 1);
}

/// Text without any space is taken whole as the message, with timestamp,
/// hostname and appname all absent.
pub proof fn lemma_no_space_all_message(priority: u8, text: Seq<char>)
    requires
        first_space(text, 0) is None,
    ensures
        ({
            let v = spec_record_from_text(priority, text);
            &&& v.message == text
            &&& v.timestamp is None
            &&& v.hostname is None
            &&& v.appname is None
        }),
{
}

/// When no second space follows the first, hostname and appname stay
/// absent and the message is everything from the first space onward —
/// that space included.
pub proof fn lemma_single_space_message_keeps_space(priority: u8, text: Seq<char>, p1: int)
    requires
        first_space(text, 0) == Some(p1),
        first_space(text, p1 + 1) is None,
    ensures
        ({
            let v = spec_record_from_text(priority, text);
            &&& v.message == text.subrange(p1, text.len() as int)
            &&& v.timestamp == spec_parse_timestamp(text.subrange(0, p1))
            &&& v.hostname is None
            &&& v.appname is None
        }),
{
}

/// When no third space follows the second, the hostname is still
/// extracted, the appname stays absent, and the message is everything
/// after the second space — this one not included.
pub proof fn lemma_two_spaces_message_after_second(priority: u8, text: Seq<char>, p1: int, p2: int)
    requires
        first_space(text, 0) == Some(p1),
        first_space(text, p1 + 1) == Some(p2),
        first_space(text, p2 + 1) is None,
    ensures
        ({
            let v = spec_record_from_text(priority, text);
            &&& v.message == text.subrange(p2 + 1, text.len() as int)
            &&& v.hostname == Some(text.subrange(p1 + 1, p2))
            &&& v.appname is None
        }),
{
}

/// Round trip of full tokenization: when the text holds all four
/// space-delimited tokens, the message is exactly the text after the
/// third space — nothing added, nothing removed — and hostname and
/// appname are exactly the text between the delimiters.
pub proof fn lemma_full_tokenization_round_trip(
    priority: u8,
    text: Seq<char>,
    p1: int,
    p2: int,
    p3: int,
)
    requires
        first_space(text, 0) == Some(p1),
        first_space(text, p1 + 1) == Some(p2),
        first_space(text, p2 + 1) == Some(p3),
    ensures
        ({
            let v = spec_record_from_text(priority, text);
            &&& v.message == text.subrange(p3 + 1, text.len() as int)
            &&& v.hostname == Some(text.subrange(p1 + 1, p2))
            &&& v.appname == Some(text.subrange(p2 + 1, p3))
            &&& v.timestamp == spec_parse_timestamp(text.subrange(0, p1))
        }),
{
}

/// In every record the tokenizer yields, `facility * 8 + severity`
/// reconstructs the priority value the header carried.
pub proof fn lemma_record_reconstructs_priority(priority: u8, text: Seq<char>)
    ensures
        ({
            let v = spec_record_from_text(priority, text);
            v.facility * 8 + v.severity == priority
        }),
{
}

} // verus!
