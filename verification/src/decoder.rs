//! The tolerant syslog decoder: priority header first, then progressive
//! whitespace tokenization of the normalized text.
//!
//! Only two conditions reject a datagram: a malformed priority header and
//! a violated byte-order-mark promise.  Tokenization never fails; each
//! missing delimiter merely stops field extraction and folds the rest of
//! the text into the message.

use vstd::prelude::*;

use vstd::slice::slice_subrange;
use vstd::utf8::valid_utf8;

use crate::encoding::normalize;
use crate::encoding::spec_normalize_ok;
use crate::encoding::spec_normalized;
use crate::record::DecodeError;
use crate::record::SyslogRecord;
use crate::record::SyslogRecordView;
use crate::timestamp::parse_timestamp;
use crate::timestamp::spec_parse_timestamp;

verus! {

/// `b` is an ASCII decimal digit.
pub open spec fn is_digit_byte(b: u8) -> bool {
    0x30 <= b <= 0x39
}

/// Every byte of `s` is an ASCII decimal digit.
pub open spec fn all_digit_bytes(s: Seq<u8>) -> bool {
    forall|i: int| 0 <= i < s.len() ==> is_digit_byte(#[trigger] s[i])
}

/// The number spelled by the digit string `s`, most significant first.
pub open spec fn dec_value(s: Seq<u8>) -> int
    decreases s.len(),
{
    if s.len() == 0 {
        0
    } else {
        10 * dec_value(s.drop_last()) + (s.last() - 0x30)
    }
}

/// Ten to the `n`th power.
pub open spec fn pow10(n: nat) -> int
    decreases n,
{
    if n == 0 {
        1
    } else {
        10 * pow10((n - 1) as nat)
    }
}

proof fn lemma_pow10_mono(a: nat, b: nat)
    requires
        a <= b,
    ensures
        1 <= pow10(a) <= pow10(b),
    decreases b,
{
    if b > 0 {
        lemma_pow10_mono(if a == b {
            0
        } else {
            a
        }, (b - 1) as nat);
    }
}

/// The priority value spelled by the token between `<` and `>`: an
/// optional plus sign, then at least one digit, with a value that fits in
/// a byte — exactly the strings that parse as a `u8`.
pub open spec fn priority_of_token(tok: Seq<u8>) -> Option<u8> {
    let digits = if tok.len() > 0 && tok[0] == 0x2b {
        tok.subrange(1, tok.len() as int)
    } else {
        tok
    };
    if digits.len() > 0 && all_digit_bytes(digits) && dec_value(digits) <= 255 {
        Some(dec_value(digits) as u8)
    } else {
        None
    }
}

/// Parses the priority token.  The header scan bounds the token to five
/// bytes, which keeps the accumulator far from overflow.
fn parse_priority_token(tok: &[u8]) -> (r: Option<u8>)
    requires
        tok@.len() <= 5,
    ensures
        r == priority_of_token(tok@),
{
    let n = tok.len();
    let start: usize = if n > 0 && tok[0] == 0x2b {
        1
    } else {
        0
    };
    let ghost digits = if start == 1 {
        tok@.subrange(1, tok@.len() as int)
    } else {
        tok@
    };
    if n == start {
        return None;
    }
    let mut acc: u32 = 0;
    let mut i: usize = start;
    while i < n
        invariant
            start <= i <= n,
            n == tok@.len(),
            n <= 5,
            start <= 1,
            (start == 1) == (tok@.len() > 0 && tok@[0] == 0x2b),
            digits == (if start == 1 {
                tok@.subrange(1, tok@.len() as int)
            } else {
                tok@
            }),
            all_digit_bytes(digits.subrange(0, i - start)),
            acc == dec_value(digits.subrange(0, i - start)),
            0 <= acc < pow10((i - start) as nat),
        decreases n - i,
    {
        let b = tok[i];
        if b < 48 || b > 57 {
            proof {
                assert(digits[i - start] == b);
                assert(!all_digit_bytes(digits));
            }
            return None;
        }
        proof {
            lemma_pow10_mono((i - start) as nat, 4);
            reveal_with_fuel(pow10, 5);
            assert(pow10(4) == 10000);
            let k = i - start;
            let prefix = digits.subrange(0, k + 1);
            assert(prefix.drop_last() =~= digits.subrange(0, k));
            assert(prefix.last() == digits[k]);
            assert(pow10((k + 1) as nat) == 10 * pow10(k as nat));
        }
        acc = acc * 10 + (b - 48) as u32;
        i += 1;
    }
    proof {
        assert(digits.subrange(0, n - start) =~= digits);
    }
    if acc > 255 {
        return None;
    }
    Some(acc as u8)
}

/// Index of the byte that closes the priority header: the first `>` no
/// further than six bytes past the opening `<`.
pub open spec fn find_gt(b: Seq<u8>, i: int) -> Option<int>
    decreases 7 - i when 1 <= i <= 7
{
    if i > 6 || i >= b.len() {
        None
    } else if b[i] == 0x3e {
        Some(i)
    } else {
        find_gt(b, i + 1)
    }
}

fn find_gt_exec(buf: &[u8]) -> (r: Option<usize>)
    requires
        buf@.len() >= 1,
    ensures
        match r {
            Some(j) => {
                &&& 1 <= j <= 6
                &&& j < buf@.len()
                &&& buf@[j as int] == 0x3e
                &&& find_gt(buf@, 1) == Some(j as int)
            },
            None => find_gt(buf@, 1) is None,
        },
{
    let mut i: usize = 1;
    while i <= 6 && i < buf.len()
        invariant
            1 <= i <= 7,
            find_gt(buf@, 1) == find_gt(buf@, i as int),
        decreases 7 - i,
    {
        if buf[i] == 0x3e {
            return Some(i);
        }
        i += 1;
    }
    None
}

/// Index of the first space of `s` at or after `from`, if any.
pub open spec fn first_space(s: Seq<char>, from: int) -> Option<int>
    decreases s.len() - from when 0 <= from <= s.len()
{
    if from >= s.len() {
        None
    } else if s[from] == ' ' {
        Some(from)
    } else {
        first_space(s, from + 1)
    }
}

fn find_space(s: &str, from: usize) -> (r: Option<usize>)
    requires
        from <= s@.len() <= usize::MAX,
    ensures
        match r {
            Some(j) => {
                &&& from <= j < s@.len()
                &&& s@[j as int] == ' '
                &&& first_space(s@, from as int) == Some(j as int)
            },
            None => first_space(s@, from as int) is None,
        },
{
    let n = s.unicode_len();
    let mut i: usize = from;
    while i < n
        invariant
            from <= i <= n,
            n == s@.len(),
            first_space(s@, from as int) == first_space(s@, i as int),
        decreases n - i,
    {
        if s.get_char(i) == ' ' {
            return Some(i);
        }
        i += 1;
    }
    None
}

/// The record that the progressive tokenization of `text` yields under
/// the given priority.  Each missing space stops extraction: no space at
/// all leaves the whole text as the message; no second space folds
/// everything from the first space on (space included) into the message;
/// no third space folds everything after the second space into it.
pub open spec fn spec_record_from_text(priority: u8, text: Seq<char>) -> SyslogRecordView {
    let facility = (priority as int / 8) as u8;
    let severity = (priority as int % 8) as u8;
    match first_space(text, 0) {
        None => SyslogRecordView {
            facility,
            severity,
            timestamp: None,
            hostname: None,
            appname: None,
            message: text,
        },
        Some(p1) => {
            let timestamp = spec_parse_timestamp(text.subrange(0, p1));
            match first_space(text, p1 + 1) {
                None => SyslogRecordView {
                    facility,
                    severity,
                    timestamp,
                    hostname: None,
                    appname: None,
                    message: text.subrange(p1, text.len() as int),
                },
                Some(p2) => {
                    let hostname = Some(text.subrange(p1 + 1, p2));
                    match first_space(text, p2 + 1) {
                        None => SyslogRecordView {
                            facility,
                            severity,
                            timestamp,
                            hostname,
                            appname: None,
                            message: text.subrange(p2 + 1, text.len() as int),
                        },
                        Some(p3) => SyslogRecordView {
                            facility,
                            severity,
                            timestamp,
                            hostname,
                            appname: Some(text.subrange(p2 + 1, p3)),
                            message: text.subrange(p3 + 1, text.len() as int),
                        },
                    }
                },
            }
        },
    }
}

/// Tokenizes normalized text into a record under the given priority.
/// This is the whole decoder past the header and the encoding step, and
/// it never fails.
pub fn record_from_text(priority: u8, text: String) -> (r: SyslogRecord)
    ensures
        r@ == spec_record_from_text(priority, text@),
        r@.wf(),
{
    let facility = priority / 8;
    let severity = priority % 8;
    let st = text.as_str();
    let n = st.unicode_len();
    let p1 = match find_space(st, 0) {
        None => {
            return SyslogRecord {
                facility,
                severity,
                timestamp: None,
                hostname: None,
                appname: None,
                message: text,
            };
        },
        Some(j) => j,
    };
    let timestamp = parse_timestamp(st.substring_char(0, p1));
    let p2 = match find_space(st, p1 + 1) {
        None => {
            return SyslogRecord {
                facility,
                severity,
                timestamp,
                hostname: None,
                appname: None,
                message: st.substring_char(p1, n).to_owned(),
            };
        },
        Some(j) => j,
    };
    let hostname = Some(st.substring_char(p1 + 1, p2).to_owned());
    let p3 = match find_space(st, p2 + 1) {
        None => {
            return SyslogRecord {
                facility,
                severity,
                timestamp,
                hostname,
                appname: None,
                message: st.substring_char(p2 + 1, n).to_owned(),
            };
        },
        Some(j) => j,
    };
    let appname = Some(st.substring_char(p2 + 1, p3).to_owned());
    SyslogRecord {
        facility,
        severity,
        timestamp,
        hostname,
        appname,
        message: st.substring_char(p3 + 1, n).to_owned(),
    }
}

/// What the priority header of `b` yields: the priority value and the
/// index where the content starts.  `None` is a malformed header: no
/// leading `<`, no `>` within six bytes of it, or a token that is not a
/// number.
pub open spec fn spec_header(b: Seq<u8>) -> Option<(u8, int)> {
    if b.len() == 0 || b[0] != 0x3c {
        None
    } else {
        match find_gt(b, 1) {
            None => None,
            Some(j) => match priority_of_token(b.subrange(1, j)) {
                None => None,
                Some(p) => Some((p, j + 1)),
            },
        }
    }
}

/// The decoder's verdict on a buffer, at the level of the mathematical
/// model: rejected over the header, rejected over the encoding, or a
/// record.
pub ghost enum SpecDecodeResult {
    HeaderMalformed,
    EncodingViolation,
    Record(SyslogRecordView),
}

/// What decoding `b` yields.
pub open spec fn spec_decode(b: Seq<u8>) -> SpecDecodeResult {
    match spec_header(b) {
        None => SpecDecodeResult::HeaderMalformed,
        Some((p, start)) => {
            let body = b.subrange(start, b.len() as int);
            if !spec_normalize_ok(body) {
                SpecDecodeResult::EncodingViolation
            } else {
                SpecDecodeResult::Record(spec_record_from_text(p, spec_normalized(body)))
            }
        },
    }
}

/// The reported offset of an encoding violation is sound: the content
/// after the byte-order mark was still valid UTF-8 for that many bytes,
/// and went wrong before its end.
pub open spec fn encoding_violation_offset_ok(b: Seq<u8>, valid_up_to: usize) -> bool {
    match spec_header(b) {
        None => false,
        Some((p, start)) => {
            let body = b.subrange(start, b.len() as int);
            let rest = body.subrange(3, body.len() as int);
            &&& valid_up_to < rest.len()
            &&& valid_utf8(rest.subrange(0, valid_up_to as int))
        },
    }
}

/// Decodes one datagram.
///
/// The result follows [`spec_decode`] on the buffer's bytes: a malformed
/// priority header or a byte-order-mark promise that the content breaks
/// rejects the datagram, and everything else yields a record.
pub fn decode(buf: &[u8]) -> (r: Result<SyslogRecord, DecodeError>)
    ensures
        match spec_decode(buf@) {
            SpecDecodeResult::HeaderMalformed => r == Err::<SyslogRecord, DecodeError>(
                DecodeError::HeaderMalformed,
            ),
            SpecDecodeResult::EncodingViolation => r matches Err(e) && (e matches
                DecodeError::EncodingViolation { valid_up_to } && encoding_violation_offset_ok(
                buf@,
                valid_up_to,
            )),
            SpecDecodeResult::Record(v) => r matches Ok(rec) && rec@ == v && v.wf(),
        },
{
    if buf.len() == 0 {
        return Err(DecodeError::HeaderMalformed);
    }
    if buf[0] != 0x3c {
        return Err(DecodeError::HeaderMalformed);
    }
    let j = match find_gt_exec(buf) {
        None => {
            return Err(DecodeError::HeaderMalformed);
        },
        Some(j) => j,
    };
    let tok = slice_subrange(buf, 1, j);
    let priority = match parse_priority_token(tok) {
        None => {
            return Err(DecodeError::HeaderMalformed);
        },
        Some(p) => p,
    };
    let body = slice_subrange(buf, j + 1, buf.len());
    match normalize(body) {
        Err(off) => Err(DecodeError::EncodingViolation { valid_up_to: off }),
        Ok(text) => Ok(record_from_text(priority, text)),
    }
}

} // verus!
