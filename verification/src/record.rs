//! The structured record produced by the decoder, and the errors that
//! reject a datagram outright.

use vstd::prelude::*;

verus! {

/// A civil date and time with a fixed offset from UTC, as carried by the
/// compact `YYYYMMDDTHHMMSS[+-HHMM]` timestamps these devices emit.
#[derive(Clone, Copy, Debug, PartialEq, Eq, Structural)]
pub struct Timestamp {
    pub year: u16,
    pub month: u8,
    pub day: u8,
    pub hour: u8,
    pub minute: u8,
    pub second: u8,
    /// Offset from UTC in minutes, negative west of Greenwich.
    pub offset_minutes: i16,
}

/// Proleptic Gregorian leap-year rule.
pub open spec fn is_leap_year(year: int) -> bool {
    year % 4 == 0 && (year % 100 != 0 || year % 400 == 0)
}

/// Number of days in the given month of the given year.
pub open spec fn days_in_month(year: int, month: int) -> int {
    if month == 2 {
        if is_leap_year(year) {
            29
        } else {
            28
        }
    } else if month == 4 || month == 6 || month == 9 || month == 11 {
        30
    } else {
        31
    }
}

impl Timestamp {
    /// The timestamp denotes a real calendar date and time of day, and an
    /// offset strictly between -24 and +24 hours.
    pub open spec fn wf(self) -> bool {
        &&& self.year <= 9999
        &&& 1 <= self.month <= 12
        &&& 1 <= self.day <= days_in_month(self.year as int, self.month as int)
        &&& self.hour <= 23
        &&& self.minute <= 59
        &&& self.second <= 59
        &&& -1439 <= self.offset_minutes <= 1439
    }
}

/// Why a datagram was rejected as a whole.  Anything milder than these two
/// conditions leaves a field absent instead of rejecting the datagram.
#[derive(Clone, Copy, Debug, PartialEq, Eq, Structural)]
pub enum DecodeError {
    /// The buffer does not start with `<`, no `>` closes the priority
    /// header within bound, or the priority token is not a number.
    HeaderMalformed,
    /// The content opened with a UTF-8 byte-order mark, promising valid
    /// UTF-8, but the rest was not.  `valid_up_to` is the number of bytes
    /// after the mark that were still decoded successfully.
    EncodingViolation { valid_up_to: usize },
}

/// The mathematical content of a [`SyslogRecord`]: text fields are viewed
/// as character sequences.
pub ghost struct SyslogRecordView {
    pub facility: u8,
    pub severity: u8,
    pub timestamp: Option<Timestamp>,
    pub hostname: Option<Seq<char>>,
    pub appname: Option<Seq<char>>,
    pub message: Seq<char>,
}

/// One decoded syslog datagram.  The header always yields `facility` and
/// `severity`; the remaining fields are populated as far as tokenization
/// reached before a delimiter went missing.
#[derive(Debug)]
pub struct SyslogRecord {
    pub facility: u8,
    pub severity: u8,
    pub timestamp: Option<Timestamp>,
    pub hostname: Option<String>,
    pub appname: Option<String>,
    pub message: String,
}

impl View for SyslogRecord {
    type V = SyslogRecordView;

    open spec fn view(&self) -> SyslogRecordView {
        SyslogRecordView {
            facility: self.facility,
            severity: self.severity,
            timestamp: self.timestamp,
            hostname: match self.hostname {
                Some(h) => Some(h@),
                None => None,
            },
            appname: match self.appname {
                Some(a) => Some(a@),
                None => None,
            },
            message: self.message@,
        }
    }
}

impl SyslogRecordView {
    /// Facility and severity fit their RFC ranges and any timestamp is a
    /// real date and time; `facility * 8 + severity` then reconstructs the
    /// priority value of the header.
    pub open spec fn wf(self) -> bool {
        &&& self.facility <= 31
        &&& self.severity <= 7
        &&& match self.timestamp {
            Some(t) => t.wf(),
            None => true,
        }
    }
}

impl SyslogRecord {
    /// The priority value the header carried, reassembled from facility
    /// and severity.
    pub fn priority(&self) -> (p: u8)
        requires
            self@.wf(),
        ensures
            p == self@.facility * 8 + self@.severity,
    {
        self.facility * 8 + self.severity
    }
}

} // verus!
