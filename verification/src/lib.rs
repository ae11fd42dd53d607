//! A tolerant decoder for syslog datagrams sent by network devices whose
//! messages follow the RFC 3164 / RFC 5424 conventions only loosely.
//!
//! The decoder turns a raw byte buffer into a structured record: priority
//! header (facility and severity), then an optional timestamp, hostname and
//! application name, with everything that cannot be tokenized folded into
//! the message field.  Only a malformed priority header or a violated
//! byte-order-mark promise rejects a datagram; every other irregularity
//! degrades to an absent field.

use vstd::prelude::*;

pub mod decoder;
pub mod encoding;
pub mod laws;
pub mod record;
pub mod timestamp;

verus! {

/// Ceiling on the size of a datagram handed to the decoder; syslog over UDP
/// traditionally stays well below this.
pub const MAX_DATAGRAM_LEN: usize = 1024;

} // verus!
