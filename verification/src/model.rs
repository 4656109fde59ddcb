//! The two persisted record types: the session (`test_cases` table) and
//! the packet record (`rtps` table), with their constructors.
//!
//! Identifiers and timestamps come from outside crates through trusted
//! wrappers: nothing is promised of a fresh identifier or of the clock's
//! value, and the session name is pinned only as a fixed rendering of the
//! session's own start instant.

use vstd::prelude::*;

use crate::rtp::RtpPacket;

verus! {

/// The textual timestamp that chrono renders in the `%+` (ISO 8601 /
/// RFC 3339) format for the instant that lies `micros` microseconds
/// after the Unix epoch. The instant has whole-microsecond precision,
/// so the rendering depends on `micros` alone.
pub uninterp spec fn session_name_of(micros: i64) -> Seq<char>;

/// Relies on uuid::Uuid::new_v4 (and Uuid::as_u128, which returns the
/// identifier's 128 bits). The identifier is random, so nothing is
/// promised of the value.
#[verifier::external_body]
fn fresh_id() -> (r: u128) {
    uuid::Uuid::new_v4().as_u128()
}

/// Relies on chrono::Utc::now, read once and truncated to whole
/// microseconds (DateTime::timestamp_micros); the truncated instant is
/// rebuilt (DateTime::from_timestamp_micros) and returned both as its
/// `%+` rendering (DateTime::format) and as the microsecond count. The
/// `%+` format picks its fractional digits from the instant's full
/// nanosecond value, so the rendering is a function of the microsecond
/// count only because the sub-microsecond part has been dropped first.
/// The clock's value is not predictable, so only that tie is stated.
/// The microsecond count of a representable instant is itself in range
/// for from_timestamp_micros, so the unwrap cannot fail.
#[verifier::external_body]
fn session_stamp() -> (r: (String, i64))
    ensures
        r.0@ == session_name_of(r.1),
{
    let micros = chrono::Utc::now().timestamp_micros();
    let instant = chrono::DateTime::from_timestamp_micros(micros).unwrap();
    (instant.format("%+").to_string(), micros)
}

/// Relies on chrono::Utc::now and DateTime::timestamp_micros. The clock's
/// value is not predictable, so nothing is promised.
#[verifier::external_body]
fn now_micros() -> (r: i64) {
    chrono::Utc::now().timestamp_micros()
}

/// One capture session: the `test_cases` table row, created once per run
/// when the store sink is active.
pub struct TestCase {
    pub id: u128,
    pub name: String,
    pub inserted_at: i64,
    pub updated_at: i64,
}

impl TestCase {
    /// Creates the session record for a run starting now: a fresh
    /// identifier, equal audit timestamps, and a name that is the fixed
    /// textual rendering of the session's start instant.
    pub fn create() -> (t: TestCase)
        ensures
            t.inserted_at == t.updated_at,
            t.name@ == session_name_of(t.inserted_at),
    {
        let (name, micros) = session_stamp();
        TestCase { id: fresh_id(), name, inserted_at: micros, updated_at: micros }
    }
}

/// One accepted packet: the `rtps` table row. Header fields are the
/// decoded RTP header; `serial` numbers accepted packets from 0 within
/// the session; `received_at` is the sub-second microsecond offset at
/// which the datagram arrived.
pub struct RTP {
    pub id: u128,
    pub serial: i64,
    pub test_case_id: u128,
    pub version: u8,
    pub padding: bool,
    pub extension: bool,
    pub csrc_count: u8,
    pub marker: bool,
    pub payload_type: u8,
    pub timestamp: u32,
    pub ssrc: u32,
    pub payload: Vec<u8>,
    pub received_at: i32,
    pub inserted_at: i64,
    pub updated_at: i64,
}

impl RTP {
    /// Builds the record for one accepted, decoded datagram: a fresh
    /// identifier, the given serial and session reference, every header
    /// field and the payload taken from the decoded packet, and equal
    /// audit timestamps.
    pub fn from_packet(serial: i64, test_case_id: u128, p: RtpPacket, received_at: i32) -> (r: RTP)
        ensures
            r.serial == serial,
            r.test_case_id == test_case_id,
            r.version == p.version,
            r.padding == p.padding,
            r.extension == p.extension,
            r.csrc_count == p.csrc_count,
            r.marker == p.marker,
            r.payload_type == p.payload_type,
            r.timestamp == p.timestamp,
            r.ssrc == p.ssrc,
            r.payload@ == p.payload@,
            r.received_at == received_at,
            r.inserted_at == r.updated_at,
    {
        let now = now_micros();
        RTP {
            id: fresh_id(),
            serial,
            test_case_id,
            version: p.version,
            padding: p.padding,
            extension: p.extension,
            csrc_count: p.csrc_count,
            marker: p.marker,
            payload_type: p.payload_type,
            timestamp: p.timestamp,
            ssrc: p.ssrc,
            payload: p.payload,
            received_at,
            inserted_at: now,
            updated_at: now,
        }
    }
}

} // verus!
