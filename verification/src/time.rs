//! Calendar timestamps as they appear inside file-information records:
//! plain fields with the fixed 16-byte firmware layout.

use vstd::bytes::{
    spec_u16_from_le_bytes, spec_u16_to_le_bytes, spec_u32_from_le_bytes, spec_u32_to_le_bytes,
};
use vstd::prelude::*;

use crate::layout::{read_u16_at, read_u32_at, read_u8_at, write_u16_at, write_u32_at, write_u8_at};

verus! {

/// Daylight-saving flags, stored as a raw bit mask.
#[derive(Clone, Copy, Debug, PartialEq, Eq, Structural)]
pub struct Daylight {
    /// The raw flag bits.
    pub bits: u8,
}

impl Daylight {
    /// Flags from a raw bit mask.
    pub fn from_bits(bits: u8) -> (r: Daylight)
        ensures
            r.bits == bits,
    {
        Daylight { bits }
    }

    /// The "time should be adjusted for daylight saving" flag.
    pub fn adjust_daylight() -> (r: Daylight)
        ensures
            r.bits == 1u8,
    {
        Daylight { bits: 1 }
    }

    /// The "time is currently in daylight saving" flag.
    pub fn in_daylight() -> (r: Daylight)
        ensures
            r.bits == 2u8,
    {
        Daylight { bits: 2 }
    }
}

/// A calendar timestamp with nanosecond precision and a time-zone offset in
/// minutes.
#[derive(Clone, Copy, Debug, PartialEq, Eq, Structural)]
pub struct Time {
    /// Calendar year.
    pub year: u16,
    /// Month, 1 through 12.
    pub month: u8,
    /// Day of the month, 1 through 31.
    pub day: u8,
    /// Hour, 0 through 23.
    pub hour: u8,
    /// Minute, 0 through 59.
    pub minute: u8,
    /// Second, 0 through 59.
    pub second: u8,
    /// Nanosecond, 0 through 999_999_999.
    pub nanosecond: u32,
    /// Offset from universal time in minutes, or an unspecified marker.
    pub time_zone: i16,
    /// Daylight-saving flags.
    pub daylight: Daylight,
}

impl Time {
    /// A timestamp from its parts.
    pub fn new(
        year: u16,
        month: u8,
        day: u8,
        hour: u8,
        minute: u8,
        second: u8,
        nanosecond: u32,
        time_zone: i16,
        daylight: Daylight,
    ) -> (r: Time)
        ensures
            r == (Time { year, month, day, hour, minute, second, nanosecond, time_zone, daylight }),
    {
        Time { year, month, day, hour, minute, second, nanosecond, time_zone, daylight }
    }
}

/// The fixed 16-byte layout of a timestamp: year, month, day, hour, minute,
/// second, one padding byte, nanosecond, time zone, daylight flags, one
/// padding byte; multi-byte fields little-endian.
pub open spec fn time_le_bytes(t: Time) -> Seq<u8> {
    spec_u16_to_le_bytes(t.year) + seq![t.month, t.day, t.hour, t.minute, t.second, 0u8]
        + spec_u32_to_le_bytes(t.nanosecond) + spec_u16_to_le_bytes(t.time_zone as u16) + seq![
        t.daylight.bits,
        0u8,
    ]
}

/// The timestamp read back from the first 16 bytes of `b`, ignoring the
/// padding bytes.
pub open spec fn time_from_bytes(b: Seq<u8>) -> Time {
    Time {
        year: spec_u16_from_le_bytes(b.subrange(0, 2)),
        month: b[2],
        day: b[3],
        hour: b[4],
        minute: b[5],
        second: b[6],
        nanosecond: spec_u32_from_le_bytes(b.subrange(8, 12)),
        time_zone: spec_u16_from_le_bytes(b.subrange(12, 14)) as i16,
        daylight: Daylight { bits: b[14] },
    }
}

/// The timestamp layout is 16 bytes long and reading it back restores
/// every field.
pub proof fn lemma_time_bytes_round_trip(t: Time)
    ensures
        time_le_bytes(t).len() == 16,
        time_from_bytes(time_le_bytes(t)) == t,
{
    vstd::bytes::lemma_auto_spec_u16_to_from_le_bytes();
    vstd::bytes::lemma_auto_spec_u32_to_from_le_bytes();
    let b = time_le_bytes(t);
    assert(b.subrange(0, 2) =~= spec_u16_to_le_bytes(t.year));
    assert(b.subrange(8, 12) =~= spec_u32_to_le_bytes(t.nanosecond));
    assert(b.subrange(12, 14) =~= spec_u16_to_le_bytes(t.time_zone as u16));
    let tz = t.time_zone;
    assert((tz as u16) as i16 == tz) by (bit_vector);
}

/// Writes the 16-byte timestamp layout at `at`.
#[verifier::rlimit(60)]
pub fn write_time_at(buf: &mut Vec<u8>, at: usize, t: &Time)
    requires
        at + 16 <= old(buf)@.len(),
    ensures
        final(buf)@ == old(buf)@.take(at as int) + time_le_bytes(*t) + old(buf)@.skip(
            at as int + 16,
        ),
{
    proof {
        vstd::std_specs::vec::axiom_spec_len(&*buf);
        vstd::bytes::lemma_auto_spec_u16_to_from_le_bytes();
        vstd::bytes::lemma_auto_spec_u32_to_from_le_bytes();
    }
    let ghost b0 = buf@;
    let ghost a = at as int;
    write_u16_at(buf, at, t.year);
    let ghost p1 = spec_u16_to_le_bytes(t.year);
    proof {
        assert(buf@ =~= b0.take(a) + p1 + b0.skip(a + 2));
    }
    write_u8_at(buf, at + 2, t.month);
    write_u8_at(buf, at + 3, t.day);
    write_u8_at(buf, at + 4, t.hour);
    write_u8_at(buf, at + 5, t.minute);
    write_u8_at(buf, at + 6, t.second);
    write_u8_at(buf, at + 7, 0);
    let ghost p2 = p1 + seq![t.month, t.day, t.hour, t.minute, t.second, 0u8];
    proof {
        assert(buf@ =~= b0.take(a) + p2 + b0.skip(a + 8));
    }
    write_u32_at(buf, at + 8, t.nanosecond);
    let ghost p3 = p2 + spec_u32_to_le_bytes(t.nanosecond);
    proof {
        assert(buf@ =~= b0.take(a) + p3 + b0.skip(a + 12));
    }
    write_u16_at(buf, at + 12, #[verifier::truncate] (t.time_zone as u16));
    write_u8_at(buf, at + 14, t.daylight.bits);
    write_u8_at(buf, at + 15, 0);
    proof {
        assert(buf@ =~= b0.take(a) + time_le_bytes(*t) + b0.skip(a + 16));
    }
}

/// Reads the 16-byte timestamp layout at `at`.
pub fn read_time_at(buf: &Vec<u8>, at: usize) -> (r: Time)
    requires
        at + 16 <= buf@.len(),
    ensures
        r == time_from_bytes(buf@.subrange(at as int, at as int + 16)),
{
    proof {
        vstd::std_specs::vec::axiom_spec_len(buf);
    }
    let ghost b = buf@.subrange(at as int, at as int + 16);
    let year = read_u16_at(buf, at);
    let month = read_u8_at(buf, at + 2);
    let day = read_u8_at(buf, at + 3);
    let hour = read_u8_at(buf, at + 4);
    let minute = read_u8_at(buf, at + 5);
    let second = read_u8_at(buf, at + 6);
    let nanosecond = read_u32_at(buf, at + 8);
    let tz_raw = read_u16_at(buf, at + 12);
    let time_zone = #[verifier::truncate] (tz_raw as i16);
    let daylight = Daylight { bits: read_u8_at(buf, at + 14) };
    proof {
        assert(buf@.subrange(at as int, at as int + 2) =~= b.subrange(0, 2));
        assert(buf@.subrange(at as int + 8, at as int + 12) =~= b.subrange(8, 12));
        assert(buf@.subrange(at as int + 12, at as int + 14) =~= b.subrange(12, 14));
        assert(buf@[at as int + 2] == b[2]);
        assert(buf@[at as int + 3] == b[3]);
        assert(buf@[at as int + 4] == b[4]);
        assert(buf@[at as int + 5] == b[5]);
        assert(buf@[at as int + 6] == b[6]);
        assert(buf@[at as int + 14] == b[14]);
    }
    Time { year, month, day, hour, minute, second, nanosecond, time_zone, daylight }
}

} // verus!
