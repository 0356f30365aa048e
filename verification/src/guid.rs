//! The 128-bit identifiers that the surrounding firmware interface
//! attaches to record-header types, and their canonical text form.

use vstd::prelude::*;
use vstd::string::StrSliceExecFns;

verus! {

/// A 128-bit identifier, split as the canonical text form writes it: one
/// 32-bit group, three 16-bit groups, and one 48-bit node group.
#[derive(Clone, Copy, Debug, PartialEq, Eq, Structural)]
pub struct Guid {
    /// First group, 32 bits.
    pub time_low: u32,
    /// Second group, 16 bits.
    pub time_mid: u16,
    /// Third group, 16 bits.
    pub time_high_and_version: u16,
    /// Fourth group, 16 bits.
    pub clock_seq_and_variant: u16,
    /// Fifth group, 48 bits.
    pub node: u64,
}

impl Guid {
    /// An identifier from its five groups.
    pub fn from_values(
        time_low: u32,
        time_mid: u16,
        time_high_and_version: u16,
        clock_seq_and_variant: u16,
        node: u64,
    ) -> (r: Guid)
        ensures
            r == (Guid { time_low, time_mid, time_high_and_version, clock_seq_and_variant, node }),
    {
        Guid { time_low, time_mid, time_high_and_version, clock_seq_and_variant, node }
    }
}

/// A type paired with a fixed 128-bit identifier. Uniqueness of the
/// pairing across types is a convention of the surrounding interface, not
/// enforced here.
pub trait Identify {
    /// The identifier paired with this type.
    spec fn guid_spec() -> Guid;

    /// The identifier, as a value.
    fn guid() -> (g: Guid)
        ensures
            g == Self::guid_spec(),
    ;
}

/// Errors of [`parse_guid`].
#[derive(Clone, Copy, Debug, Eq, PartialEq)]
pub enum GuidParseError {
    /// The text is not 36 characters long.
    NotCanonicalLength(usize),
    /// The group starting at the carried character offset is malformed: a
    /// separator stands misplaced or a character is not a hexadecimal
    /// digit.
    BadGroup(usize),
}

/// The numeric value of a hexadecimal digit character; 16 marks a
/// non-digit.
pub open spec fn hex_digit_value(c: char) -> int {
    if '0' <= c && c <= '9' {
        (c as int) - ('0' as int)
    } else if 'a' <= c && c <= 'f' {
        (c as int) - ('a' as int) + 10
    } else if 'A' <= c && c <= 'F' {
        (c as int) - ('A' as int) + 10
    } else {
        16
    }
}

/// Truth that every character of `s` is a hexadecimal digit.
pub open spec fn all_hex(s: Seq<char>) -> bool {
    forall|i: int| 0 <= i < s.len() ==> hex_digit_value(s[i]) < 16
}

/// The value of `s` read as a big-endian hexadecimal numeral.
pub open spec fn hex_value(s: Seq<char>) -> int
    decreases s.len(),
{
    if s.len() == 0 {
        0
    } else {
        hex_value(s.drop_last()) * 16 + hex_digit_value(s.last())
    }
}

/// Truth that `s` is a canonical identifier string: 36 characters, with
/// separators exactly at the four canonical positions and hexadecimal
/// digits everywhere else.
pub open spec fn is_canonical_guid(s: Seq<char>) -> bool {
    &&& s.len() == 36
    &&& s[8] == '-' && s[13] == '-' && s[18] == '-' && s[23] == '-'
    &&& all_hex(s.subrange(0, 8))
    &&& all_hex(s.subrange(9, 13))
    &&& all_hex(s.subrange(14, 18))
    &&& all_hex(s.subrange(19, 23))
    &&& all_hex(s.subrange(24, 36))
}

/// The identifier a canonical string denotes.
pub open spec fn guid_of(s: Seq<char>) -> Guid {
    Guid {
        time_low: hex_value(s.subrange(0, 8)) as u32,
        time_mid: hex_value(s.subrange(9, 13)) as u16,
        time_high_and_version: hex_value(s.subrange(14, 18)) as u16,
        clock_seq_and_variant: hex_value(s.subrange(19, 23)) as u16,
        node: hex_value(s.subrange(24, 36)) as u64,
    }
}

/// The numeric value of one hexadecimal digit character.
fn hex_digit(c: char) -> (r: u8)
    ensures
        r as int == if hex_digit_value(c) < 16 {
            hex_digit_value(c)
        } else {
            16
        },
{
    let v = c as u32;
    if c >= '0' && c <= '9' {
        (v - 48) as u8
    } else if c >= 'a' && c <= 'f' {
        (v - 97 + 10) as u8
    } else if c >= 'A' && c <= 'F' {
        (v - 65 + 10) as u8
    } else {
        16
    }
}

/// A numeral's value is bounded by sixteen to the power of its length.
proof fn lemma_hex_value_bound(s: Seq<char>)
    requires
        all_hex(s),
    ensures
        0 <= hex_value(s) < pow16(s.len() as int),
    decreases s.len(),
{
    if s.len() > 0 {
        assert(all_hex(s.drop_last())) by {
            assert(forall|i: int|
                0 <= i < s.len() - 1 ==> hex_digit_value(s.drop_last()[i]) == hex_digit_value(
                    s[i],
                ));
        }
        lemma_hex_value_bound(s.drop_last());
        assert(hex_digit_value(s.last()) < 16);
    }
}

/// The powers of sixteen this parser needs, as numerals.
proof fn lemma_pow16_values()
    ensures
        pow16(4) == 0x1_0000,
        pow16(8) == 0x1_0000_0000,
        pow16(11) == 0x1000_0000_0000,
        pow16(12) == 0x1_0000_0000_0000,
{
    assert(pow16(0) == 1);
    assert(pow16(1) == 16);
    assert(pow16(2) == 0x100);
    assert(pow16(3) == 0x1000);
    assert(pow16(4) == 0x1_0000);
    assert(pow16(5) == 0x10_0000);
    assert(pow16(6) == 0x100_0000);
    assert(pow16(7) == 0x1000_0000);
    assert(pow16(8) == 0x1_0000_0000);
    assert(pow16(9) == 0x10_0000_0000);
    assert(pow16(10) == 0x100_0000_0000);
    assert(pow16(11) == 0x1000_0000_0000);
    assert(pow16(12) == 0x1_0000_0000_0000);
}

/// Sixteen to the power `n`.
pub open spec fn pow16(n: int) -> int
    decreases n,
{
    if n <= 0 {
        1
    } else {
        16 * pow16(n - 1)
    }
}

/// Parses the hexadecimal group of `s` at `[from, to)`, accumulating left
/// to right.
fn parse_hex_group(s: &str, from: usize, to: usize) -> (r: Option<u64>)
    requires
        from <= to <= s@.len(),
        to - from <= 12,
    ensures
        match r {
            Some(v) => all_hex(s@.subrange(from as int, to as int)) && v as int == hex_value(
                s@.subrange(from as int, to as int),
            ),
            None => !all_hex(s@.subrange(from as int, to as int)),
        },
{
    let ghost g = s@.subrange(from as int, to as int);
    let mut acc: u64 = 0;
    let mut i: usize = from;
    while i < to
        invariant
            from <= i <= to <= s@.len(),
            to - from <= 12,
            g == s@.subrange(from as int, to as int),
            all_hex(g.subrange(0, i - from)),
            acc as int == hex_value(g.subrange(0, i - from)),
        decreases to - i,
    {
        let c = s.get_char(i);
        let d = hex_digit(c);
        if d >= 16 {
            proof {
                assert(g[i - from] == c);
            }
            return None;
        }
        proof {
            lemma_hex_value_bound(g.subrange(0, i - from));
            lemma_pow16_increases(i - from, 11);
            lemma_pow16_values();
            assert(g.subrange(0, i - from + 1).drop_last() =~= g.subrange(0, i - from));
            assert(g.subrange(0, i - from + 1).last() == c);
        }
        acc = acc * 16 + (d as u64);
        proof {
            assert(all_hex(g.subrange(0, i - from + 1))) by {
                assert(forall|j: int|
                    0 <= j < i - from + 1 ==> hex_digit_value(g.subrange(0, i - from + 1)[j])
                        == hex_digit_value(g[j]));
            }
        }
        i = i + 1;
    }
    proof {
        assert(g.subrange(0, to - from) =~= g);
    }
    Some(acc)
}

/// Every power of sixteen is at least one.
proof fn lemma_pow16_positive(n: int)
    ensures
        pow16(n) >= 1,
    decreases (if n > 0 { n } else { 0 }),
{
    if n > 0 {
        lemma_pow16_positive(n - 1);
    }
}

/// A larger exponent gives a larger power.
proof fn lemma_pow16_increases(a: int, b: int)
    requires
        a <= b,
    ensures
        pow16(a) <= pow16(b),
    decreases b - a,
{
    if a < b {
        lemma_pow16_increases(a, b - 1);
        if b > 0 {
            lemma_pow16_positive(b - 1);
            assert(pow16(b) == 16 * pow16(b - 1));
        }
    }
}

/// Parses a canonical identifier string such as
/// `"12345678-9abc-def0-fedc-ba9876543210"`: five hexadecimal groups of 8,
/// 4, 4, 4 and 12 digits, separated by single dashes. Succeeds exactly on
/// canonical strings and returns the denoted identifier; the errors carry
/// the length, or the character offset of the first malformed group.
pub fn parse_guid(guid_str: &str) -> (r: Result<Guid, GuidParseError>)
    ensures
        match r {
            Ok(g) => is_canonical_guid(guid_str@) && g == guid_of(guid_str@),
            Err(GuidParseError::NotCanonicalLength(n)) => n == guid_str@.len() && n != 36,
            Err(GuidParseError::BadGroup(_)) => guid_str@.len() == 36 && !is_canonical_guid(
                guid_str@,
            ),
        },
{
    let n = guid_str.unicode_len();
    if n != 36 {
        return Err(GuidParseError::NotCanonicalLength(n));
    }
    if !(guid_str.get_char(8) == '-' && guid_str.get_char(13) == '-' && guid_str.get_char(18) == '-'
        && guid_str.get_char(23) == '-') {
        return Err(GuidParseError::BadGroup(8));
    }
    let time_low = match parse_hex_group(guid_str, 0, 8) {
        Some(v) => v,
        None => {
            return Err(GuidParseError::BadGroup(0));
        },
    };
    let time_mid = match parse_hex_group(guid_str, 9, 13) {
        Some(v) => v,
        None => {
            return Err(GuidParseError::BadGroup(9));
        },
    };
    let time_high = match parse_hex_group(guid_str, 14, 18) {
        Some(v) => v,
        None => {
            return Err(GuidParseError::BadGroup(14));
        },
    };
    let clock_seq = match parse_hex_group(guid_str, 19, 23) {
        Some(v) => v,
        None => {
            return Err(GuidParseError::BadGroup(19));
        },
    };
    let node = match parse_hex_group(guid_str, 24, 36) {
        Some(v) => v,
        None => {
            return Err(GuidParseError::BadGroup(24));
        },
    };
    proof {
        lemma_hex_value_bound(guid_str@.subrange(0, 8));
        lemma_hex_value_bound(guid_str@.subrange(9, 13));
        lemma_hex_value_bound(guid_str@.subrange(14, 18));
        lemma_hex_value_bound(guid_str@.subrange(19, 23));
        lemma_pow16_values();
    }
    Ok(
        Guid {
            time_low: time_low as u32,
            time_mid: time_mid as u16,
            time_high_and_version: time_high as u16,
            clock_seq_and_variant: clock_seq as u16,
            node,
        },
    )
}

} // verus!
