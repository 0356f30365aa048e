//! The record codec: binary records made of a fixed header immediately
//! followed by a null-terminated 16-bit name, in one contiguous byte
//! layout.
//!
//! Encoding writes a header's bytes and then the name's code units into a
//! caller-supplied buffer; decoding reads the header back and scans forward
//! for the name's terminator. Both directions are specified against one
//! byte-level layout function, and a round-trip law ties them together.

use vstd::bytes::{
    lemma_auto_spec_u16_to_from_le_bytes, lemma_auto_spec_u32_to_from_le_bytes,
    lemma_auto_spec_u64_to_from_le_bytes, spec_u16_from_le_bytes, spec_u16_to_le_bytes,
    spec_u32_from_le_bytes, spec_u32_to_le_bytes, spec_u64_from_le_bytes, spec_u64_to_le_bytes,
};
use vstd::prelude::*;

use crate::chars::{char16_is_valid, Char16};
use crate::guid::{Guid, Identify};
use crate::layout::{read_u16_at, read_u32_at, read_u64_at, read_u8_at, write_u16_at, write_u32_at, write_u64_at, write_u8_at};
use crate::strs::{is_cstr16, CStr16};
use crate::time::{lemma_time_bytes_round_trip, read_time_at, time_from_bytes, time_le_bytes, write_time_at, Time};

verus! {

broadcast use vstd::std_specs::vec::axiom_spec_len;

/// Errors of record encoding.
#[derive(Clone, Copy, Debug, Eq, PartialEq)]
pub enum FileInfoCreationError {
    /// The provided buffer is too small to hold the record; at least the
    /// indicated number of bytes is needed.
    InsufficientStorage(usize),
}

/// A type with a known encoded alignment.
pub trait Align {
    /// The alignment the encoded layout requires.
    spec fn alignment_spec() -> int;

    /// The alignment, as a machine value.
    fn alignment() -> (n: usize)
        ensures
            n as int == Self::alignment_spec(),
            n >= 1,
    ;
}

/// A fixed-size record header with an explicit byte layout.
///
/// Every implementation fixes the layout once, as a sequence of bytes, and
/// proves that reading the layout back restores the header.
pub trait InfoHeader: Sized {
    /// Encoded byte size of the header.
    spec fn size_spec() -> int;

    /// Natural alignment of the header layout.
    spec fn align_spec() -> int;

    /// The header's bytes: fields in declaration order, multi-byte fields
    /// little-endian, with explicit padding.
    spec fn bytes_spec(self) -> Seq<u8>;

    /// The header read back from the first `size_spec()` bytes of `b`.
    spec fn decode_spec(b: Seq<u8>) -> Self;

    /// The layout is coherent: the size and alignment are sensible, the
    /// encoded bytes have the declared size, and decoding restores the
    /// header.
    proof fn lemma_layout(self)
        ensures
            0 <= Self::size_spec(),
            1 <= Self::align_spec(),
            self.bytes_spec().len() == Self::size_spec(),
            Self::decode_spec(self.bytes_spec()) == self,
    ;

    /// The encoded byte size, as a machine value.
    fn byte_size() -> (n: usize)
        ensures
            n as int == Self::size_spec(),
    ;

    /// The alignment, as a machine value.
    fn align() -> (n: usize)
        ensures
            n as int == Self::align_spec(),
            n >= 1,
    ;

    /// Writes the header's bytes over the start of `buf`.
    fn write_to(&self, buf: &mut Vec<u8>)
        requires
            Self::size_spec() <= old(buf)@.len(),
        ensures
            final(buf)@ == self.bytes_spec() + old(buf)@.skip(Self::size_spec()),
    ;

    /// Reads a header back from the start of `buf`.
    fn read_from(buf: &Vec<u8>) -> (h: Self)
        requires
            Self::size_spec() <= buf@.len(),
        ensures
            h == Self::decode_spec(buf@.take(Self::size_spec())),
    ;
}

/// The little-endian bytes of a 16-bit unit sequence, two bytes per unit.
pub open spec fn units_le_bytes(u: Seq<u16>) -> Seq<u8>
    decreases u.len(),
{
    if u.len() == 0 {
        Seq::empty()
    } else {
        spec_u16_to_le_bytes(u[0]) + units_le_bytes(u.drop_first())
    }
}

/// The unit encoding distributes over concatenation.
pub proof fn lemma_units_le_bytes_concat(a: Seq<u16>, b: Seq<u16>)
    ensures
        units_le_bytes(a + b) == units_le_bytes(a) + units_le_bytes(b),
    decreases a.len(),
{
    if a.len() == 0 {
        assert(a + b =~= b);
        assert(units_le_bytes(a) + units_le_bytes(b) =~= units_le_bytes(b));
    } else {
        assert((a + b).drop_first() =~= a.drop_first() + b);
        lemma_units_le_bytes_concat(a.drop_first(), b);
        assert((a + b)[0] == a[0]);
        assert(spec_u16_to_le_bytes(a[0]) + (units_le_bytes(a.drop_first()) + units_le_bytes(b))
            =~= (spec_u16_to_le_bytes(a[0]) + units_le_bytes(a.drop_first())) + units_le_bytes(b));
    }
}

/// The unit encoding takes two bytes per unit.
pub proof fn lemma_units_le_bytes_len(u: Seq<u16>)
    ensures
        units_le_bytes(u).len() == 2 * u.len(),
    decreases u.len(),
{
    lemma_auto_spec_u16_to_from_le_bytes();
    if u.len() > 0 {
        lemma_units_le_bytes_len(u.drop_first());
    }
}

/// Total encoded byte size of a record with the given name units,
/// terminator included.
pub open spec fn required_size<Header: InfoHeader>(name: Seq<u16>) -> int {
    Header::size_spec() + 2 * name.len()
}

/// The byte layout of an encoded record: header bytes, then the name's
/// code units, terminator included.
pub open spec fn encoded_record<Header: InfoHeader>(h: Header, name: Seq<u16>) -> Seq<u8> {
    h.bytes_spec() + units_le_bytes(name)
}

/// The name units found by scanning 16-bit little-endian units of `b`
/// forward from `off` up to and including the first null unit; nothing if
/// the scan runs off the end of `b` or meets an illegal scalar first.
pub open spec fn scan_name_units(b: Seq<u8>, off: int) -> Option<Seq<u16>>
    decreases b.len() - off,
{
    if off < 0 || off + 2 > b.len() {
        None
    } else {
        let u = spec_u16_from_le_bytes(b.subrange(off, off + 2));
        if u == 0 {
            Some(seq![0u16])
        } else if !char16_is_valid(u) {
            None
        } else {
            match scan_name_units(b, off + 2) {
                None => None,
                Some(rest) => Some(seq![u] + rest),
            }
        }
    }
}

/// What decoding a record from the start of `b` yields: the header read
/// from the first bytes and the scanned name, or nothing if `b` is too
/// short or holds no well-formed name.
pub open spec fn decode_record_spec<Header: InfoHeader>(b: Seq<u8>) -> Option<(Header, Seq<u16>)> {
    if Header::size_spec() <= b.len() {
        match scan_name_units(b, Header::size_spec()) {
            Some(u) => Some((Header::decode_spec(b.take(Header::size_spec())), u)),
            None => None,
        }
    } else {
        None
    }
}

/// Scanning bytes that hold the encoding of a well-formed name finds
/// exactly that name, whatever follows it.
proof fn lemma_scan_name_units_encoded(b: Seq<u8>, off: int, u: Seq<u16>)
    requires
        is_cstr16(u),
        0 <= off,
        off + 2 * u.len() <= b.len(),
        b.subrange(off, off + 2 * u.len()) == units_le_bytes(u),
    ensures
        scan_name_units(b, off) == Some(u),
    decreases u.len(),
{
    lemma_auto_spec_u16_to_from_le_bytes();
    lemma_units_le_bytes_len(u);
    assert(b.subrange(off, off + 2) =~= units_le_bytes(u).subrange(0, 2));
    assert(units_le_bytes(u).subrange(0, 2) =~= spec_u16_to_le_bytes(u[0]));
    assert(spec_u16_from_le_bytes(b.subrange(off, off + 2)) == u[0]);
    if u.len() == 1 {
        assert(u[0] == 0);
        assert(seq![0u16] =~= u);
    } else {
        assert(u[0] != 0 && char16_is_valid(u[0]));
        let rest = u.drop_first();
        assert(is_cstr16(rest)) by {
            assert(rest[rest.len() - 1] == u[u.len() - 1]);
            assert(forall|i: int|
                0 <= i < rest.len() - 1 ==> rest[i] == u[i + 1] && u[i + 1] != 0
                    && char16_is_valid(u[i + 1]));
        }
        lemma_units_le_bytes_len(rest);
        assert(units_le_bytes(u) =~= spec_u16_to_le_bytes(u[0]) + units_le_bytes(rest));
        assert(b.subrange(off + 2, off + 2 + 2 * rest.len()) =~= units_le_bytes(rest)) by {
            assert forall|i: int|
                0 <= i < 2 * rest.len() implies b.subrange(off + 2, off + 2 + 2 * rest.len())[i]
                == units_le_bytes(rest)[i] by {
                assert(b[off + 2 + i] == b.subrange(off, off + 2 * u.len())[i + 2]);
                assert(units_le_bytes(u)[i + 2] == units_le_bytes(rest)[i]);
            }
        }
        lemma_scan_name_units_encoded(b, off + 2, rest);
        assert(seq![u[0]] + rest =~= u);
    }
}

/// Decode-after-encode agreement: a buffer that starts with the encoding
/// of a header and a well-formed name decodes to exactly that header and
/// name, whatever bytes follow the record.
pub proof fn lemma_record_round_trip<Header: InfoHeader>(h: Header, name: Seq<u16>, rest: Seq<u8>)
    requires
        is_cstr16(name),
    ensures
        decode_record_spec::<Header>(encoded_record(h, name) + rest) == Some((h, name)),
{
    h.lemma_layout();
    lemma_units_le_bytes_len(name);
    let b = encoded_record(h, name) + rest;
    let size = Header::size_spec();
    assert(b.take(size) =~= h.bytes_spec());
    assert(b.subrange(size, size + 2 * name.len()) =~= units_le_bytes(name));
    lemma_scan_name_units_encoded(b, size, name);
}

/// A record with a fixed header and a trailing null-terminated 16-bit
/// name, together with its single contiguous byte layout.
///
/// A value of this type is the decoded form; the encoded form lives in the
/// caller's buffer, written by the constructor and read back by
/// [`Self::from_uefi`].
#[derive(Debug)]
pub struct NamedFileProtocolInfo<Header> {
    /// The fixed leading header.
    pub header: Header,
    /// The trailing name.
    pub name: CStr16,
}

impl<Header: InfoHeader> NamedFileProtocolInfo<Header> {
    /// Encodes `header` followed by `name` into the start of `storage` and
    /// returns the record. Fails, writing nothing, exactly when `storage`
    /// is shorter than the encoded record, and then reports the needed
    /// size.
    ///
    /// The record is modelled over the buffer's bytes alone; where a
    /// caller places it in memory for a foreign reader, the placement must
    /// satisfy the alignment that [`Align::alignment`] reports.
    pub fn new_impl(storage: &mut Vec<u8>, header: Header, name: &CStr16) -> (r: Result<
        NamedFileProtocolInfo<Header>,
        FileInfoCreationError,
    >)
        requires
            required_size::<Header>(name@) <= usize::MAX,
        ensures
            final(storage)@.len() == old(storage)@.len(),
            ({
                let req = required_size::<Header>(name@);
                if old(storage)@.len() < req {
                    &&& r == Err::<NamedFileProtocolInfo<Header>, FileInfoCreationError>(
                        FileInfoCreationError::InsufficientStorage(req as usize),
                    )
                    &&& final(storage)@ == old(storage)@
                } else {
                    match r {
                        Ok(info) => {
                            &&& info.header == header
                            &&& info.name@ == name@
                            &&& final(storage)@ == encoded_record(header, name@) + old(
                                storage,
                            )@.skip(req)
                        },
                        Err(_) => false,
                    }
                }
            }),
    {
        proof {
            header.lemma_layout();
            use_type_invariant(name);
        }
        let hsize = Header::byte_size();
        let name_units = name.as_slice_with_nul();
        let name_len = name_units.len();
        let name_size = name_len * 2;
        let info_size = hsize + name_size;
        if storage.len() < info_size {
            return Err(FileInfoCreationError::InsufficientStorage(info_size));
        }
        let ghost b0 = storage@;
        let ghost units = name@;
        header.write_to(storage);
        proof {
            lemma_units_le_bytes_len(units.take(0));
            assert(units_le_bytes(units.take(0)) =~= Seq::<u8>::empty());
            assert(storage@ =~= header.bytes_spec() + units_le_bytes(units.take(0)) + b0.skip(
                hsize as int,
            ));
        }
        let mut i: usize = 0;
        while i < name_len
            invariant
                hsize as int == Header::size_spec(),
                header.bytes_spec().len() == hsize,
                name_len == units.len(),
                hsize + 2 * name_len <= usize::MAX,
                hsize + 2 * name_len <= storage@.len(),
                name_units@.map_values(|c: Char16| c@) == units,
                name_len == name_units@.len(),
                0 <= i <= name_len,
                storage@ == header.bytes_spec() + units_le_bytes(units.take(i as int)) + b0.skip(
                    hsize + 2 * i,
                ),
                storage@.len() == b0.len(),
            decreases name_len - i,
        {
            proof {
                lemma_units_le_bytes_len(units.take(i as int));
            }
            let unit = slice_index_char16(name_units, i);
            write_u16_at(storage, hsize + 2 * i, unit);
            proof {
                assert(units.take(i + 1) =~= units.take(i as int) + seq![units[i as int]]);
                lemma_units_le_bytes_concat(units.take(i as int), seq![units[i as int]]);
                assert(seq![units[i as int]].drop_first() =~= Seq::<u16>::empty());
                assert(units_le_bytes(Seq::<u16>::empty()) =~= Seq::<u8>::empty());
                assert(units_le_bytes(seq![units[i as int]]) =~= spec_u16_to_le_bytes(
                    units[i as int],
                ));
                lemma_auto_spec_u16_to_from_le_bytes();
                assert(storage@ =~= header.bytes_spec() + units_le_bytes(units.take(i + 1))
                    + b0.skip(hsize + 2 * i + 2));
            }
            i = i + 1;
        }
        proof {
            assert(units.take(name_len as int) =~= units);
        }
        let name_copy = CStr16::from_u16_with_nul_unchecked(
            name.to_u16_slice_with_nul().as_slice(),
        );
        Ok(NamedFileProtocolInfo { header, name: name_copy })
    }

    /// Decodes a record from the start of `storage`: reads the header back
    /// and scans forward for the name's terminator. Yields nothing when
    /// `storage` ends before a terminator or an illegal scalar stands
    /// before it.
    pub fn from_uefi(storage: &Vec<u8>) -> (r: Option<NamedFileProtocolInfo<Header>>)
        ensures
            match r {
                Some(info) => decode_record_spec::<Header>(storage@) == Some(
                    (info.header, info.name@),
                ),
                None => decode_record_spec::<Header>(storage@) is None,
            },
    {
        let ghost b = storage@;
        let hsize = Header::byte_size();
        if storage.len() < hsize {
            return None;
        }
        let header = Header::read_from(storage);
        let mut units: Vec<Char16> = Vec::new();
        let mut off = hsize;
        proof {
            assert(units@.map_values(|c: Char16| c@) =~= Seq::<u16>::empty());
        }
        while storage.len() - off >= 2
            invariant
                b == storage@,
                hsize as int == Header::size_spec(),
                header == Header::decode_spec(b.take(Header::size_spec())),
                hsize <= off,
                off == hsize + 2 * units@.len(),
                off <= storage@.len(),
                forall|j: int|
                    0 <= j < units@.len() ==> units@[j]@ != 0 && char16_is_valid(units@[j]@),
                match scan_name_units(b, off as int) {
                    None => scan_name_units(b, hsize as int) is None,
                    Some(rest) => scan_name_units(b, hsize as int) == Some(
                        units@.map_values(|c: Char16| c@) + rest,
                    ),
                },
            decreases storage@.len() - off,
        {
            let code = read_u16_at(storage, off);
            if code == 0 {
                let ghost before = units@.map_values(|c: Char16| c@);
                let mut name_units = units;
                name_units.push(Char16::nul());
                let ghost v = name_units@.map_values(|c: Char16| c@);
                proof {
                    assert(v =~= before.push(0u16));
                    assert(scan_name_units(b, off as int) == Some(seq![0u16]));
                    assert(before + seq![0u16] =~= v);
                    assert(is_cstr16(v));
                }
                let name = CStr16::from_char16_vec(name_units);
                return Some(NamedFileProtocolInfo { header, name });
            }
            if !(code < 0xD800 || code > 0xDFFF) {
                return None;
            }
            let c = match Char16::from_u16(code) {
                Some(c) => c,
                None => {
                    proof {
                        assert(false);
                    }
                    Char16::nul()
                },
            };
            let ghost before = units@.map_values(|c: Char16| c@);
            units.push(c);
            proof {
                assert(units@.map_values(|cc: Char16| cc@) =~= before.push(code));
                if scan_name_units(b, off + 2) is Some {
                    let rest = scan_name_units(b, off + 2)->0;
                    assert(scan_name_units(b, off as int) == Some(seq![code] + rest));
                    assert(before.push(code) + rest =~= before + (seq![code] + rest));
                }
            }
            off = off + 2;
        }
        None
    }
}

/// Reads one scalar of a `Char16` slice as its raw value.
fn slice_index_char16(s: &[Char16], i: usize) -> (r: u16)
    requires
        i < s@.len(),
    ensures
        r == s@.map_values(|c: Char16| c@)[i as int],
{
    vstd::slice::slice_index_get(s, i).to_u16()
}

/// Attribute bits of a file, stored as a raw 64-bit mask.
#[derive(Clone, Copy, Debug, PartialEq, Eq, Structural)]
pub struct FileAttribute {
    /// The raw attribute bits.
    pub bits: u64,
}

impl FileAttribute {
    /// Attributes from a raw bit mask.
    pub fn from_bits(bits: u64) -> (r: FileAttribute)
        ensures
            r.bits == bits,
    {
        FileAttribute { bits }
    }
}

/// The least multiple of `a` that is at least `n`.
pub open spec fn spec_round_up(n: int, a: int) -> int
    recommends
        a >= 1,
{
    ((n + a - 1) / a) * a
}

/// Rounds `n` up to a multiple of `a`.
fn round_up(n: usize, a: usize) -> (r: usize)
    requires
        1 <= a,
        n + a - 1 <= usize::MAX,
    ensures
        r as int == spec_round_up(n as int, a as int),
        n <= r <= n + a - 1,
{
    let m = if n == 0 {
        a - 1
    } else {
        (n - 1) + a
    };
    proof {
        vstd::arithmetic::div_mod::lemma_fundamental_div_mod(m as int, a as int);
        vstd::arithmetic::div_mod::lemma_mod_bound(m as int, a as int);
        assert((a as int) * ((m as int) / (a as int)) == ((m as int) / (a as int)) * (a as int))
            by (nonlinear_arith);
    }
    (m / a) * a
}

/// Header of the generic file-information record: reported encoded size,
/// file size, physical size, the three timestamps, and the attribute bits,
/// in that order.
#[derive(Clone, Copy, Debug, PartialEq, Eq, Structural)]
pub struct FileInfoHeader {
    /// Total encoded size of the whole record in bytes, rounded up to the
    /// record's alignment.
    pub size: u64,
    /// Number of bytes stored in the file.
    pub file_size: u64,
    /// Physical space the file takes on the volume.
    pub physical_size: u64,
    /// When the file was created.
    pub create_time: Time,
    /// When the file was last accessed.
    pub last_access_time: Time,
    /// When the file's contents were last modified.
    pub modification_time: Time,
    /// Attribute bits of the file.
    pub attribute: FileAttribute,
}

impl InfoHeader for FileInfoHeader {
    open spec fn size_spec() -> int {
        80
    }

    open spec fn align_spec() -> int {
        8
    }

    open spec fn bytes_spec(self) -> Seq<u8> {
        spec_u64_to_le_bytes(self.size) + spec_u64_to_le_bytes(self.file_size)
            + spec_u64_to_le_bytes(self.physical_size) + time_le_bytes(self.create_time)
            + time_le_bytes(self.last_access_time) + time_le_bytes(self.modification_time)
            + spec_u64_to_le_bytes(self.attribute.bits)
    }

    open spec fn decode_spec(b: Seq<u8>) -> Self {
        FileInfoHeader {
            size: spec_u64_from_le_bytes(b.subrange(0, 8)),
            file_size: spec_u64_from_le_bytes(b.subrange(8, 16)),
            physical_size: spec_u64_from_le_bytes(b.subrange(16, 24)),
            create_time: time_from_bytes(b.subrange(24, 40)),
            last_access_time: time_from_bytes(b.subrange(40, 56)),
            modification_time: time_from_bytes(b.subrange(56, 72)),
            attribute: FileAttribute { bits: spec_u64_from_le_bytes(b.subrange(72, 80)) },
        }
    }

    #[verifier::rlimit(60)]
    proof fn lemma_layout(self) {
        lemma_auto_spec_u64_to_from_le_bytes();
        lemma_time_bytes_round_trip(self.create_time);
        lemma_time_bytes_round_trip(self.last_access_time);
        lemma_time_bytes_round_trip(self.modification_time);
        let b = self.bytes_spec();
        assert(b.subrange(0, 8) =~= spec_u64_to_le_bytes(self.size));
        assert(b.subrange(8, 16) =~= spec_u64_to_le_bytes(self.file_size));
        assert(b.subrange(16, 24) =~= spec_u64_to_le_bytes(self.physical_size));
        assert(b.subrange(24, 40) =~= time_le_bytes(self.create_time));
        assert(b.subrange(40, 56) =~= time_le_bytes(self.last_access_time));
        assert(b.subrange(56, 72) =~= time_le_bytes(self.modification_time));
        assert(b.subrange(72, 80) =~= spec_u64_to_le_bytes(self.attribute.bits));
    }

    fn byte_size() -> (n: usize) {
        80
    }

    fn align() -> (n: usize) {
        8
    }

    #[verifier::rlimit(60)]
    fn write_to(&self, buf: &mut Vec<u8>) {
        proof {
            lemma_auto_spec_u64_to_from_le_bytes();
            lemma_time_bytes_round_trip(self.create_time);
            lemma_time_bytes_round_trip(self.last_access_time);
            lemma_time_bytes_round_trip(self.modification_time);
        }
        let ghost b0 = buf@;
        write_u64_at(buf, 0, self.size);
        write_u64_at(buf, 8, self.file_size);
        write_u64_at(buf, 16, self.physical_size);
        let ghost p2 = spec_u64_to_le_bytes(self.size) + spec_u64_to_le_bytes(self.file_size)
            + spec_u64_to_le_bytes(self.physical_size);
        proof {
            assert(buf@ =~= p2 + b0.skip(24));
        }
        write_time_at(buf, 24, &self.create_time);
        write_time_at(buf, 40, &self.last_access_time);
        let ghost p4 = p2 + time_le_bytes(self.create_time) + time_le_bytes(self.last_access_time);
        proof {
            assert(buf@ =~= p4 + b0.skip(56));
        }
        write_time_at(buf, 56, &self.modification_time);
        write_u64_at(buf, 72, self.attribute.bits);
        proof {
            assert(buf@ =~= self.bytes_spec() + b0.skip(80));
        }
    }

    #[verifier::rlimit(60)]
    fn read_from(buf: &Vec<u8>) -> (h: Self) {
        let ghost b = buf@.take(80);
        let size = read_u64_at(buf, 0);
        let file_size = read_u64_at(buf, 8);
        let physical_size = read_u64_at(buf, 16);
        let create_time = read_time_at(buf, 24);
        let last_access_time = read_time_at(buf, 40);
        let modification_time = read_time_at(buf, 56);
        let attribute = FileAttribute { bits: read_u64_at(buf, 72) };
        proof {
            assert(buf@.subrange(0, 8) =~= b.subrange(0, 8));
            assert(buf@.subrange(8, 16) =~= b.subrange(8, 16));
            assert(buf@.subrange(16, 24) =~= b.subrange(16, 24));
            assert(buf@.subrange(24, 40) =~= b.subrange(24, 40));
            assert(buf@.subrange(40, 56) =~= b.subrange(40, 56));
            assert(buf@.subrange(56, 72) =~= b.subrange(56, 72));
            assert(buf@.subrange(72, 80) =~= b.subrange(72, 80));
        }
        FileInfoHeader {
            size,
            file_size,
            physical_size,
            create_time,
            last_access_time,
            modification_time,
            attribute,
        }
    }
}

/// Header of the volume-information record: reported encoded size, the
/// read-only flag, volume size, free space, and block size, in that order.
#[derive(Clone, Copy, Debug, PartialEq, Eq, Structural)]
pub struct FileSystemInfoHeader {
    /// Total encoded size of the whole record in bytes, rounded up to the
    /// record's alignment.
    pub size: u64,
    /// Truth that the volume only supports read access.
    pub read_only: bool,
    /// Number of bytes the file system manages.
    pub volume_size: u64,
    /// Number of available bytes.
    pub free_space: u64,
    /// Nominal block size by which files typically grow.
    pub block_size: u32,
}

impl InfoHeader for FileSystemInfoHeader {
    open spec fn size_spec() -> int {
        40
    }

    open spec fn align_spec() -> int {
        8
    }

    open spec fn bytes_spec(self) -> Seq<u8> {
        spec_u64_to_le_bytes(self.size) + seq![
            if self.read_only {
                1u8
            } else {
                0u8
            },
            0u8,
            0u8,
            0u8,
            0u8,
            0u8,
            0u8,
            0u8,
        ] + spec_u64_to_le_bytes(self.volume_size) + spec_u64_to_le_bytes(self.free_space)
            + spec_u32_to_le_bytes(self.block_size) + seq![0u8, 0u8, 0u8, 0u8]
    }

    open spec fn decode_spec(b: Seq<u8>) -> Self {
        FileSystemInfoHeader {
            size: spec_u64_from_le_bytes(b.subrange(0, 8)),
            read_only: b[8] != 0,
            volume_size: spec_u64_from_le_bytes(b.subrange(16, 24)),
            free_space: spec_u64_from_le_bytes(b.subrange(24, 32)),
            block_size: spec_u32_from_le_bytes(b.subrange(32, 36)),
        }
    }

    #[verifier::rlimit(60)]
    proof fn lemma_layout(self) {
        lemma_auto_spec_u64_to_from_le_bytes();
        lemma_auto_spec_u32_to_from_le_bytes();
        let b = self.bytes_spec();
        assert(b.subrange(0, 8) =~= spec_u64_to_le_bytes(self.size));
        assert(b.subrange(16, 24) =~= spec_u64_to_le_bytes(self.volume_size));
        assert(b.subrange(24, 32) =~= spec_u64_to_le_bytes(self.free_space));
        assert(b.subrange(32, 36) =~= spec_u32_to_le_bytes(self.block_size));
    }

    fn byte_size() -> (n: usize) {
        40
    }

    fn align() -> (n: usize) {
        8
    }

    #[verifier::rlimit(60)]
    fn write_to(&self, buf: &mut Vec<u8>) {
        proof {
            lemma_auto_spec_u64_to_from_le_bytes();
            lemma_auto_spec_u32_to_from_le_bytes();
        }
        let ghost b0 = buf@;
        write_u64_at(buf, 0, self.size);
        write_u8_at(
            buf,
            8,
            if self.read_only {
                1
            } else {
                0
            },
        );
        write_u8_at(buf, 9, 0);
        write_u8_at(buf, 10, 0);
        write_u8_at(buf, 11, 0);
        write_u8_at(buf, 12, 0);
        write_u8_at(buf, 13, 0);
        write_u8_at(buf, 14, 0);
        write_u8_at(buf, 15, 0);
        let ghost p1 = spec_u64_to_le_bytes(self.size) + seq![
            if self.read_only {
                1u8
            } else {
                0u8
            },
            0u8,
            0u8,
            0u8,
            0u8,
            0u8,
            0u8,
            0u8,
        ];
        proof {
            assert(buf@ =~= p1 + b0.skip(16));
        }
        write_u64_at(buf, 16, self.volume_size);
        write_u64_at(buf, 24, self.free_space);
        write_u32_at(buf, 32, self.block_size);
        let ghost p2 = p1 + spec_u64_to_le_bytes(self.volume_size) + spec_u64_to_le_bytes(
            self.free_space,
        ) + spec_u32_to_le_bytes(self.block_size);
        proof {
            assert(buf@ =~= p2 + b0.skip(36));
        }
        write_u8_at(buf, 36, 0);
        write_u8_at(buf, 37, 0);
        write_u8_at(buf, 38, 0);
        write_u8_at(buf, 39, 0);
        proof {
            assert(buf@ =~= self.bytes_spec() + b0.skip(40));
        }
    }

    #[verifier::rlimit(60)]
    fn read_from(buf: &Vec<u8>) -> (h: Self) {
        let ghost b = buf@.take(40);
        let size = read_u64_at(buf, 0);
        let read_only = read_u8_at(buf, 8) != 0;
        let volume_size = read_u64_at(buf, 16);
        let free_space = read_u64_at(buf, 24);
        let block_size = read_u32_at(buf, 32);
        proof {
            assert(buf@.subrange(0, 8) =~= b.subrange(0, 8));
            assert(buf@[8] == b[8]);
            assert(buf@.subrange(16, 24) =~= b.subrange(16, 24));
            assert(buf@.subrange(24, 32) =~= b.subrange(24, 32));
            assert(buf@.subrange(32, 36) =~= b.subrange(32, 36));
        }
        FileSystemInfoHeader { size, read_only, volume_size, free_space, block_size }
    }
}

/// Header of the volume-label record: empty, the record is the name alone.
#[derive(Clone, Copy, Debug, PartialEq, Eq, Structural)]
pub struct FileSystemVolumeLabelHeader {}

impl InfoHeader for FileSystemVolumeLabelHeader {
    open spec fn size_spec() -> int {
        0
    }

    open spec fn align_spec() -> int {
        1
    }

    open spec fn bytes_spec(self) -> Seq<u8> {
        Seq::empty()
    }

    open spec fn decode_spec(b: Seq<u8>) -> Self {
        FileSystemVolumeLabelHeader {  }
    }

    proof fn lemma_layout(self) {
    }

    fn byte_size() -> (n: usize) {
        0
    }

    fn align() -> (n: usize) {
        1
    }

    fn write_to(&self, buf: &mut Vec<u8>) {
        proof {
            assert(buf@ =~= self.bytes_spec() + old(buf)@.skip(0));
        }
    }

    fn read_from(buf: &Vec<u8>) -> (h: Self) {
        FileSystemVolumeLabelHeader {  }
    }
}

impl<Header: InfoHeader> Align for NamedFileProtocolInfo<Header> {
    /// The whole record must be placed at the larger of the header's
    /// alignment and the name units' two-byte alignment.
    open spec fn alignment_spec() -> int {
        if Header::align_spec() >= 2 {
            Header::align_spec()
        } else {
            2
        }
    }

    fn alignment() -> (n: usize) {
        let a = Header::align();
        if a >= 2 {
            a
        } else {
            2
        }
    }
}

/// Generic file information: the sizes, the three timestamps, the
/// attribute bits, and the file's name.
pub type FileInfo = NamedFileProtocolInfo<FileInfoHeader>;

/// System volume information: the read-only flag, the sizes, and the
/// volume's label.
pub type FileSystemInfo = NamedFileProtocolInfo<FileSystemInfoHeader>;

/// System volume label: the label alone.
pub type FileSystemVolumeLabel = NamedFileProtocolInfo<FileSystemVolumeLabelHeader>;

impl FileInfo {
    /// Encodes a file-information record into `storage`: the header with
    /// its size field set to the record's own total encoded size rounded
    /// up to the record's alignment, then the name. Fails, writing
    /// nothing, exactly when `storage` is shorter than the encoded record.
    pub fn new(
        storage: &mut Vec<u8>,
        file_size: u64,
        physical_size: u64,
        create_time: Time,
        last_access_time: Time,
        modification_time: Time,
        attribute: FileAttribute,
        file_name: &CStr16,
    ) -> (r: Result<NamedFileProtocolInfo<FileInfoHeader>, FileInfoCreationError>)
        requires
            required_size::<FileInfoHeader>(file_name@) + 7 <= usize::MAX,
        ensures
            final(storage)@.len() == old(storage)@.len(),
            ({
                let req = required_size::<FileInfoHeader>(file_name@);
                if old(storage)@.len() < req {
                    &&& r == Err::<NamedFileProtocolInfo<FileInfoHeader>, FileInfoCreationError>(
                        FileInfoCreationError::InsufficientStorage(req as usize),
                    )
                    &&& final(storage)@ == old(storage)@
                } else {
                    match r {
                        Ok(info) => {
                            &&& info.header == (FileInfoHeader {
                                size: spec_round_up(req, 8) as u64,
                                file_size,
                                physical_size,
                                create_time,
                                last_access_time,
                                modification_time,
                                attribute,
                            })
                            &&& info.name@ == file_name@
                            &&& final(storage)@ == encoded_record(info.header, file_name@) + old(
                                storage,
                            )@.skip(req)
                        },
                        Err(_) => false,
                    }
                }
            }),
    {
        proof {
            use_type_invariant(file_name);
        }
        let hsize = FileInfoHeader::byte_size();
        let name_len = file_name.as_slice_with_nul().len();
        let info_size = hsize + name_len * 2;
        if storage.len() < info_size {
            return Err(FileInfoCreationError::InsufficientStorage(info_size));
        }
        let total = round_up(info_size, 8);
        let header = FileInfoHeader {
            size: total as u64,
            file_size,
            physical_size,
            create_time,
            last_access_time,
            modification_time,
            attribute,
        };
        match Self::new_impl(storage, header, file_name) {
            Ok(info) => Ok(info),
            Err(e) => {
                proof {
                    assert(false);
                }
                Err(e)
            },
        }
    }

    /// Number of bytes stored in the file.
    pub fn file_size(&self) -> (r: u64)
        ensures
            r == self.header.file_size,
    {
        self.header.file_size
    }

    /// Physical space the file takes on the volume.
    pub fn physical_size(&self) -> (r: u64)
        ensures
            r == self.header.physical_size,
    {
        self.header.physical_size
    }

    /// When the file was created.
    pub fn create_time(&self) -> (r: &Time)
        ensures
            *r == self.header.create_time,
    {
        &self.header.create_time
    }

    /// When the file was last accessed.
    pub fn last_access_time(&self) -> (r: &Time)
        ensures
            *r == self.header.last_access_time,
    {
        &self.header.last_access_time
    }

    /// When the file's contents were last modified.
    pub fn modification_time(&self) -> (r: &Time)
        ensures
            *r == self.header.modification_time,
    {
        &self.header.modification_time
    }

    /// Attribute bits of the file.
    pub fn attribute(&self) -> (r: FileAttribute)
        ensures
            r == self.header.attribute,
    {
        self.header.attribute
    }

    /// Name of the file.
    pub fn file_name(&self) -> (r: &CStr16)
        ensures
            *r == self.name,
    {
        &self.name
    }
}

impl FileSystemInfo {
    /// Encodes a volume-information record into `storage`: the header with
    /// its size field set to the record's own total encoded size rounded
    /// up to the record's alignment, then the label. Fails, writing
    /// nothing, exactly when `storage` is shorter than the encoded record.
    pub fn new(
        storage: &mut Vec<u8>,
        read_only: bool,
        volume_size: u64,
        free_space: u64,
        block_size: u32,
        volume_label: &CStr16,
    ) -> (r: Result<NamedFileProtocolInfo<FileSystemInfoHeader>, FileInfoCreationError>)
        requires
            required_size::<FileSystemInfoHeader>(volume_label@) + 7 <= usize::MAX,
        ensures
            final(storage)@.len() == old(storage)@.len(),
            ({
                let req = required_size::<FileSystemInfoHeader>(volume_label@);
                if old(storage)@.len() < req {
                    &&& r == Err::<
                        NamedFileProtocolInfo<FileSystemInfoHeader>,
                        FileInfoCreationError,
                    >(FileInfoCreationError::InsufficientStorage(req as usize))
                    &&& final(storage)@ == old(storage)@
                } else {
                    match r {
                        Ok(info) => {
                            &&& info.header == (FileSystemInfoHeader {
                                size: spec_round_up(req, 8) as u64,
                                read_only,
                                volume_size,
                                free_space,
                                block_size,
                            })
                            &&& info.name@ == volume_label@
                            &&& final(storage)@ == encoded_record(info.header, volume_label@)
                                + old(storage)@.skip(req)
                        },
                        Err(_) => false,
                    }
                }
            }),
    {
        proof {
            use_type_invariant(volume_label);
        }
        let hsize = FileSystemInfoHeader::byte_size();
        let name_len = volume_label.as_slice_with_nul().len();
        let info_size = hsize + name_len * 2;
        if storage.len() < info_size {
            return Err(FileInfoCreationError::InsufficientStorage(info_size));
        }
        let total = round_up(info_size, 8);
        let header = FileSystemInfoHeader {
            size: total as u64,
            read_only,
            volume_size,
            free_space,
            block_size,
        };
        match Self::new_impl(storage, header, volume_label) {
            Ok(info) => Ok(info),
            Err(e) => {
                proof {
                    assert(false);
                }
                Err(e)
            },
        }
    }

    /// Truth that the volume only supports read access.
    pub fn read_only(&self) -> (r: bool)
        ensures
            r == self.header.read_only,
    {
        self.header.read_only
    }

    /// Number of bytes the file system manages.
    pub fn volume_size(&self) -> (r: u64)
        ensures
            r == self.header.volume_size,
    {
        self.header.volume_size
    }

    /// Number of available bytes.
    pub fn free_space(&self) -> (r: u64)
        ensures
            r == self.header.free_space,
    {
        self.header.free_space
    }

    /// Nominal block size by which files typically grow.
    pub fn block_size(&self) -> (r: u32)
        ensures
            r == self.header.block_size,
    {
        self.header.block_size
    }

    /// The volume's label.
    pub fn volume_label(&self) -> (r: &CStr16)
        ensures
            *r == self.name,
    {
        &self.name
    }
}

impl FileSystemVolumeLabel {
    /// Encodes a volume-label record into `storage`: the label's code
    /// units alone. Fails, writing nothing, exactly when `storage` is
    /// shorter than the encoded label.
    pub fn new(storage: &mut Vec<u8>, volume_label: &CStr16) -> (r: Result<
        NamedFileProtocolInfo<FileSystemVolumeLabelHeader>,
        FileInfoCreationError,
    >)
        requires
            required_size::<FileSystemVolumeLabelHeader>(volume_label@) <= usize::MAX,
        ensures
            final(storage)@.len() == old(storage)@.len(),
            ({
                let req = required_size::<FileSystemVolumeLabelHeader>(volume_label@);
                if old(storage)@.len() < req {
                    &&& r == Err::<
                        NamedFileProtocolInfo<FileSystemVolumeLabelHeader>,
                        FileInfoCreationError,
                    >(FileInfoCreationError::InsufficientStorage(req as usize))
                    &&& final(storage)@ == old(storage)@
                } else {
                    match r {
                        Ok(info) => {
                            &&& info.header == (FileSystemVolumeLabelHeader {  })
                            &&& info.name@ == volume_label@
                            &&& final(storage)@ == encoded_record(info.header, volume_label@)
                                + old(storage)@.skip(req)
                        },
                        Err(_) => false,
                    }
                }
            }),
    {
        let header = FileSystemVolumeLabelHeader {  };
        Self::new_impl(storage, header, volume_label)
    }

    /// The volume's label.
    pub fn volume_label(&self) -> (r: &CStr16)
        ensures
            *r == self.name,
    {
        &self.name
    }
}

impl Identify for NamedFileProtocolInfo<FileInfoHeader> {
    open spec fn guid_spec() -> Guid {
        Guid {
            time_low: 0x09576e92,
            time_mid: 0x6d3f,
            time_high_and_version: 0x11d2,
            clock_seq_and_variant: 0x8e39,
            node: 0x00a0c969723b,
        }
    }

    fn guid() -> (g: Guid) {
        Guid::from_values(0x09576e92, 0x6d3f, 0x11d2, 0x8e39, 0x00a0c969723b)
    }
}

impl Identify for NamedFileProtocolInfo<FileSystemInfoHeader> {
    open spec fn guid_spec() -> Guid {
        Guid {
            time_low: 0x09576e93,
            time_mid: 0x6d3f,
            time_high_and_version: 0x11d2,
            clock_seq_and_variant: 0x8e39,
            node: 0x00a0c969723b,
        }
    }

    fn guid() -> (g: Guid) {
        Guid::from_values(0x09576e93, 0x6d3f, 0x11d2, 0x8e39, 0x00a0c969723b)
    }
}

impl Identify for NamedFileProtocolInfo<FileSystemVolumeLabelHeader> {
    open spec fn guid_spec() -> Guid {
        Guid {
            time_low: 0xdb47d7d3,
            time_mid: 0xfe81,
            time_high_and_version: 0x11d3,
            clock_seq_and_variant: 0x9a35,
            node: 0x0090273fc14d,
        }
    }

    fn guid() -> (g: Guid) {
        Guid::from_values(0xdb47d7d3, 0xfe81, 0x11d3, 0x9a35, 0x0090273fc14d)
    }
}

/// Record types usable with the firmware's information services: aligned
/// for in-place placement and paired with a fixed identifier.
pub trait FileProtocolInfo: Align + Identify {

}

impl FileProtocolInfo for NamedFileProtocolInfo<FileInfoHeader> {

}

impl FileProtocolInfo for NamedFileProtocolInfo<FileSystemInfoHeader> {

}

impl FileProtocolInfo for NamedFileProtocolInfo<FileSystemVolumeLabelHeader> {

}

} // verus!
