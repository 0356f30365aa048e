//! Borrow-free, verified views of null-terminated firmware strings.
//!
//! `CStr8` holds a null-terminated sequence of 8-bit code units; `CStr16`
//! holds a null-terminated sequence of validated 16-bit code units. Both
//! uphold the same shape invariant: at least one unit, the last unit is the
//! null terminator, and no unit before the last is null.

use vstd::prelude::*;
use vstd::slice::{slice_index_get, slice_subrange, slice_to_vec};

use crate::chars::{char16_is_valid, Char16};

verus! {

/// Errors of the checked slice-to-string conversions.
#[derive(Clone, Copy, Debug, Eq, PartialEq)]
pub enum FromSliceWithNulError {
    /// An invalid character was encountered before the end of the slice.
    InvalidChar(usize),
    /// A null character was encountered before the end of the slice.
    InteriorNul(usize),
    /// The slice was not null-terminated.
    NotNulTerminated,
}

/// Errors of [`CStr16::from_str_with_buf`].
#[derive(Clone, Copy, Debug, Eq, PartialEq)]
pub enum FromStrWithBufError {
    /// An invalid character was encountered before the end of the string.
    InvalidChar(usize),
    /// A null character was encountered in the string.
    InteriorNul(usize),
    /// The buffer is too small to hold the entire string and the trailing
    /// null character.
    BufferTooSmall,
}

/// The shape invariant of an 8-bit null-terminated string: at least one
/// unit, null exactly at the end.
pub open spec fn is_cstr8(s: Seq<u8>) -> bool {
    &&& s.len() >= 1
    &&& s[s.len() - 1] == 0
    &&& forall|i: int| 0 <= i < s.len() - 1 ==> s[i] != 0
}

/// The shape invariant of a 16-bit null-terminated string: at least one
/// unit, null exactly at the end, and every unit before the terminator a
/// legal non-null scalar.
pub open spec fn is_cstr16(s: Seq<u16>) -> bool {
    &&& s.len() >= 1
    &&& s[s.len() - 1] == 0
    &&& forall|i: int| 0 <= i < s.len() - 1 ==> s[i] != 0 && char16_is_valid(s[i])
}

/// Position of the first null byte in `s` at or after `i`; `s.len()` if
/// there is none.
pub open spec fn first_nul8(s: Seq<u8>, i: int) -> int
    decreases s.len() - i,
{
    if i < 0 || i >= s.len() {
        s.len() as int
    } else if s[i] == 0 {
        i
    } else {
        first_nul8(s, i + 1)
    }
}

/// What scanning a byte slice for a single trailing null yields: the slice
/// itself on success, or the error that classifies it.
pub open spec fn scan8_spec(s: Seq<u8>) -> Result<Seq<u8>, FromSliceWithNulError> {
    let p = first_nul8(s, 0);
    if p >= s.len() {
        Err(FromSliceWithNulError::NotNulTerminated)
    } else if p == s.len() - 1 {
        Ok(s)
    } else {
        Err(FromSliceWithNulError::InteriorNul(p as usize))
    }
}

/// Every byte strictly before the first null position is non-null, and the
/// first null position, when inside the sequence, holds a null byte.
proof fn lemma_first_nul8_clean(s: Seq<u8>, i: int)
    requires
        0 <= i <= s.len(),
    ensures
        i <= first_nul8(s, i) <= s.len(),
        forall|j: int| i <= j < first_nul8(s, i) ==> s[j] != 0,
        first_nul8(s, i) < s.len() ==> s[first_nul8(s, i)] == 0,
    decreases s.len() - i,
{
    if i < s.len() && s[i] != 0 {
        lemma_first_nul8_clean(s, i + 1);
    }
}

/// The byte scan succeeds exactly on well-shaped null-terminated byte
/// strings, and then yields the input itself.
pub proof fn lemma_scan8_ok_iff(s: Seq<u8>)
    ensures
        scan8_spec(s) == Ok::<Seq<u8>, FromSliceWithNulError>(s) <==> is_cstr8(s),
{
    lemma_first_nul8_clean(s, 0);
}

/// An 8-bit (Latin-1-like) null-terminated string.
///
/// The checked constructor only accepts slices whose single null byte is
/// the final byte, so every value of this type upholds [`is_cstr8`].
#[derive(Debug)]
pub struct CStr8 {
    bytes: Vec<u8>,
}

impl View for CStr8 {
    type V = Seq<u8>;

    closed spec fn view(&self) -> Seq<u8> {
        self.bytes@
    }
}

impl CStr8 {
    #[verifier::type_invariant]
    spec fn wf(self) -> bool {
        is_cstr8(self.bytes@)
    }

    /// Creates a string from bytes, scanning for the first null byte.
    /// Succeeds exactly when that null is the slice's last byte.
    pub fn from_bytes_with_nul(chars: &[u8]) -> (r: Result<CStr8, FromSliceWithNulError>)
        ensures
            match r {
                Ok(c) => scan8_spec(chars@) == Ok::<Seq<u8>, FromSliceWithNulError>(chars@)
                    && c@ == chars@,
                Err(e) => scan8_spec(chars@) == Err::<Seq<u8>, FromSliceWithNulError>(e),
            },
    {
        let len = chars.len();
        let mut i: usize = 0;
        while i < len
            invariant
                len == chars@.len(),
                0 <= i <= len,
                first_nul8(chars@, 0) == first_nul8(chars@, i as int),
                forall|j: int| 0 <= j < i ==> chars@[j] != 0,
            decreases len - i,
        {
            if *slice_index_get(chars, i) == 0 {
                if i + 1 != len {
                    return Err(FromSliceWithNulError::InteriorNul(i));
                }
                return Ok(CStr8 { bytes: slice_to_vec(chars) });
            }
            i = i + 1;
        }
        Err(FromSliceWithNulError::NotNulTerminated)
    }

    /// Wraps bytes already known to be a well-shaped null-terminated string,
    /// without scanning.
    pub fn from_bytes_with_nul_unchecked(chars: &[u8]) -> (r: CStr8)
        requires
            is_cstr8(chars@),
        ensures
            r@ == chars@,
    {
        CStr8 { bytes: slice_to_vec(chars) }
    }

    /// The string's bytes without the trailing null.
    pub fn to_bytes(&self) -> (r: &[u8])
        ensures
            r@ == self@.take(self@.len() - 1),
    {
        proof {
            use_type_invariant(self);
        }
        let chars = self.to_bytes_with_nul();
        slice_subrange(chars, 0, chars.len() - 1)
    }

    /// The string's bytes, trailing null included.
    pub fn to_bytes_with_nul(&self) -> (r: &[u8])
        ensures
            r@ == self@,
    {
        self.bytes.as_slice()
    }
}

/// Position of the first 16-bit unit at or after `i` that is null or not a
/// legal scalar; `s.len()` if there is none.
pub open spec fn first_special16(s: Seq<u16>, i: int) -> int
    decreases s.len() - i,
{
    if i < 0 || i >= s.len() {
        s.len() as int
    } else if s[i] == 0 || !char16_is_valid(s[i]) {
        i
    } else {
        first_special16(s, i + 1)
    }
}

/// What the left-to-right validation scan of a 16-bit slice yields. At the
/// first special position, an illegal scalar wins over any null
/// classification; a null unit succeeds only as the final element.
pub open spec fn scan16_spec(s: Seq<u16>) -> Result<Seq<u16>, FromSliceWithNulError> {
    let p = first_special16(s, 0);
    if p >= s.len() {
        Err(FromSliceWithNulError::NotNulTerminated)
    } else if !char16_is_valid(s[p]) {
        Err(FromSliceWithNulError::InvalidChar(p as usize))
    } else if p == s.len() - 1 {
        Ok(s)
    } else {
        Err(FromSliceWithNulError::InteriorNul(p as usize))
    }
}

/// Every unit strictly before the first special position is a legal
/// non-null scalar, and the first special position, when inside the
/// sequence, holds a null or illegal unit.
proof fn lemma_first_special16_clean(s: Seq<u16>, i: int)
    requires
        0 <= i <= s.len(),
    ensures
        i <= first_special16(s, i) <= s.len(),
        forall|j: int| i <= j < first_special16(s, i) ==> s[j] != 0 && char16_is_valid(s[j]),
        first_special16(s, i) < s.len() ==> (s[first_special16(s, i)] == 0
            || !char16_is_valid(s[first_special16(s, i)])),
    decreases s.len() - i,
{
    if i < s.len() && s[i] != 0 && char16_is_valid(s[i]) {
        lemma_first_special16_clean(s, i + 1);
    }
}

/// The validation scan succeeds exactly on well-shaped null-terminated
/// 16-bit strings, and then yields the input itself.
pub proof fn lemma_scan16_ok_iff(s: Seq<u16>)
    ensures
        scan16_spec(s) == Ok::<Seq<u16>, FromSliceWithNulError>(s) <==> is_cstr16(s),
{
    lemma_first_special16_clean(s, 0);
    if is_cstr16(s) {
        let p = first_special16(s, 0);
        if p < s.len() - 1 {
            assert(s[p] != 0 && char16_is_valid(s[p]));
        }
    }
}

/// A UCS-2 null-terminated string of validated 16-bit code units.
///
/// Every value upholds [`is_cstr16`] over its code-unit sequence, trailing
/// terminator included.
#[derive(Debug)]
pub struct CStr16 {
    units: Vec<Char16>,
}

impl View for CStr16 {
    type V = Seq<u16>;

    closed spec fn view(&self) -> Seq<u16> {
        self.units@.map_values(|c: Char16| c@)
    }
}

impl CStr16 {
    /// The invariant every string value upholds: its code-unit sequence is
    /// a well-shaped null-terminated string.
    #[verifier::type_invariant]
    pub open spec fn well_formed(self) -> bool {
        is_cstr16(self@)
    }

    /// Creates a string from a `u16` slice, validating every unit in one
    /// left-to-right scan.
    pub fn from_u16_with_nul(codes: &[u16]) -> (r: Result<CStr16, FromSliceWithNulError>)
        ensures
            match r {
                Ok(c) => scan16_spec(codes@) == Ok::<Seq<u16>, FromSliceWithNulError>(codes@)
                    && c@ == codes@,
                Err(e) => scan16_spec(codes@) == Err::<Seq<u16>, FromSliceWithNulError>(e),
            },
    {
        proof {
            assert(codes@.take(codes@.len() as int) =~= codes@);
        }
        match scan_prefix16(codes, codes.len()) {
            Ok(()) => {
                proof {
                    lemma_first_special16_clean(codes@, 0);
                }
                Ok(copy_cstr16(codes, codes.len()))
            },
            Err(e) => Err(e),
        }
    }

    /// Wraps code units already known to form a well-shaped null-terminated
    /// string, without scanning.
    pub fn from_u16_with_nul_unchecked(codes: &[u16]) -> (r: CStr16)
        requires
            is_cstr16(codes@),
        ensures
            r@ == codes@,
    {
        proof {
            assert(codes@.take(codes@.len() as int) =~= codes@);
        }
        copy_cstr16(codes, codes.len())
    }

    /// The underlying scalar slice, trailing null included.
    pub fn as_slice_with_nul(&self) -> (r: &[Char16])
        ensures
            r@.map_values(|c: Char16| c@) == self@,
    {
        self.units.as_slice()
    }

    /// The code units without the trailing null.
    pub fn to_u16_slice(&self) -> (r: Vec<u16>)
        ensures
            r@ == self@.take(self@.len() - 1),
    {
        proof {
            use_type_invariant(self);
        }
        let mut out = self.to_u16_slice_with_nul();
        out.pop();
        proof {
            assert(out@ =~= self@.take(self@.len() - 1));
        }
        out
    }

    /// The code units, trailing null included.
    pub fn to_u16_slice_with_nul(&self) -> (r: Vec<u16>)
        ensures
            r@ == self@,
    {
        let n = self.units.len();
        let mut out: Vec<u16> = Vec::new();
        let mut i: usize = 0;
        while i < n
            invariant
                n == self.units@.len(),
                0 <= i <= n,
                out@ =~= self@.take(i as int),
            decreases n - i,
        {
            out.push(self.units[i].to_u16());
            proof {
                assert(out@ =~= self@.take(i + 1));
            }
            i = i + 1;
        }
        proof {
            assert(self@.take(n as int) =~= self@);
        }
        out
    }

    /// Number of bytes taken by the code units, terminator included.
    pub fn num_bytes(&self) -> (r: usize)
        requires
            2 * self@.len() <= usize::MAX,
        ensures
            r == 2 * self@.len(),
    {
        self.units.len() * 2
    }
}

/// The UTF-16 encoding of one character: one code unit for scalars below
/// `0x10000`, else a surrogate pair.
pub open spec fn char_utf16(c: char) -> Seq<u16> {
    if (c as u32) < 0x10000 {
        seq![(c as u32) as u16]
    } else {
        seq![
            (0xD800 + ((c as u32) - 0x10000) / 0x400) as u16,
            (0xDC00 + ((c as u32) - 0x10000) % 0x400) as u16,
        ]
    }
}

/// The UTF-16 encoding of a character sequence, character by character.
pub open spec fn str_utf16(s: Seq<char>) -> Seq<u16>
    decreases s.len(),
{
    if s.len() == 0 {
        Seq::empty()
    } else {
        char_utf16(s[0]) + str_utf16(s.drop_first())
    }
}

/// UTF-16 encoding distributes over concatenation.
pub proof fn lemma_str_utf16_concat(a: Seq<char>, b: Seq<char>)
    ensures
        str_utf16(a + b) == str_utf16(a) + str_utf16(b),
    decreases a.len(),
{
    if a.len() == 0 {
        assert(a + b =~= b);
        assert(str_utf16(a) + str_utf16(b) =~= str_utf16(b));
    } else {
        assert((a + b).drop_first() =~= a.drop_first() + b);
        lemma_str_utf16_concat(a.drop_first(), b);
        assert((a + b)[0] == a[0]);
        assert(char_utf16(a[0]) + (str_utf16(a.drop_first()) + str_utf16(b)) =~= (char_utf16(a[0])
            + str_utf16(a.drop_first())) + str_utf16(b));
    }
}

/// The encoding of a sequence splits at any position.
pub proof fn lemma_str_utf16_split(s: Seq<char>, i: int)
    requires
        0 <= i <= s.len(),
    ensures
        str_utf16(s) == str_utf16(s.take(i)) + str_utf16(s.skip(i)),
{
    assert(s.take(i) + s.skip(i) =~= s);
    lemma_str_utf16_concat(s.take(i), s.skip(i));
}

/// Peeling one character off the unencoded tail.
proof fn lemma_str_utf16_step(s: Seq<char>, i: int)
    requires
        0 <= i < s.len(),
    ensures
        str_utf16(s.skip(i)) == char_utf16(s[i]) + str_utf16(s.skip(i + 1)),
{
    assert(s.skip(i)[0] == s[i]);
    assert(s.skip(i).drop_first() =~= s.skip(i + 1));
}

impl CStr16 {
    /// Encodes `input` into `buf` as UTF-16 code units followed by one null
    /// terminator, then re-validates the written prefix.
    ///
    /// Capacity is checked unit by unit before each write, so a too-small
    /// buffer is reported the instant a write would exceed it; characters
    /// that need a surrogate pair survive encoding but are rejected by the
    /// validation scan at the position of their first surrogate unit, and a
    /// null character in `input` is rejected as an interior null.
    pub fn from_str_with_buf(input: &str, buf: &mut Vec<u16>) -> (r: Result<
        CStr16,
        FromStrWithBufError,
    >)
        ensures
            final(buf)@.len() == old(buf)@.len(),
            ({
                let u = str_utf16(input@);
                let n = old(buf)@.len();
                if u.len() + 1 > n {
                    r == Err::<CStr16, FromStrWithBufError>(FromStrWithBufError::BufferTooSmall)
                        && final(buf)@ == u.take(n as int)
                } else {
                    let w = u.push(0u16);
                    &&& final(buf)@ == w + old(buf)@.skip(u.len() as int + 1)
                    &&& match r {
                        Ok(c) => c@ == w && scan16_spec(w) == Ok::<
                            Seq<u16>,
                            FromSliceWithNulError,
                        >(w),
                        Err(FromStrWithBufError::InvalidChar(p)) => scan16_spec(w) == Err::<
                            Seq<u16>,
                            FromSliceWithNulError,
                        >(FromSliceWithNulError::InvalidChar(p)),
                        Err(FromStrWithBufError::InteriorNul(p)) => scan16_spec(w) == Err::<
                            Seq<u16>,
                            FromSliceWithNulError,
                        >(FromSliceWithNulError::InteriorNul(p)),
                        Err(FromStrWithBufError::BufferTooSmall) => false,
                    }
                }
            }),
    {
        let ghost u = str_utf16(input@);
        let n = buf.len();
        let len_chars = input.unicode_len();
        let mut index: usize = 0;
        let mut ci: usize = 0;
        proof {
            lemma_str_utf16_split(input@, 0);
            assert(str_utf16(input@.take(0)) =~= Seq::<u16>::empty());
            assert(buf@ =~= str_utf16(input@.take(0)) + old(buf)@.skip(0));
        }
        while ci < len_chars
            invariant
                len_chars == input@.len(),
                0 <= ci <= len_chars,
                buf@.len() == n == old(buf)@.len(),
                u == str_utf16(input@),
                index == str_utf16(input@.take(ci as int)).len(),
                index <= n,
                buf@ == str_utf16(input@.take(ci as int)) + old(buf)@.skip(index as int),
                u == str_utf16(input@.take(ci as int)) + str_utf16(input@.skip(ci as int)),
            decreases len_chars - ci,
        {
            let ghost done = str_utf16(input@.take(ci as int));
            let c = input.get_char(ci);
            proof {
                vstd::utf8::char_is_scalar(c);
                lemma_str_utf16_step(input@, ci as int);
            }
            let v = c as u32;
            if v < 0x10000 {
                if index >= n {
                    proof {
                        assert(buf@ =~= u.take(n as int));
                    }
                    return Err(FromStrWithBufError::BufferTooSmall);
                }
                buf[index] = v as u16;
                proof {
                    assert(buf@ =~= (done + char_utf16(c)) + old(buf)@.skip(index + 1));
                }
                index = index + 1;
            } else {
                let rem = v - 0x10000;
                let high = 0xD800 + rem / 0x400;
                let low = 0xDC00 + rem % 0x400;
                if index >= n {
                    proof {
                        assert(buf@ =~= u.take(n as int));
                    }
                    return Err(FromStrWithBufError::BufferTooSmall);
                }
                buf[index] = high as u16;
                if index + 1 >= n {
                    proof {
                        assert(buf@ =~= u.take(n as int));
                    }
                    return Err(FromStrWithBufError::BufferTooSmall);
                }
                buf[index + 1] = low as u16;
                proof {
                    assert(buf@ =~= (done + char_utf16(c)) + old(buf)@.skip(index + 2));
                }
                index = index + 2;
            }
            proof {
                assert(input@.take(ci + 1) =~= input@.take(ci as int) + seq![input@[ci as int]]);
                lemma_str_utf16_concat(input@.take(ci as int), seq![input@[ci as int]]);
                assert(seq![input@[ci as int]].drop_first() =~= Seq::<char>::empty());
                assert(str_utf16(Seq::<char>::empty()) =~= Seq::<u16>::empty());
                assert(str_utf16(seq![input@[ci as int]]) =~= char_utf16(input@[ci as int]));
                lemma_str_utf16_split(input@, ci + 1);
            }
            ci = ci + 1;
        }
        proof {
            assert(input@.take(len_chars as int) =~= input@);
        }
        // Append the trailing null terminator.
        if index >= n {
            proof {
                assert(buf@ =~= u.take(n as int));
            }
            return Err(FromStrWithBufError::BufferTooSmall);
        }
        buf[index] = 0;
        let ghost w = u.push(0u16);
        proof {
            assert(buf@ =~= w + old(buf)@.skip(index + 1));
            assert(buf@.take(index + 1) =~= w);
        }
        // Validate the written prefix: this rejects surrogate units written
        // by multi-unit encoding and any null unit from the input itself.
        match scan_prefix16(buf.as_slice(), index + 1) {
            Ok(()) => {
                proof {
                    lemma_first_special16_clean(w, 0);
                }
                Ok(copy_cstr16(buf.as_slice(), index + 1))
            },
            Err(FromSliceWithNulError::InvalidChar(p)) => Err(FromStrWithBufError::InvalidChar(p)),
            Err(FromSliceWithNulError::InteriorNul(p)) => Err(FromStrWithBufError::InteriorNul(p)),
            Err(FromSliceWithNulError::NotNulTerminated) => {
                proof {
                    lemma_first_special16_clean(w, 0);
                    assert(w[w.len() - 1] == 0);
                    assert(false);
                }
                Err(FromStrWithBufError::BufferTooSmall)
            },
        }
    }
}

/// Scans the first `end` units of `codes` as [`scan16_spec`] describes,
/// without building a string.
fn scan_prefix16(codes: &[u16], end: usize) -> (r: Result<(), FromSliceWithNulError>)
    requires
        end <= codes@.len(),
    ensures
        ({
            let s = codes@.take(end as int);
            match r {
                Ok(()) => scan16_spec(s) == Ok::<Seq<u16>, FromSliceWithNulError>(s),
                Err(e) => scan16_spec(s) == Err::<Seq<u16>, FromSliceWithNulError>(e),
            }
        }),
{
    let ghost s = codes@.take(end as int);
    let mut i: usize = 0;
    while i < end
        invariant
            end <= codes@.len(),
            s == codes@.take(end as int),
            0 <= i <= end,
            first_special16(s, 0) == first_special16(s, i as int),
            forall|j: int| 0 <= j < i ==> s[j] != 0 && char16_is_valid(s[j]),
        decreases end - i,
    {
        let code = *slice_index_get(codes, i);
        if !(code < 0xD800 || code > 0xDFFF) {
            return Err(FromSliceWithNulError::InvalidChar(i));
        }
        if code == 0 {
            if i + 1 != end {
                return Err(FromSliceWithNulError::InteriorNul(i));
            }
            return Ok(());
        }
        i = i + 1;
    }
    Err(FromSliceWithNulError::NotNulTerminated)
}

/// Copies the first `end` units of `codes`, all known legal, into a string
/// value.
fn copy_cstr16(codes: &[u16], end: usize) -> (r: CStr16)
    requires
        end <= codes@.len(),
        is_cstr16(codes@.take(end as int)),
    ensures
        r@ == codes@.take(end as int),
{
    let ghost s = codes@.take(end as int);
    let mut units: Vec<Char16> = Vec::new();
    let mut i: usize = 0;
    while i < end
        invariant
            end <= codes@.len(),
            s == codes@.take(end as int),
            is_cstr16(s),
            0 <= i <= end,
            units@.len() == i,
            forall|j: int| 0 <= j < i ==> units@[j]@ == s[j],
        decreases end - i,
    {
        let code = *slice_index_get(codes, i);
        proof {
            assert(s[i as int] == code);
            assert(char16_is_valid(s[i as int]));
        }
        match Char16::from_u16(code) {
            Some(c) => {
                units.push(c);
            },
            None => {
                proof {
                    assert(false);
                }
            },
        }
        i = i + 1;
    }
    proof {
        let v = units@.map_values(|c: Char16| c@);
        assert forall|j: int| 0 <= j < s.len() implies v[j] == s[j] by {}
        assert(v =~= s);
    }
    CStr16 { units }
}

/// The characters the code units stand for, one character per unit.
pub open spec fn chars_of(units: Seq<u16>) -> Seq<char> {
    units.map_values(|u: u16| ((u as u32) as char))
}

/// Error reported by a text sink that refused a character.
#[derive(Clone, Copy, Debug, Eq, PartialEq)]
pub struct SinkError;

/// A destination for rendered text, written one character at a time.
///
/// An implementation either accepts a character, appending it to what it
/// has written, or refuses it and stays unchanged.
pub trait TextSink {
    /// The characters accepted so far.
    spec fn written(&self) -> Seq<char>;

    /// Writes one character.
    fn write_char(&mut self, c: char) -> (r: Result<(), SinkError>)
        ensures
            r is Ok ==> final(self).written() == old(self).written().push(c),
            r is Err ==> final(self).written() == old(self).written(),
    ;
}

/// A sink that accepts every character into a growable buffer.
pub struct CharBuffer {
    chars: Vec<char>,
}

impl CharBuffer {
    /// An empty buffer.
    pub fn new() -> (r: CharBuffer)
        ensures
            r.written() == Seq::<char>::empty(),
    {
        CharBuffer { chars: Vec::new() }
    }

    /// The characters written so far.
    pub fn chars(&self) -> (r: &Vec<char>)
        ensures
            r@ == self.written(),
    {
        &self.chars
    }
}

impl TextSink for CharBuffer {
    closed spec fn written(&self) -> Seq<char> {
        self.chars@
    }

    fn write_char(&mut self, c: char) -> (r: Result<(), SinkError>) {
        self.chars.push(c);
        Ok(())
    }
}

impl CStr16 {
    /// An iterator over the code units before the terminator. Each call
    /// yields a fresh iterator with its own position.
    pub fn iter(&self) -> (it: CStr16Iter<'_>)
        ensures
            it.str_view() == self@,
            it.pos_view() == 0,
    {
        CStr16Iter { inner: self, pos: 0 }
    }

    /// Writes each code unit before the terminator, as a character, to
    /// `buf`, one unit at a time; the first sink failure is returned at
    /// once, leaving the sink after the units it accepted.
    pub fn as_str_in_buf<S: TextSink>(&self, buf: &mut S) -> (r: Result<(), SinkError>)
        ensures
            r is Ok ==> final(buf).written() == old(buf).written() + chars_of(
                self@.take(self@.len() - 1),
            ),
            r is Err ==> exists|k: int|
                0 <= k < self@.len() - 1 && final(buf).written() == old(buf).written() + chars_of(
                    self@.take(k),
                ),
    {
        proof {
            use_type_invariant(self);
            assert(buf.written() =~= old(buf).written() + chars_of(self@.take(0)));
        }
        let n = self.units.len();
        let mut i: usize = 0;
        while i < n - 1
            invariant
                n == self.units@.len(),
                is_cstr16(self@),
                0 <= i <= n - 1,
                buf.written() == old(buf).written() + chars_of(self@.take(i as int)),
            decreases n - 1 - i,
        {
            let c16 = self.units[i];
            proof {
                assert(self@[i as int] == c16@);
            }
            let c = c16.to_char();
            proof {
                vstd::utf8::char_u32_cast(c, c16@ as u32);
            }
            match buf.write_char(c) {
                Ok(()) => {
                    proof {
                        assert(chars_of(self@.take(i + 1)) =~= chars_of(self@.take(i as int)).push(
                            c,
                        ));
                        assert(buf.written() =~= old(buf).written() + chars_of(self@.take(i + 1)));
                    }
                },
                Err(e) => {
                    proof {
                        assert(0 <= i < self@.len() - 1 && buf.written() == old(buf).written()
                            + chars_of(self@.take(i as int)));
                    }
                    return Err(e);
                },
            }
            i = i + 1;
        }
        Ok(())
    }
}

/// An iterator over the content of a [`CStr16`], yielding each code unit
/// before the terminator in order. Independent iterators over the same
/// string do not share position state.
#[derive(Debug)]
pub struct CStr16Iter<'a> {
    inner: &'a CStr16,
    pos: usize,
}

impl<'a> CStr16Iter<'a> {
    /// The code units being iterated, terminator included.
    pub closed spec fn str_view(&self) -> Seq<u16> {
        self.inner@
    }

    /// Position of the next code unit to yield.
    pub closed spec fn pos_view(&self) -> int {
        self.pos as int
    }

    /// The next code unit before the terminator, if any.
    pub fn next(&mut self) -> (r: Option<Char16>)
        ensures
            final(self).str_view() == old(self).str_view(),
            if old(self).pos_view() < old(self).str_view().len() - 1 {
                &&& r is Some
                &&& r->0@ == old(self).str_view()[old(self).pos_view()]
                &&& final(self).pos_view() == old(self).pos_view() + 1
            } else {
                r is None && final(self).pos_view() == old(self).pos_view()
            },
    {
        proof {
            use_type_invariant(self.inner);
        }
        if self.pos >= self.inner.units.len() - 1 {
            None
        } else {
            self.pos = self.pos + 1;
            Some(self.inner.units[self.pos - 1])
        }
    }
}

impl PartialEq for CStr16 {
    /// Structural equality over the full code-unit sequence, terminator
    /// included.
    fn eq(&self, other: &CStr16) -> (r: bool) {
        if self.units.len() != other.units.len() {
            proof {
                assert(self@ != other@) by {
                    assert(self@.len() != other@.len());
                }
            }
            return false;
        }
        let n = self.units.len();
        let mut i: usize = 0;
        while i < n
            invariant
                n == self.units@.len() == other.units@.len(),
                0 <= i <= n,
                forall|j: int| 0 <= j < i ==> self@[j] == other@[j],
            decreases n - i,
        {
            if self.units[i].to_u16() != other.units[i].to_u16() {
                proof {
                    assert(self@[i as int] != other@[i as int]);
                }
                return false;
            }
            i = i + 1;
        }
        proof {
            assert(self@ =~= other@);
        }
        true
    }
}

impl vstd::std_specs::cmp::PartialEqSpecImpl for CStr16 {
    open spec fn obeys_eq_spec() -> bool {
        true
    }

    open spec fn eq_spec(&self, other: &CStr16) -> bool {
        self@ == other@
    }
}

impl CStr16 {
    /// Wraps already-validated scalars in a string value.
    pub(crate) fn from_char16_vec(units: Vec<Char16>) -> (r: CStr16)
        requires
            is_cstr16(units@.map_values(|c: Char16| c@)),
        ensures
            r@ == units@.map_values(|c: Char16| c@),
    {
        CStr16 { units }
    }
}

/// Validation of a 16-bit slice is a pure function of its contents: two
/// outcomes that both satisfy the contract of
/// [`CStr16::from_u16_with_nul`] for the same input are equal.
pub proof fn lemma_from_u16_with_nul_pure(
    s: Seq<u16>,
    r1: Result<Seq<u16>, FromSliceWithNulError>,
    r2: Result<Seq<u16>, FromSliceWithNulError>,
)
    requires
        r1 == scan16_spec(s),
        r2 == scan16_spec(s),
    ensures
        r1 == r2,
{
}

/// Validation of a byte slice is a pure function of its contents: two
/// outcomes that both satisfy the contract of
/// [`CStr8::from_bytes_with_nul`] for the same input are equal.
pub proof fn lemma_from_bytes_with_nul_pure(
    s: Seq<u8>,
    r1: Result<Seq<u8>, FromSliceWithNulError>,
    r2: Result<Seq<u8>, FromSliceWithNulError>,
)
    requires
        r1 == scan8_spec(s),
        r2 == scan8_spec(s),
    ensures
        r1 == r2,
{
}

} // verus!
