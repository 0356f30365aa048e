use uefi::strs::{CharBuffer, TextSink};
use uefi::Char16;
use uefi::CStr16;
use uefi::CStr8;
use uefi::FromSliceWithNulError;
use uefi::FromStrWithBufError;

#[test]
fn test_cstr16_num_bytes() {
    let s = CStr16::from_u16_with_nul(&[65, 66, 67, 0]).unwrap();
    assert_eq!(s.num_bytes(), 8);
}

#[test]
fn test_cstr16_from_str_with_buf() {
    let mut buf = vec![0u16; 4];

    // OK: buf is exactly the right size.
    let s = CStr16::from_str_with_buf("ABC", &mut buf).unwrap();
    assert_eq!(s.to_u16_slice_with_nul(), [65, 66, 67, 0]);

    // OK: buf is bigger than needed.
    let s = CStr16::from_str_with_buf("A", &mut buf).unwrap();
    assert_eq!(s.to_u16_slice_with_nul(), [65, 0]);

    // Error: buf is too small.
    assert_eq!(
        CStr16::from_str_with_buf("ABCD", &mut buf).unwrap_err(),
        FromStrWithBufError::BufferTooSmall
    );

    // Error: invalid character.
    assert_eq!(
        CStr16::from_str_with_buf("a😀", &mut buf).unwrap_err(),
        FromStrWithBufError::InvalidChar(1),
    );

    // Error: interior null.
    assert_eq!(
        CStr16::from_str_with_buf("a\0b", &mut buf).unwrap_err(),
        FromStrWithBufError::InteriorNul(1),
    );
}

#[test]
fn test_cstr16_from_u16_with_nul_classification() {
    // No null unit at all.
    assert_eq!(
        CStr16::from_u16_with_nul(&[65, 66]).unwrap_err(),
        FromSliceWithNulError::NotNulTerminated
    );

    // A null before the final position.
    assert_eq!(
        CStr16::from_u16_with_nul(&[65, 0, 66, 0]).unwrap_err(),
        FromSliceWithNulError::InteriorNul(1)
    );

    // A surrogate unit is rejected where it stands.
    assert_eq!(
        CStr16::from_u16_with_nul(&[65, 0xD800, 0]).unwrap_err(),
        FromSliceWithNulError::InvalidChar(1)
    );

    // An invalid unit wins over a later terminator determination.
    assert_eq!(
        CStr16::from_u16_with_nul(&[0xDFFF]).unwrap_err(),
        FromSliceWithNulError::InvalidChar(0)
    );

    // A null only at the end, everything before it legal.
    let s = CStr16::from_u16_with_nul(&[72, 105, 0]).unwrap();
    assert_eq!(s.to_u16_slice(), [72, 105]);
    assert_eq!(s.as_slice_with_nul().len(), 3);
}

#[test]
fn test_cstr16_single_terminator() {
    let s = CStr16::from_u16_with_nul(&[0]).unwrap();
    assert_eq!(s.num_bytes(), 2);
    assert_eq!(s.to_u16_slice(), []);
}

#[test]
fn test_cstr16_from_str_with_buf_terminator_needs_room() {
    // Three characters fill the buffer entirely: no room for the null.
    let mut buf = vec![0u16; 3];
    assert_eq!(
        CStr16::from_str_with_buf("ABC", &mut buf).unwrap_err(),
        FromStrWithBufError::BufferTooSmall
    );
}

#[test]
fn test_cstr16_unchecked_and_equality() {
    let a = CStr16::from_u16_with_nul_unchecked(&[65, 66, 0]);
    let b = CStr16::from_u16_with_nul(&[65, 66, 0]).unwrap();
    let c = CStr16::from_u16_with_nul(&[65, 67, 0]).unwrap();
    assert_eq!(a, b);
    assert!(a != c);
}

#[test]
fn test_cstr16_iter() {
    let s = CStr16::from_u16_with_nul(&[72, 105, 0]).unwrap();
    let mut it = s.iter();
    assert_eq!(it.next().map(|c| c.to_u16()), Some(72));
    // A second iterator starts from the beginning, unaffected by the first.
    let mut it2 = s.iter();
    assert_eq!(it2.next().map(|c| c.to_u16()), Some(72));
    assert_eq!(it.next().map(|c| c.to_u16()), Some(105));
    assert_eq!(it.next(), None);
    assert_eq!(it2.next().map(|c| c.to_u16()), Some(105));
    assert_eq!(it2.next(), None);
}

#[test]
fn test_cstr16_as_str_in_buf() {
    let s = CStr16::from_u16_with_nul(&[72, 105, 33, 0]).unwrap();
    let mut sink = CharBuffer::new();
    s.as_str_in_buf(&mut sink).unwrap();
    assert_eq!(sink.chars().as_slice(), ['H', 'i', '!']);
}

#[test]
fn test_cstr16_write_through_sink_trait() {
    let s = CStr16::from_u16_with_nul(&[65, 0]).unwrap();
    let mut sink = CharBuffer::new();
    // Calling through the trait exercises the same path as any other sink.
    TextSink::write_char(&mut sink, 'x').unwrap();
    s.as_str_in_buf(&mut sink).unwrap();
    assert_eq!(sink.chars().as_slice(), ['x', 'A']);
}

#[test]
fn test_cstr8_from_bytes_with_nul() {
    let s = CStr8::from_bytes_with_nul(&[104, 105, 0]).unwrap();
    assert_eq!(s.to_bytes(), [104, 105]);
    assert_eq!(s.to_bytes_with_nul(), [104, 105, 0]);

    assert_eq!(
        CStr8::from_bytes_with_nul(&[104, 0, 105, 0]).unwrap_err(),
        FromSliceWithNulError::InteriorNul(1)
    );
    assert_eq!(
        CStr8::from_bytes_with_nul(&[104, 105]).unwrap_err(),
        FromSliceWithNulError::NotNulTerminated
    );
}

#[test]
fn test_cstr8_unchecked() {
    let s = CStr8::from_bytes_with_nul_unchecked(&[120, 0]);
    assert_eq!(s.to_bytes(), [120]);
}

#[test]
fn test_char16_checked_conversion() {
    assert!(Char16::from_u16(0xD800).is_none());
    assert!(Char16::from_u16(0xDFFF).is_none());
    let c = Char16::from_u16(0xE000).unwrap();
    assert_eq!(c.to_u16(), 0xE000);
    assert_eq!(Char16::nul().to_u16(), 0);
    assert_eq!(Char16::from_u16(65).unwrap().to_char(), 'A');
}

#[test]
fn test_cstr16_from_str_with_buf_partial_write() {
    // Encoding stops the instant a write would exceed the buffer; the
    // units encoded up to that point stay written.
    let mut buf = vec![9u16; 2];
    assert_eq!(
        CStr16::from_str_with_buf("XYZ", &mut buf).unwrap_err(),
        FromStrWithBufError::BufferTooSmall
    );
    assert_eq!(buf, ['X' as u16, 'Y' as u16]);

    // A surrogate pair is written unit by unit, so it can be split by the
    // capacity check.
    let mut small = vec![0u16; 1];
    assert_eq!(
        CStr16::from_str_with_buf("😀", &mut small).unwrap_err(),
        FromStrWithBufError::BufferTooSmall
    );
    assert_eq!(small, [0xD83D]);
}
