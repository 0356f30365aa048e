use uefi::CStr16;
use uefi::Daylight;
use uefi::FileAttribute;
use uefi::FileInfo;
use uefi::FileInfoCreationError;
use uefi::FileSystemInfo;
use uefi::FileSystemVolumeLabel;
use uefi::Time;

fn name_from(text: &str) -> CStr16 {
    let mut buf = vec![0u16; 32];
    CStr16::from_str_with_buf(text, &mut buf).unwrap()
}

#[test]
fn test_file_info() {
    let mut storage = vec![0; 128];

    let file_size = 123;
    let physical_size = 456;
    let create_time = Time::new(1970, 1, 1, 0, 0, 0, 0, 0, Daylight::in_daylight());
    let last_access_time = Time::new(1971, 1, 1, 0, 0, 0, 0, 0, Daylight::in_daylight());
    let modification_time = Time::new(1972, 1, 1, 0, 0, 0, 0, 0, Daylight::in_daylight());
    let attribute = FileAttribute::from_bits(1);
    let name = name_from("test_name");
    let info = FileInfo::new(
        &mut storage,
        file_size,
        physical_size,
        create_time,
        last_access_time,
        modification_time,
        attribute,
        &name,
    )
    .unwrap();

    //   Header size: 80 bytes
    // + Name size (including trailing null): 20 bytes
    // = 100
    // Round size up to match the record alignment of 8: 104
    assert_eq!(info.header.size, 104);

    assert_eq!(info.file_size(), file_size);
    assert_eq!(info.physical_size(), physical_size);
    assert_eq!(info.create_time(), &create_time);
    assert_eq!(info.last_access_time(), &last_access_time);
    assert_eq!(info.modification_time(), &modification_time);
    assert_eq!(info.attribute(), attribute);
    assert_eq!(info.file_name(), &name);
}

#[test]
fn test_file_system_info() {
    let mut storage = vec![0; 128];

    let read_only = false;
    let volume_size = 123;
    let free_space = 456;
    let block_size = 789;
    let name = name_from("test_name");
    let info = FileSystemInfo::new(
        &mut storage,
        read_only,
        volume_size,
        free_space,
        block_size,
        &name,
    )
    .unwrap();

    //   Header size: 40 bytes
    // + Name size (including trailing null): 20 bytes
    // = 60
    // Round size up to match the record alignment of 8: 64
    assert_eq!(info.header.size, 64);

    assert_eq!(info.read_only(), read_only);
    assert_eq!(info.volume_size(), volume_size);
    assert_eq!(info.free_space(), free_space);
    assert_eq!(info.block_size(), block_size);
    assert_eq!(info.volume_label(), &name);
}

#[test]
fn test_file_system_volume_label() {
    let mut storage = vec![0; 128];

    let name = name_from("test_name");
    let info = FileSystemVolumeLabel::new(&mut storage, &name).unwrap();

    assert_eq!(info.volume_label(), &name);
}

#[test]
fn test_file_info_insufficient_storage() {
    // A 9-character name needs 80 + 20 = 100 bytes; anything smaller is
    // refused with the needed size.
    let mut storage = vec![0; 99];
    let name = name_from("test_name");
    let err = FileInfo::new(
        &mut storage,
        123,
        456,
        Time::new(1970, 1, 1, 0, 0, 0, 0, 0, Daylight::in_daylight()),
        Time::new(1970, 1, 1, 0, 0, 0, 0, 0, Daylight::in_daylight()),
        Time::new(1970, 1, 1, 0, 0, 0, 0, 0, Daylight::in_daylight()),
        FileAttribute::from_bits(0),
        &name,
    )
    .unwrap_err();
    assert_eq!(err, FileInfoCreationError::InsufficientStorage(100));
    // Nothing was written.
    assert!(storage.iter().all(|&b| b == 0));
}

#[test]
fn test_file_info_decode_after_encode() {
    let mut storage = vec![0; 128];
    let create_time = Time::new(1999, 12, 31, 23, 59, 58, 321, -60, Daylight::from_bits(1));
    let other_time = Time::new(2001, 2, 3, 4, 5, 6, 7, 120, Daylight::from_bits(2));
    let name = name_from("report.txt");
    let encoded = FileInfo::new(
        &mut storage,
        4096,
        8192,
        create_time,
        other_time,
        other_time,
        FileAttribute::from_bits(0x20),
        &name,
    )
    .unwrap();

    let decoded = FileInfo::from_uefi(&storage).unwrap();
    assert_eq!(decoded.header, encoded.header);
    assert_eq!(decoded.file_size(), 4096);
    assert_eq!(decoded.physical_size(), 8192);
    assert_eq!(decoded.create_time(), &create_time);
    assert_eq!(decoded.last_access_time(), &other_time);
    assert_eq!(decoded.modification_time(), &other_time);
    assert_eq!(decoded.attribute(), FileAttribute::from_bits(0x20));
    assert_eq!(decoded.file_name(), &name);
}

#[test]
fn test_file_system_info_decode_after_encode() {
    let mut storage = vec![0; 128];
    let name = name_from("DATA");
    FileSystemInfo::new(&mut storage, true, 1_000_000, 250_000, 512, &name).unwrap();

    let decoded = FileSystemInfo::from_uefi(&storage).unwrap();
    assert!(decoded.read_only());
    assert_eq!(decoded.volume_size(), 1_000_000);
    assert_eq!(decoded.free_space(), 250_000);
    assert_eq!(decoded.block_size(), 512);
    assert_eq!(decoded.volume_label(), &name);
    // 40 header bytes + 10 name bytes = 50, rounded up to 56.
    assert_eq!(decoded.header.size, 56);
}

#[test]
fn test_volume_label_decode_after_encode() {
    let mut storage = vec![0; 16];
    let name = name_from("V");
    FileSystemVolumeLabel::new(&mut storage, &name).unwrap();
    assert_eq!(&storage[..4], &[86, 0, 0, 0]);

    let decoded = FileSystemVolumeLabel::from_uefi(&storage).unwrap();
    assert_eq!(decoded.volume_label(), &name);
}

#[test]
fn test_volume_label_empty_name_round_trip() {
    let mut storage = vec![0xFFu8; 8];
    let name = name_from("");
    let info = FileSystemVolumeLabel::new(&mut storage, &name).unwrap();
    assert_eq!(info.volume_label().num_bytes(), 2);
    assert_eq!(&storage[..2], &[0, 0]);

    let decoded = FileSystemVolumeLabel::from_uefi(&storage).unwrap();
    assert_eq!(decoded.volume_label(), &name);
}

#[test]
fn test_from_uefi_rejects_malformed_buffers() {
    // Shorter than the header.
    let short = vec![0u8; 10];
    assert!(FileInfo::from_uefi(&short).is_none());

    // Long enough for the header but no terminator follows.
    let mut no_nul = vec![0u8; 84];
    no_nul[80] = 65;
    no_nul[81] = 0;
    no_nul[82] = 66;
    no_nul[83] = 0;
    assert!(FileInfo::from_uefi(&no_nul).is_none());

    // A surrogate unit stands before the terminator.
    let mut bad_unit = vec![0u8; 84];
    bad_unit[80] = 0x00;
    bad_unit[81] = 0xD8;
    bad_unit[82] = 0;
    bad_unit[83] = 0;
    assert!(FileInfo::from_uefi(&bad_unit).is_none());
}

#[test]
fn test_file_info_layout_bytes() {
    let mut storage = vec![0u8; 128];
    let time = Time::new(1970, 1, 1, 0, 0, 0, 0, 0, Daylight::from_bits(0));
    let name = name_from("A");
    FileInfo::new(
        &mut storage,
        0x0102030405060708,
        0,
        time,
        time,
        time,
        FileAttribute::from_bits(1),
        &name,
    )
    .unwrap();

    // Size field: 80 + 4 = 84, rounded up to 88, little-endian.
    assert_eq!(&storage[0..8], &[88, 0, 0, 0, 0, 0, 0, 0]);
    // File size, little-endian.
    assert_eq!(&storage[8..16], &[8, 7, 6, 5, 4, 3, 2, 1]);
    // Year 1970 little-endian at the start of the first timestamp.
    assert_eq!(&storage[24..26], &[0xB2, 0x07]);
    // Attribute bits.
    assert_eq!(&storage[72..80], &[1, 0, 0, 0, 0, 0, 0, 0]);
    // Name units: 'A', then the terminator.
    assert_eq!(&storage[80..84], &[65, 0, 0, 0]);
}
