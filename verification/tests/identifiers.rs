use uefi::guid::{parse_guid, GuidParseError};
use uefi::Align;
use uefi::FileInfo;
use uefi::FileSystemInfo;
use uefi::FileSystemVolumeLabel;
use uefi::Guid;
use uefi::Identify;
use uefi::MemoryProtectionAttribute;
use uefi::PropertiesTable;

#[test]
fn test_parse_guid_canonical() {
    let g = parse_guid("12345678-9abc-def0-fedc-ba9876543210").unwrap();
    assert_eq!(
        g,
        Guid::from_values(0x12345678, 0x9abc, 0xdef0, 0xfedc, 0xba9876543210)
    );
}

#[test]
fn test_parse_guid_mixed_case_and_known_values() {
    let g = parse_guid("09576e92-6D3F-11d2-8E39-00a0c969723b").unwrap();
    assert_eq!(
        g,
        Guid::from_values(0x09576e92, 0x6d3f, 0x11d2, 0x8e39, 0x00a0c969723b)
    );
}

#[test]
fn test_parse_guid_errors() {
    assert_eq!(
        parse_guid("1234").unwrap_err(),
        GuidParseError::NotCanonicalLength(4)
    );
    // A separator out of place.
    assert_eq!(
        parse_guid("123456789-abc-def0-fedc-ba9876543210").unwrap_err(),
        GuidParseError::BadGroup(8)
    );
    // A non-hexadecimal character inside a group.
    assert_eq!(
        parse_guid("1234567g-9abc-def0-fedc-ba9876543210").unwrap_err(),
        GuidParseError::BadGroup(0)
    );
    assert_eq!(
        parse_guid("12345678-9abc-def0-fedc-ba98765432zz").unwrap_err(),
        GuidParseError::BadGroup(24)
    );
}

#[test]
fn test_record_identifiers() {
    assert_eq!(
        <FileInfo as Identify>::guid(),
        Guid::from_values(0x09576e92, 0x6d3f, 0x11d2, 0x8e39, 0x00a0c969723b)
    );
    assert_eq!(
        <FileSystemInfo as Identify>::guid(),
        Guid::from_values(0x09576e93, 0x6d3f, 0x11d2, 0x8e39, 0x00a0c969723b)
    );
    assert_eq!(
        <FileSystemVolumeLabel as Identify>::guid(),
        Guid::from_values(0xdb47d7d3, 0xfe81, 0x11d3, 0x9a35, 0x0090273fc14d)
    );
}

#[test]
fn test_record_alignment() {
    assert_eq!(<FileInfo as Align>::alignment(), 8);
    assert_eq!(<FileSystemInfo as Align>::alignment(), 8);
    // The volume label record is aligned for its name units alone.
    assert_eq!(<FileSystemVolumeLabel as Align>::alignment(), 2);
}

#[test]
fn test_properties_table() {
    let table = PropertiesTable {
        version: 0x10000,
        length: 16,
        memory_protection: MemoryProtectionAttribute::non_executable_data(),
    };
    assert_eq!(table.memory_protection, MemoryProtectionAttribute::from_bits(1));
    assert_eq!(table.version, 0x10000);
    assert_eq!(table.length, 16);
}
