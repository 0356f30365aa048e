//! Safe, verified views and codecs for firmware-defined binary data:
//! null-terminated fixed-width-character strings (8-bit and 16-bit code
//! units) and variable-length records made of a fixed header followed by a
//! trailing null-terminated 16-bit name.

pub mod cfg;
pub mod chars;
pub mod guid;
pub mod info;
pub mod layout;
pub mod strs;
pub mod time;

pub use cfg::MemoryProtectionAttribute;
pub use cfg::PropertiesTable;
pub use chars::Char16;
pub use guid::Guid;
pub use guid::Identify;
pub use info::Align;
pub use info::FileAttribute;
pub use info::FileInfo;
pub use info::FileInfoCreationError;
pub use info::FileInfoHeader;
pub use info::FileProtocolInfo;
pub use info::FileSystemInfo;
pub use info::FileSystemInfoHeader;
pub use info::FileSystemVolumeLabel;
pub use info::FileSystemVolumeLabelHeader;
pub use info::InfoHeader;
pub use info::NamedFileProtocolInfo;
pub use strs::CStr16;
pub use strs::CStr16Iter;
pub use strs::CStr8;
pub use strs::FromSliceWithNulError;
pub use strs::FromStrWithBufError;
pub use time::Daylight;
pub use time::Time;
