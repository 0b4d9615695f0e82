//! Read-only decoder for a FAT-style filesystem image: boot-sector parsing,
//! volume-layout arithmetic, cluster addressing, and directory-entry decoding.
pub mod boot;
pub mod dir;
pub mod endian;
pub mod errors;
pub mod layout;

pub use boot::{parse_boot_record, BootRecord};
pub use dir::{get_entries, parse_directory_entry, DirectoryEntry};
pub use errors::FatError;
pub use layout::{compute_layout, FileSystemLayout};
