//! Decoding the boot sector into its geometry fields.
use vstd::prelude::*;

use crate::endian::{le16_spec, le32_spec, read_le16, read_le32};
use crate::errors::FatError;

verus! {

/// How many bytes of the volume the boot-sector decoder requires: the boot
/// sector is the first fixed-size region and must be fully present.
pub const BOOT_SECTOR_LEN: usize = 256;

/// The geometry fields read from fixed little-endian offsets of the boot
/// sector. Transient: consumed once to compute the volume layout.
#[derive(Debug, Clone, Copy, PartialEq, Eq, Structural)]
pub struct BootRecord {
    /// Bytes per sector, offset 0x0B, 2 bytes.
    pub bytes_per_sector: u16,
    /// Sectors per cluster, offset 0x0D, 1 byte.
    pub sectors_per_cluster: u8,
    /// Reserved sectors before the first file-allocation-table copy, offset 0x0E, 2 bytes.
    pub reserved_sectors: u16,
    /// Number of file-allocation-table copies, offset 0x10, 1 byte.
    pub fat_copies: u8,
    /// Sectors per file-allocation-table copy, offset 0x24, 4 bytes.
    pub sectors_per_fat: u32,
    /// Cluster number where the root directory starts, offset 0x2C, 4 bytes.
    pub root_directory_cluster_start: u32,
    /// Sector number of the filesystem-information sector, offset 0x30, 2 bytes.
    pub fs_info_sector: u16,
}

/// The boot record that a boot sector `b` holds, field by field.
pub open spec fn boot_record_spec(b: Seq<u8>) -> BootRecord {
    BootRecord {
        bytes_per_sector: le16_spec(b, 0x0B) as u16,
        sectors_per_cluster: b[0x0D],
        reserved_sectors: le16_spec(b, 0x0E) as u16,
        fat_copies: b[0x10],
        sectors_per_fat: le32_spec(b, 0x24) as u32,
        root_directory_cluster_start: le32_spec(b, 0x2C) as u32,
        fs_info_sector: le16_spec(b, 0x30) as u16,
    }
}

/// Decodes the boot sector. `bytes` must hold the whole first fixed-size
/// region of the volume; a shorter buffer is a truncated image and is
/// rejected. No signature or filesystem-type validation is performed.
pub fn parse_boot_record(bytes: &Vec<u8>) -> (r: Result<BootRecord, FatError>)
    ensures
        bytes@.len() >= BOOT_SECTOR_LEN ==> r == Ok::<BootRecord, FatError>(
            boot_record_spec(bytes@),
        ),
        bytes@.len() < BOOT_SECTOR_LEN ==> r == Err::<BootRecord, FatError>(FatError::ReadError),
{
    if bytes.len() < BOOT_SECTOR_LEN {
        return Err(FatError::ReadError);
    }
    Ok(
        BootRecord {
            bytes_per_sector: read_le16(bytes, 0x0B),
            sectors_per_cluster: bytes[0x0D],
            reserved_sectors: read_le16(bytes, 0x0E),
            fat_copies: bytes[0x10],
            sectors_per_fat: read_le32(bytes, 0x24),
            root_directory_cluster_start: read_le32(bytes, 0x2C),
            fs_info_sector: read_le16(bytes, 0x30),
        },
    )
}

} // verus!
