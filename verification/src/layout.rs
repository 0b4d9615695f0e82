//! Volume geometry derived from the boot record, and cluster addressing.
use vstd::prelude::*;

use crate::boot::BootRecord;
use crate::errors::FatError;

verus! {

/// Derived volume geometry. Created once from the boot record and immutable
/// thereafter; all cluster addressing goes through it.
#[derive(Debug, Clone, Copy, PartialEq, Eq, Structural)]
pub struct FileSystemLayout {
    /// Sector index where the file-allocation-table region begins.
    pub fat_start: u64,
    /// Byte offset where the data/cluster region begins.
    pub clusters_start: u64,
    /// Sectors per cluster, copied from the boot record.
    pub sectors_per_cluster: u64,
    /// Bytes per cluster: sectors per cluster times bytes per sector.
    pub cluster_size: u64,
    /// Cluster number of the root directory.
    pub root_dir: u64,
}

impl FileSystemLayout {
    /// A usable layout addresses at least one byte per cluster.
    pub open spec fn wf(self) -> bool {
        self.cluster_size > 0 && self.sectors_per_cluster > 0
    }
}

/// A boot record whose geometry cannot address any cluster: either factor of
/// the cluster size is zero.
pub open spec fn degenerate(br: BootRecord) -> bool {
    br.bytes_per_sector == 0 || br.sectors_per_cluster == 0
}

/// Derives the volume layout from a boot record. Pure arithmetic, no reads.
/// A geometry whose cluster size would be zero is rejected rather than
/// letting later addressing divide or multiply by zero.
pub fn compute_layout(br: &BootRecord) -> (r: Result<FileSystemLayout, FatError>)
    ensures
        degenerate(*br) <==> r == Err::<FileSystemLayout, FatError>(FatError::DegenerateLayout),
        !degenerate(*br) ==> (r matches Ok(l) && {
            &&& l.fat_start == br.reserved_sectors
            &&& l.clusters_start == (br.reserved_sectors as int + br.fat_copies as int
                * br.sectors_per_fat as int) * br.bytes_per_sector as int
            &&& l.sectors_per_cluster == br.sectors_per_cluster
            &&& l.cluster_size == br.sectors_per_cluster as int * br.bytes_per_sector as int
            &&& l.root_dir == br.root_directory_cluster_start
            &&& l.wf()
        }),
{
    if br.bytes_per_sector == 0 || br.sectors_per_cluster == 0 {
        return Err(FatError::DegenerateLayout);
    }
    let bps = br.bytes_per_sector as u64;
    proof {
        assert(br.fat_copies as int * br.sectors_per_fat as int <= 0xFF * 0xFFFF_FFFF)
            by (nonlinear_arith)
            requires
                br.fat_copies <= 0xFF,
                br.sectors_per_fat <= 0xFFFF_FFFF,
        ;
        assert((br.reserved_sectors as int + br.fat_copies as int * br.sectors_per_fat as int)
            * br.bytes_per_sector as int <= (0xFFFF + 0xFF * 0xFFFF_FFFF) * 0xFFFF)
            by (nonlinear_arith)
            requires
                br.reserved_sectors <= 0xFFFF,
                br.bytes_per_sector <= 0xFFFF,
                br.fat_copies as int * br.sectors_per_fat as int <= 0xFF * 0xFFFF_FFFF,
        ;
        assert(br.sectors_per_cluster as int * br.bytes_per_sector as int <= 0xFF * 0xFFFF)
            by (nonlinear_arith)
            requires
                br.sectors_per_cluster <= 0xFF,
                br.bytes_per_sector <= 0xFFFF,
        ;
        assert(br.sectors_per_cluster as int * br.bytes_per_sector as int > 0)
            by (nonlinear_arith)
            requires
                br.sectors_per_cluster > 0,
                br.bytes_per_sector > 0,
        ;
    }
    let fat_sectors = br.fat_copies as u64 * br.sectors_per_fat as u64;
    let layout = FileSystemLayout {
        fat_start: br.reserved_sectors as u64,
        clusters_start: (br.reserved_sectors as u64 + fat_sectors) * bps,
        sectors_per_cluster: br.sectors_per_cluster as u64,
        cluster_size: br.sectors_per_cluster as u64 * bps,
        root_dir: br.root_directory_cluster_start as u64,
    };
    Ok(layout)
}

/// The absolute byte offset of cluster `n`: the data region starts at
/// `clusters_start` and holds clusters numbered from 2 upward, each
/// `cluster_size` bytes long.
pub open spec fn cluster_offset_spec(l: FileSystemLayout, n: u64) -> int {
    l.clusters_start + (n - 2) * l.cluster_size
}

impl FileSystemLayout {
    /// Computes the absolute byte offset of cluster `n`. Cluster numbers
    /// below 2 are outside the data-region numbering and are rejected; an
    /// offset beyond the addressable range is unreachable and is reported as
    /// a seek failure.
    pub fn cluster_offset(&self, cluster_number: u64) -> (r: Result<u64, FatError>)
        ensures
            cluster_number < 2 ==> r == Err::<u64, FatError>(FatError::InvalidClusterNumber),
            cluster_number >= 2 && cluster_offset_spec(*self, cluster_number) <= u64::MAX ==> r
                == Ok::<u64, FatError>(cluster_offset_spec(*self, cluster_number) as u64),
            cluster_number >= 2 && cluster_offset_spec(*self, cluster_number) > u64::MAX ==> r
                == Err::<u64, FatError>(FatError::SeekFailure),
    {
        if cluster_number < 2 {
            return Err(FatError::InvalidClusterNumber);
        }
        match (cluster_number - 2).checked_mul(self.cluster_size) {
            Some(span) => match self.clusters_start.checked_add(span) {
                Some(offset) => Ok(offset),
                None => Err(FatError::SeekFailure),
            },
            None => {
                proof {
                    assert((cluster_number - 2) * self.cluster_size > u64::MAX ==> self
                        .clusters_start + (cluster_number - 2) * self.cluster_size > u64::MAX);
                }
                Err(FatError::SeekFailure)
            },
        }
    }
}

/// The first data cluster, number 2, starts exactly where the data region
/// starts: the cluster-number bias cancels and no offset is added.
pub proof fn lemma_first_cluster_at_data_start(l: FileSystemLayout)
    ensures
        cluster_offset_spec(l, 2) == l.clusters_start,
{
}

/// Consecutive clusters address contiguous, non-overlapping byte ranges:
/// the range of cluster `n` is `[offset(n), offset(n) + cluster_size)` and
/// the range of cluster `n + 1` begins exactly where it ends.
pub proof fn lemma_clusters_contiguous(l: FileSystemLayout, n: u64)
    requires
        2 <= n < u64::MAX,
    ensures
        cluster_offset_spec(l, (n + 1) as u64) == cluster_offset_spec(l, n) + l.cluster_size,
{
    let m = (n + 1) as u64;
    assert((m - 2) * l.cluster_size == (n - 2) * l.cluster_size + l.cluster_size)
        by (nonlinear_arith)
        requires
            m == n + 1,
            n >= 2,
    ;
}

} // verus!
