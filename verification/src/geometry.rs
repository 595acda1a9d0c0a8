use vstd::prelude::*;

use crate::fat::Header;

verus! {

/// Logical block address of the partition's boot sector on the device.
pub const PARTITION_START_LBA: u64 = 36864;

/// Number of sectors reserved for the root-directory region in this on-disk
/// layout, a fixed constant of the format variant in use.
pub const ROOT_DIR_SECTORS: u64 = 32;

/// Sector address of the allocation table: the partition start plus the
/// reserved sectors.
pub open spec fn spec_fat_lba(h: Header) -> int {
    PARTITION_START_LBA + h.reserved_sectors
}

/// Sector address of the root directory: the allocation-table address plus
/// all table copies.
pub open spec fn spec_root_dir_lba(h: Header) -> int {
    spec_fat_lba(h) + h.sectors_per_fat * h.fat_count
}

/// Number of sectors the declared directory occupies, rounded up so that a
/// directory whose byte size is not sector-aligned is still read whole.
pub open spec fn spec_root_dir_sector_count(h: Header) -> int
    recommends
        h.bytes_per_sector >= 1,
{
    (32 * h.dir_entries_count + h.bytes_per_sector - 1) / (h.bytes_per_sector as int)
}

/// Sector address of the data region: the root directory's address plus the
/// sectors reserved for it.
pub open spec fn spec_data_lba(h: Header) -> int {
    spec_root_dir_lba(h) + ROOT_DIR_SECTORS
}

/// Sector address of a data cluster. Cluster numbering starts at 2.
pub open spec fn spec_cluster_lba(h: Header, cluster: int) -> int
    recommends
        cluster >= 2,
{
    spec_data_lba(h) + (cluster - 2) * h.sectors_per_cluster
}

/// Byte size of one cluster, derived from the header's own fields.
pub open spec fn spec_cluster_bytes(h: Header) -> int {
    h.sectors_per_cluster * h.bytes_per_sector
}

/// Computes `spec_fat_lba`.
pub fn fat_lba(h: &Header) -> (r: u64)
    ensures
        r as int == spec_fat_lba(*h),
        r < 0x4000000,
{
    PARTITION_START_LBA + h.reserved_sectors as u64
}

/// Computes `spec_root_dir_lba`.
pub fn root_dir_lba(h: &Header) -> (r: u64)
    ensures
        r as int == spec_root_dir_lba(*h),
        r < 0x2000000,
{
    proof {
        assert(h.sectors_per_fat as int * h.fat_count as int <= 0xffff * 0xff)
            by (nonlinear_arith)
            requires
                h.sectors_per_fat as int <= 0xffff,
                h.fat_count as int <= 0xff,
        ;
    }
    PARTITION_START_LBA + h.reserved_sectors as u64
        + (h.sectors_per_fat as u64) * (h.fat_count as u64)
}

/// Computes `spec_root_dir_sector_count`.
pub fn root_dir_sector_count(h: &Header) -> (r: u64)
    requires
        h.bytes_per_sector >= 1,
    ensures
        r as int == spec_root_dir_sector_count(*h),
{
    (32 * (h.dir_entries_count as u64) + (h.bytes_per_sector as u64) - 1)
        / (h.bytes_per_sector as u64)
}

/// Computes `spec_data_lba`.
pub fn data_lba(h: &Header) -> (r: u64)
    ensures
        r as int == spec_data_lba(*h),
        r < 0x4000000,
{
    root_dir_lba(h) + ROOT_DIR_SECTORS
}

/// Computes `spec_cluster_lba`.
pub fn cluster_lba(h: &Header, cluster: u16) -> (r: u64)
    requires
        cluster >= 2,
    ensures
        r as int == spec_cluster_lba(*h, cluster as int),
        r < 0x8000000,
{
    proof {
        assert((cluster as int - 2) * h.sectors_per_cluster as int <= 0xffff * 0xff
            && (cluster as int - 2) * h.sectors_per_cluster as int >= 0)
            by (nonlinear_arith)
            requires
                2 <= cluster as int <= 0xffff,
                0 <= h.sectors_per_cluster as int <= 0xff,
        ;
    }
    data_lba(h) + (cluster as u64 - 2) * (h.sectors_per_cluster as u64)
}

/// Computes `spec_cluster_bytes`.
pub fn cluster_bytes(h: &Header) -> (r: usize)
    ensures
        r as int == spec_cluster_bytes(*h),
        r <= 0xff * 0xffff,
{
    proof {
        assert(h.sectors_per_cluster as int * h.bytes_per_sector as int <= 0xff * 0xffff
            && h.sectors_per_cluster as int * h.bytes_per_sector as int >= 0)
            by (nonlinear_arith)
            requires
                0 <= h.sectors_per_cluster as int <= 0xff,
                0 <= h.bytes_per_sector as int <= 0xffff,
        ;
    }
    (h.sectors_per_cluster as usize) * (h.bytes_per_sector as usize)
}

} // verus!
