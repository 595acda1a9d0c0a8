use vstd::prelude::*;

verus! {

/// Every failure a filesystem operation can report.
///
/// Loaders, the directory search and the chain readers return one of these
/// instead of proceeding on implausible geometry, overflowing a fixed-capacity
/// mirror, or looping over a corrupt allocation table.
#[derive(Clone, Copy, Debug, PartialEq, Eq, Structural)]
pub enum FsError {
    /// A block read fell outside the device.
    DeviceError,
    /// The boot sector's geometry fields are implausible.
    CorruptHeader,
    /// The on-disk table or directory is larger than its in-memory mirror,
    /// or a file is larger than the destination it is read into.
    CapacityExceeded,
    /// No non-free directory entry carries the requested name.
    EntryNotFound,
    /// A cluster chain leaves the table's bounds or never reaches the
    /// end-of-chain mark within the iteration guard.
    ChainCorrupt,
}

} // verus!
