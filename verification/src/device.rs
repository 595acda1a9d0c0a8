use vstd::prelude::*;

use crate::errors::FsError;

verus! {

/// Width of one sector in bytes. The driver asserts the header's own
/// bytes-per-sector field against this value before using any geometry.
pub const SECTOR_BYTES: usize = 512;

/// A block device holding its sectors as one contiguous byte image.
///
/// This models the synchronous read primitive the kernel's disk driver
/// offers: `read_sectors` copies whole sectors out of the image, and reports
/// `DeviceError` instead of succeeding unconditionally when a read falls
/// outside the medium.
pub struct BlockDevice {
    pub data: Vec<u8>,
}

/// Whether `count` sectors starting at logical block address `lba` lie
/// entirely on a device of `len` bytes.
pub open spec fn spec_sectors_on_device(len: int, lba: int, count: int) -> bool {
    (lba + count) * (SECTOR_BYTES as int) <= len
}

/// The bytes of `count` sectors starting at `lba`.
pub open spec fn spec_sector_bytes(data: Seq<u8>, lba: int, count: int) -> Seq<u8> {
    data.subrange(lba * (SECTOR_BYTES as int), (lba + count) * (SECTOR_BYTES as int))
}

impl BlockDevice {
    /// Wraps a byte image as a device.
    pub fn new(data: Vec<u8>) -> (d: BlockDevice)
        ensures
            d.data == data,
    {
        BlockDevice { data }
    }

    /// Reads `count` whole sectors starting at logical block address `lba`.
    ///
    /// Succeeds exactly when the requested range lies on the device, and then
    /// returns precisely those bytes; otherwise reports `DeviceError`.
    pub fn read_sectors(&self, lba: u64, count: u16) -> (r: Result<Vec<u8>, FsError>)
        ensures
            r is Ok <==> spec_sectors_on_device(self.data@.len() as int, lba as int, count as int),
            (r matches Ok(b) ==> b@ == spec_sector_bytes(self.data@, lba as int, count as int)),
            (r matches Err(e) ==> e == FsError::DeviceError),
    {
        let len64: u64 = self.data.len() as u64;
        let end_sector: u64 = match lba.checked_add(count as u64) {
            Some(e) => e,
            None => {
                proof {
                    assert((lba as int + count as int) * (SECTOR_BYTES as int)
                        > self.data@.len() as int) by (nonlinear_arith)
                        requires
                            lba as int + count as int > u64::MAX as int,
                            self.data@.len() as int <= u64::MAX as int,
                    ;
                }
                return Err(FsError::DeviceError);
            },
        };
        let end_byte: u64 = match end_sector.checked_mul(SECTOR_BYTES as u64) {
            Some(e) => e,
            None => {
                return Err(FsError::DeviceError);
            },
        };
        if end_byte > len64 {
            return Err(FsError::DeviceError);
        }
        proof {
            assert(lba as int * (SECTOR_BYTES as int) + count as int * (SECTOR_BYTES as int)
                == end_sector as int * (SECTOR_BYTES as int)) by (nonlinear_arith)
                requires
                    lba as int + count as int == end_sector as int,
            ;
        }
        let start: usize = (lba * (SECTOR_BYTES as u64)) as usize;
        let total: usize = (count as usize) * SECTOR_BYTES;
        let mut out: Vec<u8> = Vec::new();
        let mut i: usize = 0;
        while i < total
            invariant
                i <= total,
                out@.len() == i as int,
                start == lba as int * (SECTOR_BYTES as int),
                total == count as int * (SECTOR_BYTES as int),
                start + total <= self.data@.len(),
                start + total <= usize::MAX,
                forall|j: int| 0 <= j < i ==> out@[j] == self.data@[start + j],
            decreases total - i,
        {
            out.push(self.data[start + i]);
            i = i + 1;
        }
        proof {
            assert(out@ =~= spec_sector_bytes(self.data@, lba as int, count as int));
        }
        Ok(out)
    }
}

} // verus!
