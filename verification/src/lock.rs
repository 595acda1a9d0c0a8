use vstd::prelude::*;

use crate::fat::FatDriver;

verus! {

/// Mutual exclusion for the shared filesystem driver.
///
/// The driver is a single long-lived resource manipulated across several
/// steps (header, directory, search, read), so a caller must hold it
/// exclusively for the whole sequence. `acquire` checks the driver out:
/// while one caller holds it, every further `acquire` is refused — it grants
/// nothing and changes nothing — until the holder gives the driver back with
/// `release`. Ownership of the checked-out value is the exclusivity: there
/// is exactly one holder at a time. A caller that must have the driver
/// retries `acquire` until it is granted, which stands in for blocking.
pub struct FatMutex {
    driver: Option<FatDriver>,
}

impl FatMutex {
    /// Whether the driver is currently checked out.
    pub closed spec fn is_held(self) -> bool {
        self.driver is None
    }

    /// The stored driver, when nobody holds it.
    pub closed spec fn stored(self) -> Option<FatDriver> {
        self.driver
    }

    /// Wraps a driver, initially not held.
    pub fn new(driver: FatDriver) -> (l: FatMutex)
        ensures
            !l.is_held(),
            l.stored() == Some(driver),
    {
        FatMutex { driver: Some(driver) }
    }

    /// Attempts to check the driver out.
    ///
    /// A second `acquire` while the driver is held obtains nothing and
    /// leaves the lock exactly as it was; the first caller keeps sole
    /// ownership until it releases. When the driver is free, the caller
    /// receives it and the lock records it as held.
    pub fn acquire(&mut self) -> (r: Option<FatDriver>)
        ensures
            old(self).is_held() ==> r is None && *final(self) == *old(self),
            !old(self).is_held() ==> r == old(self).stored() && r is Some
                && final(self).is_held(),
    {
        self.driver.take()
    }

    /// Gives the driver back. Every `acquire` that was granted must be
    /// paired with exactly one `release`, on error paths too.
    pub fn release(&mut self, driver: FatDriver)
        requires
            old(self).is_held(),
        ensures
            !final(self).is_held(),
            final(self).stored() == Some(driver),
    {
        self.driver = Some(driver);
    }
}

} // verus!
