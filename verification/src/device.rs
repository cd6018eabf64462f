//! The device handle: where the mapped register window lies and how its
//! registers are addressed.
//!
//! The window starts with the 32-bit seed register. The string region follows
//! at offset 4 and runs to the end of the window; its last byte is kept for
//! the terminator, so a string of at most `window size - 5` bytes fits.

use vstd::prelude::*;

verus! {

/// Physical address of the device's register block.
pub const DEVICE_BASE_PHYS_ADDR: u64 = 0xfebd1000;

/// Size in bytes of the device's register block.
pub const SIZE: u64 = 4096;

/// Offset of the seed register in the window.
pub const SEED_OFFSET: usize = 0;

/// Offset of the first byte of the string region in the window.
pub const STRING_OFFSET: usize = 4;

/// Bytes of the window that no string byte can use: the seed register and the
/// terminator.
pub const RESERVED: usize = 5;

/// What can go wrong in the driver.
#[derive(Clone, Copy, Debug, PartialEq, Eq, Structural)]
pub enum DriverError {
    /// The register window could not be mapped.
    MappingError,
    /// A copy from or to the caller's memory failed.
    CopyFault,
    /// The command identifier is none of the driver's.
    UnknownCommand,
}

/// One write to a device register.
#[allow(inconsistent_fields)]
#[derive(Clone, Copy, Debug, PartialEq, Eq, Structural)]
pub enum RegisterWrite {
    /// Store one byte at `address`.
    Byte { address: usize, value: u8 },
    /// Store a 32-bit word at `address`.
    Word { address: usize, value: u32 },
}

/// Whether a window of `window_size` bytes mapped at `address` can serve as
/// the device: the address is not null, the window holds the seed register
/// and the terminator, and its last byte has an address.
pub open spec fn mappable(address: usize, window_size: usize) -> bool {
    address != 0 && window_size >= RESERVED && address + window_size <= usize::MAX
}

/// The mapped register window: its base address and its length in bytes.
#[derive(Clone, Copy, Debug)]
pub struct DeviceHandle {
    base: usize,
    window_size: usize,
}

impl DeviceHandle {
    /// Address of the first byte of the window.
    pub closed spec fn spec_base(&self) -> usize {
        self.base
    }

    /// Length of the window in bytes.
    pub closed spec fn spec_window_size(&self) -> usize {
        self.window_size
    }

    /// Every handle describes a mappable window.
    #[verifier::type_invariant]
    pub open spec fn wf(&self) -> bool {
        mappable(self.spec_base(), self.spec_window_size())
    }

    /// The longest string, without its terminator, that the window holds.
    pub open spec fn spec_usable_length(&self) -> usize {
        (self.spec_window_size() - RESERVED) as usize
    }

    /// Address of the first byte of the window.
    #[verifier::when_used_as_spec(spec_base)]
    pub fn base(&self) -> (address: usize)
        ensures
            address == self.spec_base(),
            self.wf(),
    {
        proof {
            use_type_invariant(self);
        }
        self.base
    }

    /// Length of the window in bytes.
    #[verifier::when_used_as_spec(spec_window_size)]
    pub fn window_size(&self) -> (size: usize)
        ensures
            size == self.spec_window_size(),
            self.wf(),
    {
        proof {
            use_type_invariant(self);
        }
        self.window_size
    }

    /// The longest string, without its terminator, that the window holds.
    #[verifier::when_used_as_spec(spec_usable_length)]
    pub fn usable_length(&self) -> (length: usize)
        ensures
            length == self.spec_usable_length(),
            length == self.spec_window_size() - RESERVED,
            self.wf(),
    {
        proof {
            use_type_invariant(self);
        }
        self.window_size - RESERVED
    }

    /// Address of the 32-bit seed register.
    pub open spec fn spec_seed_address(&self) -> usize {
        (self.spec_base() + SEED_OFFSET) as usize
    }

    /// Address of byte `index` of the string region.
    pub open spec fn spec_string_address(&self, index: usize) -> usize {
        (self.spec_base() + STRING_OFFSET + index) as usize
    }

    /// Address of the 32-bit seed register.
    #[verifier::when_used_as_spec(spec_seed_address)]
    pub fn seed_address(&self) -> (address: usize)
        ensures
            address == self.spec_seed_address(),
            address == self.spec_base(),
            self.wf(),
    {
        proof {
            use_type_invariant(self);
        }
        self.base + SEED_OFFSET
    }

    /// Address of byte `index` of the string region: `Some` for the bytes of
    /// a string and for the terminator's place behind the longest one, `None`
    /// for an index beyond the window.
    pub fn string_address(&self, index: usize) -> (address: Option<usize>)
        ensures
            self.wf(),
            index <= self.spec_usable_length() ==> address == Some(
                self.spec_string_address(index),
            ) && self.spec_string_address(index) == self.spec_base() + STRING_OFFSET + index
                && self.spec_string_address(index) < self.spec_base() + self.spec_window_size(),
            index > self.spec_usable_length() ==> address.is_none(),
    {
        proof {
            use_type_invariant(self);
        }
        if index <= self.window_size - RESERVED {
            Some(self.base + STRING_OFFSET + index)
        } else {
            None
        }
    }
}

/// Takes the address that mapping the window gave and makes the handle.
///
/// Fails with `MappingError` when the mapping gave a null address, and when
/// the window is smaller than the reserved bytes or would run past the end of
/// the address space.
pub fn initialize(mapped_address: usize, window_size: usize) -> (handle: Result<
    DeviceHandle,
    DriverError,
>)
    ensures
        mappable(mapped_address, window_size) ==> handle.is_ok() && handle.unwrap().spec_base()
            == mapped_address && handle.unwrap().spec_window_size() == window_size
            && handle.unwrap().wf(),
        !mappable(mapped_address, window_size) ==> handle == Err::<DeviceHandle, DriverError>(
            DriverError::MappingError,
        ),
{
    if mapped_address == 0 || window_size < RESERVED || window_size > usize::MAX - mapped_address {
        Err(DriverError::MappingError)
    } else {
        Ok(DeviceHandle { base: mapped_address, window_size })
    }
}

/// Gives the handle up and returns the address to unmap. The handle is
/// consumed, so nothing can reach the window through it afterwards.
pub fn teardown(handle: DeviceHandle) -> (address: usize)
    ensures
        address == handle.spec_base(),
        address != 0,
{
    proof {
        use_type_invariant(&handle);
    }
    handle.base
}

} // verus!
