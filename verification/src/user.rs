//! The caller's memory behind the pointer that comes with a request: a run of
//! bytes that copies read from and write to, or an address that no copy can
//! reach.

use crate::device::DriverError;
use vstd::prelude::*;

verus! {

/// The caller's buffer. A copy from or to a buffer that is not accessible
/// faults, and so does a copy out that the buffer is too short for.
pub struct UserBuffer {
    accessible: bool,
    bytes: Vec<u8>,
}

impl UserBuffer {
    /// Whether copies can reach the buffer.
    pub closed spec fn accessible(&self) -> bool {
        self.accessible
    }

    /// What the buffer holds.
    pub closed spec fn bytes(&self) -> Seq<u8> {
        self.bytes@
    }

    /// Whether `length` bytes can be copied out to the buffer.
    pub open spec fn takes(&self, length: nat) -> bool {
        self.accessible() && length <= self.bytes().len()
    }

    /// An accessible buffer that holds `bytes`.
    pub fn new(bytes: Vec<u8>) -> (buffer: UserBuffer)
        ensures
            buffer.accessible(),
            buffer.bytes() == bytes@,
    {
        UserBuffer { accessible: true, bytes }
    }

    /// A buffer behind a pointer that cannot be read or written.
    pub fn inaccessible() -> (buffer: UserBuffer)
        ensures
            !buffer.accessible(),
            buffer.bytes() == Seq::<u8>::empty(),
    {
        UserBuffer { accessible: false, bytes: Vec::new() }
    }

    /// Whether copies can reach the buffer.
    pub fn is_accessible(&self) -> (accessible: bool)
        ensures
            accessible == self.accessible(),
    {
        self.accessible
    }

    /// A copy of what the buffer holds.
    pub fn contents(&self) -> (bytes: Vec<u8>)
        ensures
            bytes@ == self.bytes(),
    {
        self.bytes.clone()
    }

    /// Copies at most `limit` bytes in from the start of the buffer: as many
    /// as it holds, if that is fewer. Faults if the buffer is not accessible.
    pub fn copy_in(&self, limit: usize) -> (copied: Result<Vec<u8>, DriverError>)
        ensures
            self.accessible() ==> copied.is_ok() && copied.unwrap()@ == self.bytes().take(
                if limit <= self.bytes().len() {
                    limit as int
                } else {
                    self.bytes().len() as int
                },
            ),
            !self.accessible() ==> copied == Err::<Vec<u8>, DriverError>(DriverError::CopyFault),
    {
        if !self.accessible {
            return Err(DriverError::CopyFault);
        }
        let count = if limit <= self.bytes.len() {
            limit
        } else {
            self.bytes.len()
        };
        let mut copied: Vec<u8> = Vec::new();
        let mut i: usize = 0;
        while i < count
            invariant
                i <= count <= self.bytes@.len(),
                copied@ == self.bytes@.take(i as int),
            decreases count - i,
        {
            copied.push(self.bytes[i]);
            assert(self.bytes@.take(i as int).push(self.bytes@[i as int]) =~= self.bytes@.take(
                i + 1,
            ));
            i += 1;
        }
        Ok(copied)
    }

    /// Copies in all that the buffer holds. Faults if the buffer is not
    /// accessible.
    pub fn read_all(&self) -> (copied: Result<Vec<u8>, DriverError>)
        ensures
            self.accessible() ==> copied.is_ok() && copied.unwrap()@ == self.bytes(),
            !self.accessible() ==> copied == Err::<Vec<u8>, DriverError>(DriverError::CopyFault),
    {
        let copied = self.copy_in(self.bytes.len());
        assert(self.bytes@.take(self.bytes@.len() as int) =~= self.bytes@);
        copied
    }

    /// Copies `data` out to the start of the buffer and leaves the bytes
    /// behind it as they were. Faults, and changes nothing, if the buffer is
    /// not accessible or is shorter than `data`.
    pub fn copy_out(&mut self, data: &[u8]) -> (outcome: Result<(), DriverError>)
        ensures
            final(self).accessible() == old(self).accessible(),
            old(self).takes(data@.len()) ==> outcome.is_ok() && final(self).bytes() == data@
                + old(self).bytes().skip(data@.len() as int),
            !old(self).takes(data@.len()) ==> outcome == Err::<(), DriverError>(
                DriverError::CopyFault,
            ) && final(self).bytes() == old(self).bytes(),
    {
        if !self.accessible || data.len() > self.bytes.len() {
            return Err(DriverError::CopyFault);
        }
        let mut i: usize = 0;
        while i < data.len()
            invariant
                i <= data@.len() <= self.bytes@.len(),
                self.accessible == old(self).accessible,
                self.bytes@.len() == old(self).bytes@.len(),
                self.bytes@ == data@.take(i as int) + old(self).bytes@.skip(i as int),
            decreases data.len() - i,
        {
            let ghost before = self.bytes@;
            self.bytes.set(i, data[i]);
            assert(self.bytes@ =~= data@.take(i + 1) + old(self).bytes@.skip(i + 1));
            i += 1;
        }
        assert(data@.take(data@.len() as int) =~= data@);
        Ok(())
    }
}

} // verus!
