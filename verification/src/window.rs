//! An in-memory register window: the device as the driver sees it, held in
//! ordinary memory. It answers register reads and writes by address, as the
//! mapped hardware does, and so lets the driver's operations be run and
//! stated without the hardware.

use crate::device::{DeviceHandle, RegisterWrite, STRING_OFFSET};
use vstd::prelude::*;

verus! {

/// The registers of one window: the 32-bit seed register at the window's
/// base, and the bytes of the string region behind it.
pub struct RegisterWindow {
    base: usize,
    seed: u32,
    text: Vec<u8>,
}

/// The seed and the string region of a window at `base` after `write`, where
/// `state` is what they held before it.
pub open spec fn written(base: usize, state: (u32, Seq<u8>), write: RegisterWrite) -> (
    u32,
    Seq<u8>,
) {
    match write {
        RegisterWrite::Byte { address, value } => (
            state.0,
            state.1.update(address - base - STRING_OFFSET, value),
        ),
        RegisterWrite::Word { address, value } => (value, state.1),
    }
}

/// The seed and the string region of a window at `base` after `writes`, taken
/// in order.
pub open spec fn written_all(base: usize, state: (u32, Seq<u8>), writes: Seq<RegisterWrite>) -> (
    u32,
    Seq<u8>,
)
    decreases writes.len(),
{
    if writes.len() == 0 {
        state
    } else {
        written(base, written_all(base, state, writes.drop_last()), writes.last())
    }
}

impl RegisterWindow {
    /// Address of the first byte of the window.
    pub closed spec fn base(&self) -> usize {
        self.base
    }

    /// What the seed register holds.
    pub closed spec fn seed(&self) -> u32 {
        self.seed
    }

    /// What the string region holds, terminator's place included.
    pub closed spec fn text(&self) -> Seq<u8> {
        self.text@
    }

    /// The window's length in bytes.
    pub open spec fn size(&self) -> int {
        STRING_OFFSET + self.text().len()
    }

    /// The string region is not empty and every register has an address.
    pub open spec fn wf(&self) -> bool {
        self.base() != 0 && self.text().len() >= 1 && self.base() + self.size() <= usize::MAX
    }

    /// Whether `handle` describes this window.
    pub open spec fn mapped_by(&self, handle: &DeviceHandle) -> bool {
        self.base() == handle.spec_base() && self.size() == handle.spec_window_size()
    }

    /// Whether `address` is that of a byte of the string region.
    pub open spec fn holds_byte(&self, address: usize) -> bool {
        self.base() + STRING_OFFSET <= address < self.base() + self.size()
    }

    /// Index in the string region of the byte at `address`.
    pub open spec fn index_of(&self, address: usize) -> int {
        address - self.base() - STRING_OFFSET
    }

    /// Whether the window has the register that `write` names.
    pub open spec fn accepts(&self, write: RegisterWrite) -> bool {
        match write {
            RegisterWrite::Byte { address, .. } => self.holds_byte(address),
            RegisterWrite::Word { address, .. } => address == self.base(),
        }
    }

    /// The window that `handle` describes, with every register zero.
    pub fn zeroed(handle: &DeviceHandle) -> (window: RegisterWindow)
        ensures
            window.wf(),
            window.mapped_by(handle),
            window.seed() == 0,
            window.text() == Seq::new(
                (handle.spec_window_size() - STRING_OFFSET) as nat,
                |i: int| 0u8,
            ),
    {
        let size = handle.window_size();
        let length: usize = size - STRING_OFFSET;
        let text = vec![0u8; length];
        assert(text@ =~= Seq::new(length as nat, |i: int| 0u8));
        RegisterWindow { base: handle.base(), seed: 0, text }
    }

    /// Reads the byte register at `address`.
    pub fn load8(&self, address: usize) -> (value: u8)
        requires
            self.wf(),
            self.holds_byte(address),
        ensures
            value == self.text()[self.index_of(address)],
    {
        self.text[address - self.base - STRING_OFFSET]
    }

    /// Reads the seed register, which lies at the window's base.
    pub fn load32(&self, address: usize) -> (value: u32)
        requires
            address == self.base(),
        ensures
            value == self.seed(),
    {
        self.seed
    }

    /// Writes the byte register at `address`.
    pub fn store8(&mut self, address: usize, value: u8)
        requires
            old(self).wf(),
            old(self).holds_byte(address),
        ensures
            final(self).wf(),
            final(self).base() == old(self).base(),
            final(self).size() == old(self).size(),
            final(self).seed() == old(self).seed(),
            final(self).text() == old(self).text().update(old(self).index_of(address), value),
    {
        let index = address - self.base - STRING_OFFSET;
        self.text.set(index, value);
    }

    /// Writes the seed register, which lies at the window's base.
    pub fn store32(&mut self, address: usize, value: u32)
        requires
            old(self).wf(),
            address == old(self).base(),
        ensures
            final(self).wf(),
            final(self).base() == old(self).base(),
            final(self).size() == old(self).size(),
            final(self).seed() == value,
            final(self).text() == old(self).text(),
    {
        self.seed = value;
    }

    /// Whether the window has every register that `writes` names.
    pub open spec fn accepts_all(&self, writes: Seq<RegisterWrite>) -> bool {
        forall|i: int| 0 <= i < writes.len() ==> self.accepts(#[trigger] writes[i])
    }

    /// Performs one register write.
    pub fn apply(&mut self, write: RegisterWrite)
        requires
            old(self).wf(),
            old(self).accepts(write),
        ensures
            final(self).wf(),
            final(self).base() == old(self).base(),
            final(self).size() == old(self).size(),
            (final(self).seed(), final(self).text()) == written(
                old(self).base(),
                (old(self).seed(), old(self).text()),
                write,
            ),
    {
        match write {
            RegisterWrite::Byte { address, value } => self.store8(address, value),
            RegisterWrite::Word { address, value } => self.store32(address, value),
        }
    }

    /// Performs register writes in order.
    pub fn apply_all(&mut self, writes: &[RegisterWrite])
        requires
            old(self).wf(),
            old(self).accepts_all(writes@),
        ensures
            final(self).wf(),
            final(self).base() == old(self).base(),
            final(self).size() == old(self).size(),
            (final(self).seed(), final(self).text()) == written_all(
                old(self).base(),
                (old(self).seed(), old(self).text()),
                writes@,
            ),
    {
        let mut i: usize = 0;
        assert(writes@.take(0) =~= Seq::<RegisterWrite>::empty());
        while i < writes.len()
            invariant
                i <= writes@.len(),
                old(self).wf(),
                old(self).accepts_all(writes@),
                self.wf(),
                self.base() == old(self).base(),
                self.size() == old(self).size(),
                (self.seed(), self.text()) == written_all(
                    old(self).base(),
                    (old(self).seed(), old(self).text()),
                    writes@.take(i as int),
                ),
            decreases writes.len() - i,
        {
            assert(old(self).accepts(writes@[i as int]));
            self.apply(writes[i]);
            assert(writes@.take(i + 1).drop_last() =~= writes@.take(i as int));
            i += 1;
        }
        assert(writes@.take(writes@.len() as int) =~= writes@);
    }

    /// A copy of what the string region holds, terminator's place included.
    pub fn string_region(&self) -> (bytes: Vec<u8>)
        ensures
            bytes@ == self.text(),
    {
        self.text.clone()
    }
}

} // verus!
