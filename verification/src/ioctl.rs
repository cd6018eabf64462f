//! ioctl() command numbers.
//!
//! A command number packs four fields into 32 bits: the number in bits 0..8,
//! the type in bits 8..16, the argument size in bits 16..30 and the transfer
//! direction in bits 30..32.

use vstd::prelude::*;

verus! {

pub const _IOC_NRBITS: u32 = 8;
pub const _IOC_TYPEBITS: u32 = 8;
pub const _IOC_SIZEBITS: u32 = 14;
pub const _IOC_DIRBITS: u32 = 2;
pub const _IOC_NRMASK: u32 = 255;
pub const _IOC_TYPEMASK: u32 = 255;
pub const _IOC_SIZEMASK: u32 = 16383;
pub const _IOC_DIRMASK: u32 = 3;
pub const _IOC_NRSHIFT: u32 = 0;
pub const _IOC_TYPESHIFT: u32 = 8;
pub const _IOC_SIZESHIFT: u32 = 16;
pub const _IOC_DIRSHIFT: u32 = 30;
pub const _IOC_NONE: u32 = 0;
pub const _IOC_WRITE: u32 = 1;
pub const _IOC_READ: u32 = 2;

/// The command number with the given fields.
pub open spec fn ioc(dir: u32, ty: u32, nr: u32, size: u32) -> u32 {
    (dir << 30u32) | (ty << 8u32) | (nr << 0u32) | (size << 16u32)
}

/// The direction field of a command number.
pub open spec fn ioc_dir(nr: u32) -> u32 {
    (nr >> 30u32) & 3u32
}

/// The type field of a command number.
pub open spec fn ioc_type(nr: u32) -> u32 {
    (nr >> 8u32) & 255u32
}

/// The number field of a command number.
pub open spec fn ioc_nr(nr: u32) -> u32 {
    (nr >> 0u32) & 255u32
}

/// The size field of a command number.
pub open spec fn ioc_size(nr: u32) -> u32 {
    (nr >> 16u32) & 16383u32
}

/// Whether the four fields each fit the bits reserved for them.
pub open spec fn fields_fit(dir: u32, ty: u32, nr: u32, size: int) -> bool {
    dir <= 3 && ty <= 255 && nr <= 255 && 0 <= size <= 16383
}

/// Packing fields that fit and unpacking again gives the fields back.
pub proof fn lemma_unpack_packed(dir: u32, ty: u32, nr: u32, size: u32)
    requires
        fields_fit(dir, ty, nr, size as int),
    ensures
        ioc_dir(ioc(dir, ty, nr, size)) == dir,
        ioc_type(ioc(dir, ty, nr, size)) == ty,
        ioc_nr(ioc(dir, ty, nr, size)) == nr,
        ioc_size(ioc(dir, ty, nr, size)) == size,
{
    assert(dir <= 3 && ty <= 255 && nr <= 255 && size <= 16383 ==> (((dir << 30u32) | (ty << 8u32)
        | (nr << 0u32) | (size << 16u32)) >> 30u32) & 3u32 == dir) by (bit_vector);
    assert(dir <= 3 && ty <= 255 && nr <= 255 && size <= 16383 ==> (((dir << 30u32) | (ty << 8u32)
        | (nr << 0u32) | (size << 16u32)) >> 8u32) & 255u32 == ty) by (bit_vector);
    assert(dir <= 3 && ty <= 255 && nr <= 255 && size <= 16383 ==> (((dir << 30u32) | (ty << 8u32)
        | (nr << 0u32) | (size << 16u32)) >> 0u32) & 255u32 == nr) by (bit_vector);
    assert(dir <= 3 && ty <= 255 && nr <= 255 && size <= 16383 ==> (((dir << 30u32) | (ty << 8u32)
        | (nr << 0u32) | (size << 16u32)) >> 16u32) & 16383u32 == size) by (bit_vector);
}

/// Unpacking any command number and packing its fields gives the number back.
pub proof fn lemma_pack_unpacked(cmd: u32)
    ensures
        fields_fit(ioc_dir(cmd), ioc_type(cmd), ioc_nr(cmd), ioc_size(cmd) as int),
        ioc(ioc_dir(cmd), ioc_type(cmd), ioc_nr(cmd), ioc_size(cmd)) == cmd,
{
    assert((cmd >> 30u32) & 3u32 <= 3) by (bit_vector);
    assert((cmd >> 8u32) & 255u32 <= 255) by (bit_vector);
    assert((cmd >> 0u32) & 255u32 <= 255) by (bit_vector);
    assert((cmd >> 16u32) & 16383u32 <= 16383) by (bit_vector);
    assert(((((cmd >> 30u32) & 3u32) << 30u32) | (((cmd >> 8u32) & 255u32) << 8u32) | (((cmd
        >> 0u32) & 255u32) << 0u32) | (((cmd >> 16u32) & 16383u32) << 16u32)) == cmd)
        by (bit_vector);
}

/// Build an ioctl number from its four fields.
pub fn _IOC(dir: u32, ty: u32, nr: u32, size: usize) -> (cmd: u32)
    requires
        fields_fit(dir, ty, nr, size as int),
    ensures
        cmd == ioc(dir, ty, nr, size as u32),
        ioc_dir(cmd) == dir,
        ioc_type(cmd) == ty,
        ioc_nr(cmd) == nr,
        ioc_size(cmd) == size,
{
    proof {
        lemma_unpack_packed(dir, ty, nr, size as u32);
    }
    (dir << _IOC_DIRSHIFT) | (ty << _IOC_TYPESHIFT) | (nr << _IOC_NRSHIFT) | ((size as u32)
        << _IOC_SIZESHIFT)
}

/// Build an ioctl number for an argumentless ioctl.
pub fn _IO(ty: u32, nr: u32) -> (cmd: u32)
    requires
        ty <= 255,
        nr <= 255,
    ensures
        cmd == ioc(0, ty, nr, 0),
{
    _IOC(_IOC_NONE, ty, nr, 0)
}

/// Build an ioctl number for a read-only ioctl whose argument is a `T`.
pub fn _IOR<T>(ty: u32, nr: u32) -> (cmd: u32)
    requires
        ty <= 255,
        nr <= 255,
        vstd::layout::size_of::<T>() <= 16383,
    ensures
        cmd == ioc(2, ty, nr, vstd::layout::size_of::<T>() as u32),
{
    _IOC(_IOC_READ, ty, nr, core::mem::size_of::<T>())
}

/// Build an ioctl number for a write-only ioctl whose argument is a `T`.
pub fn _IOW<T>(ty: u32, nr: u32) -> (cmd: u32)
    requires
        ty <= 255,
        nr <= 255,
        vstd::layout::size_of::<T>() <= 16383,
    ensures
        cmd == ioc(1, ty, nr, vstd::layout::size_of::<T>() as u32),
{
    _IOC(_IOC_WRITE, ty, nr, core::mem::size_of::<T>())
}

/// Build an ioctl number for a read-write ioctl whose argument is a `T`.
pub fn _IOWR<T>(ty: u32, nr: u32) -> (cmd: u32)
    requires
        ty <= 255,
        nr <= 255,
        vstd::layout::size_of::<T>() <= 16383,
    ensures
        cmd == ioc(3, ty, nr, vstd::layout::size_of::<T>() as u32),
{
    assert(2u32 | 1u32 == 3u32) by (bit_vector);
    _IOC(_IOC_READ | _IOC_WRITE, ty, nr, core::mem::size_of::<T>())
}

/// Get the ioctl direction from an ioctl number.
pub fn _IOC_DIR(nr: u32) -> (dir: u32)
    ensures
        dir == ioc_dir(nr),
        dir <= 3,
{
    assert((nr >> 30u32) & 3u32 <= 3) by (bit_vector);
    (nr >> _IOC_DIRSHIFT) & _IOC_DIRMASK
}

/// Get the ioctl type from an ioctl number.
pub fn _IOC_TYPE(nr: u32) -> (ty: u32)
    ensures
        ty == ioc_type(nr),
        ty <= 255,
{
    assert((nr >> 8u32) & 255u32 <= 255) by (bit_vector);
    (nr >> _IOC_TYPESHIFT) & _IOC_TYPEMASK
}

/// Get the ioctl number from an ioctl number.
pub fn _IOC_NR(nr: u32) -> (number: u32)
    ensures
        number == ioc_nr(nr),
        number <= 255,
{
    assert((nr >> 0u32) & 255u32 <= 255) by (bit_vector);
    (nr >> _IOC_NRSHIFT) & _IOC_NRMASK
}

/// Get the ioctl size from an ioctl number.
pub fn _IOC_SIZE(nr: u32) -> (size: usize)
    ensures
        size == ioc_size(nr),
        size <= 16383,
{
    assert((nr >> 16u32) & 16383u32 <= 16383) by (bit_vector);
    ((nr >> _IOC_SIZESHIFT) & _IOC_SIZEMASK) as usize
}

} // verus!
