//! The bounded string transfer between the register window and byte buffers.
//!
//! A string on the device, and a string handed to the driver, ends at its
//! first null byte or at the length bound, whichever comes first.

use crate::device::{DeviceHandle, RegisterWrite, STRING_OFFSET};
use crate::window::{written_all, RegisterWindow};
use vstd::prelude::*;

verus! {

/// Length of the string at the start of `bytes`: the number of bytes before
/// the first null byte, at most `limit` and at most all of them.
pub open spec fn bounded_len(bytes: Seq<u8>, limit: nat) -> nat
    decreases limit,
{
    if limit == 0 || bytes.len() == 0 || bytes[0] == 0 {
        0
    } else {
        1 + bounded_len(bytes.skip(1), (limit - 1) as nat)
    }
}

/// The string at the start of `bytes`, without a terminator.
pub open spec fn bounded_string(bytes: Seq<u8>, limit: nat) -> Seq<u8> {
    bytes.take(bounded_len(bytes, limit) as int)
}

/// Whether `n` bytes at the start of `bytes` are its string: none of them is
/// null, and they end at the bound, at the end of `bytes` or before a null
/// byte.
pub open spec fn ends_string(bytes: Seq<u8>, limit: nat, n: nat) -> bool {
    &&& n <= limit
    &&& n <= bytes.len()
    &&& forall|i: int| 0 <= i < n ==> bytes[i] != 0
    &&& (n == limit || n == bytes.len() || bytes[n as int] == 0)
}

/// Whether no byte of `bytes` is null.
pub open spec fn null_free(bytes: Seq<u8>) -> bool {
    forall|i: int| 0 <= i < bytes.len() ==> bytes[i] != 0
}

/// The string's length ends the string.
pub proof fn lemma_bounded_len_ends(bytes: Seq<u8>, limit: nat)
    ensures
        ends_string(bytes, limit, bounded_len(bytes, limit)),
    decreases limit,
{
    if limit == 0 || bytes.len() == 0 || bytes[0] == 0 {
    } else {
        let rest = bytes.skip(1);
        let m = bounded_len(rest, (limit - 1) as nat);
        lemma_bounded_len_ends(rest, (limit - 1) as nat);
        assert forall|i: int| 0 <= i < 1 + m implies bytes[i] != 0 by {
            if i > 0 {
                assert(bytes[i] == rest[i - 1]);
            }
        }
        if m != limit - 1 && m != rest.len() {
            assert(bytes[1 + m as int] == rest[m as int]);
        }
    }
}

/// Only the string's length ends the string.
pub proof fn lemma_bounded_len_unique(bytes: Seq<u8>, limit: nat, n: nat)
    requires
        ends_string(bytes, limit, n),
    ensures
        bounded_len(bytes, limit) == n,
    decreases limit,
{
    if limit == 0 || bytes.len() == 0 || bytes[0] == 0 {
        if n > 0 {
            assert(bytes[0] != 0);
        }
    } else {
        let rest = bytes.skip(1);
        assert(n > 0);
        assert forall|i: int| 0 <= i < n - 1 implies rest[i] != 0 by {
            assert(rest[i] == bytes[i + 1]);
        }
        if n != limit && n != bytes.len() {
            assert(rest[n - 1] == bytes[n as int]);
        }
        lemma_bounded_len_unique(rest, (limit - 1) as nat, (n - 1) as nat);
    }
}

/// The string holds no null byte and is no longer than the bound.
pub proof fn lemma_bounded_string_null_free(bytes: Seq<u8>, limit: nat)
    ensures
        null_free(bounded_string(bytes, limit)),
        bounded_string(bytes, limit).len() <= limit,
        bounded_string(bytes, limit).len() <= bytes.len(),
{
    lemma_bounded_len_ends(bytes, limit);
}

/// What a write of `bytes` lays down from the start of the string region:
/// the string of `bytes` and a terminator.
pub open spec fn image(bytes: Seq<u8>, limit: nat) -> Seq<u8> {
    bounded_string(bytes, limit).push(0u8)
}

/// The string region after a write of `bytes` to a region that held `text`:
/// the image, then what the region held behind it.
pub open spec fn stored(text: Seq<u8>, bytes: Seq<u8>, limit: nat) -> Seq<u8> {
    image(bytes, limit) + text.skip(image(bytes, limit).len() as int)
}

/// The register writes that lay `bytes` down: the bytes of the image in
/// order, each at its place in the string region.
pub open spec fn spec_string_writes(handle: &DeviceHandle, bytes: Seq<u8>) -> Seq<RegisterWrite> {
    Seq::new(
        image(bytes, handle.spec_usable_length() as nat).len(),
        |i: int|
            RegisterWrite::Byte {
                address: (handle.spec_base() + STRING_OFFSET + i) as usize,
                value: image(bytes, handle.spec_usable_length() as nat)[i],
            },
    )
}

/// No write of a string reaches outside the string region: each is a byte
/// write, behind the seed register and within the window.
pub proof fn lemma_string_writes_in_region(handle: &DeviceHandle, bytes: Seq<u8>, i: int)
    requires
        handle.wf(),
        0 <= i < spec_string_writes(handle, bytes).len(),
    ensures
        spec_string_writes(handle, bytes).len() <= handle.spec_usable_length() + 1,
        spec_string_writes(handle, bytes)[i] matches RegisterWrite::Byte { address, .. }
            && handle.spec_base() + STRING_OFFSET <= address < handle.spec_base()
            + handle.spec_window_size(),
{
    lemma_bounded_len_ends(bytes, handle.spec_usable_length() as nat);
}

/// The register writes that store `bytes` on the device: its bytes up to the
/// first null byte or to the usable length, then a null byte.
pub fn string_writes(handle: &DeviceHandle, bytes: &[u8]) -> (plan: Vec<RegisterWrite>)
    ensures
        plan@ == spec_string_writes(handle, bytes@),
        plan@.len() == bounded_len(bytes@, handle.spec_usable_length() as nat) + 1,
        plan@.len() <= handle.spec_usable_length() + 1,
{
    let usable = handle.usable_length();
    let base = handle.base();
    let mut plan: Vec<RegisterWrite> = Vec::new();
    let mut i: usize = 0;
    while i < bytes.len() && i < usable && bytes[i] != 0
        invariant
            handle.wf(),
            usable == handle.spec_usable_length(),
            base == handle.spec_base(),
            i <= usable,
            i <= bytes.len(),
            forall|j: int| 0 <= j < i ==> bytes@[j] != 0,
            plan@.len() == i,
            forall|j: int|
                0 <= j < i ==> plan@[j] == (RegisterWrite::Byte {
                    address: (base + STRING_OFFSET + j) as usize,
                    value: bytes@[j],
                }),
        decreases bytes.len() - i,
    {
        plan.push(RegisterWrite::Byte { address: base + STRING_OFFSET + i, value: bytes[i] });
        i += 1;
    }
    plan.push(RegisterWrite::Byte { address: base + STRING_OFFSET + i, value: 0 });
    proof {
        lemma_bounded_len_unique(bytes@, usable as nat, i as nat);
        assert(plan@ =~= spec_string_writes(handle, bytes@));
    }
    plan
}

/// A read of the device's string in progress: the bytes taken so far, and
/// whether another byte is wanted. The caller loads the byte at
/// `next_address` from the device and hands it to `accept`, until no address
/// is asked for.
pub struct StringReader {
    handle: DeviceHandle,
    collected: Vec<u8>,
    open: bool,
}

impl StringReader {
    /// The window that is read.
    pub closed spec fn handle(&self) -> DeviceHandle {
        self.handle
    }

    /// The bytes taken so far.
    pub closed spec fn collected(&self) -> Seq<u8> {
        self.collected@
    }

    /// Whether another byte is wanted.
    pub closed spec fn is_open(&self) -> bool {
        self.open
    }

    /// The bytes taken form a string within the bound, and a byte is wanted
    /// only below the bound.
    pub open spec fn wf(&self) -> bool {
        &&& self.handle().wf()
        &&& null_free(self.collected())
        &&& self.collected().len() <= self.handle().spec_usable_length()
        &&& self.is_open() ==> self.collected().len() < self.handle().spec_usable_length()
    }

    #[verifier::type_invariant]
    spec fn inv(&self) -> bool {
        self.wf()
    }

    /// Starts a read of the window that `handle` describes.
    pub fn new(handle: DeviceHandle) -> (reader: StringReader)
        ensures
            reader.wf(),
            reader.handle() == handle,
            reader.collected() == Seq::<u8>::empty(),
            reader.is_open() == (handle.spec_usable_length() > 0),
    {
        let open = handle.usable_length() > 0;
        StringReader { handle, collected: Vec::new(), open }
    }

    /// The address of the byte to load next, or `None` when the string is
    /// complete.
    pub fn next_address(&self) -> (address: Option<usize>)
        ensures
            self.wf(),
            self.is_open() ==> address == Some(
                (self.handle().spec_base() + STRING_OFFSET + self.collected().len()) as usize,
            ),
            !self.is_open() ==> address.is_none(),
    {
        proof {
            use_type_invariant(self);
        }
        if self.open {
            self.handle.string_address(self.collected.len())
        } else {
            None
        }
    }

    /// Takes the byte that was loaded from `next_address`. A null byte ends
    /// the string and is left out; any other byte joins it, and ends it when
    /// it fills the usable length. A byte that was not asked for changes
    /// nothing.
    pub fn accept(self, byte: u8) -> (reader: StringReader)
        ensures
            self.wf(),
            reader.wf(),
            reader.handle() == self.handle(),
            !self.is_open() ==> reader.collected() == self.collected() && !reader.is_open(),
            self.is_open() && byte == 0 ==> reader.collected() == self.collected()
                && !reader.is_open(),
            self.is_open() && byte != 0 ==> reader.collected() == self.collected().push(byte)
                && reader.is_open() == (self.collected().len() + 1
                < self.handle().spec_usable_length()),
    {
        proof {
            use_type_invariant(&self);
        }
        if !self.open || byte == 0 {
            StringReader { handle: self.handle, collected: self.collected, open: false }
        } else {
            let handle = self.handle;
            let mut collected = self.collected;
            collected.push(byte);
            let open = collected.len() < handle.usable_length();
            StringReader { handle, collected, open }
        }
    }

    /// The bytes taken.
    pub fn into_bytes(self) -> (bytes: Vec<u8>)
        ensures
            self.wf(),
            bytes@ == self.collected(),
    {
        proof {
            use_type_invariant(&self);
        }
        self.collected
    }
}

/// Reads the device's string: the bytes of the string region from its start
/// up to the first null byte, which is left out, and at most the usable
/// length.
pub fn read_device(handle: &DeviceHandle, window: &RegisterWindow) -> (bytes: Vec<u8>)
    requires
        window.wf(),
        window.mapped_by(handle),
    ensures
        bytes@ == bounded_string(window.text(), handle.spec_usable_length() as nat),
        null_free(bytes@),
        bytes@.len() <= handle.spec_usable_length(),
{
    let ghost usable = handle.spec_usable_length() as nat;
    let mut reader = StringReader::new(*handle);
    loop
        invariant
            window.wf(),
            window.mapped_by(handle),
            handle.wf(),
            usable == handle.spec_usable_length(),
            reader.wf(),
            reader.handle() == *handle,
            reader.collected() == window.text().take(reader.collected().len() as int),
            !reader.is_open() ==> reader.collected().len() == usable 
                || window.text()[reader.collected().len() as int] == 0,
        ensures
            !reader.is_open(),
        decreases usable - reader.collected().len() + (if reader.is_open() { 1int } else { 0int }),
    {
        let ghost before = reader.collected();
        match reader.next_address() {
            None => {
                break ;
            },
            Some(address) => {
                let byte = window.load8(address);
                reader = reader.accept(byte);
                assert(byte == window.text()[before.len() as int]);
                if byte != 0 {
                    assert(before.push(byte) =~= window.text().take(before.len() as int + 1));
                }
            },
        }
    }
    let bytes = reader.into_bytes();
    proof {
        let text = window.text();
        let n = bytes@.len();
        assert forall|i: int| 0 <= i < n implies text[i] != 0 by {
            assert(text[i] == bytes@[i]);
        }
        lemma_bounded_len_unique(text, usable, n);
    }
    bytes
}

/// Performing the writes of a string on a window leaves the seed as it was
/// and the string region with the image at its start.
pub proof fn lemma_string_writes_store(
    handle: &DeviceHandle,
    seed: u32,
    text: Seq<u8>,
    bytes: Seq<u8>,
)
    requires
        handle.wf(),
        text.len() == handle.spec_usable_length() + 1,
    ensures
        written_all(handle.spec_base(), (seed, text), spec_string_writes(handle, bytes)) == (
            seed,
            stored(text, bytes, handle.spec_usable_length() as nat),
        ),
{
    let plan = spec_string_writes(handle, bytes);
    let laid = image(bytes, handle.spec_usable_length() as nat);
    lemma_bounded_len_ends(bytes, handle.spec_usable_length() as nat);
    lemma_prefix_of_string_writes_stores(handle, seed, text, bytes, plan.len());
    assert(plan.take(plan.len() as int) =~= plan);
    assert(laid.take(laid.len() as int) =~= laid);
}

proof fn lemma_prefix_of_string_writes_stores(
    handle: &DeviceHandle,
    seed: u32,
    text: Seq<u8>,
    bytes: Seq<u8>,
    count: nat,
)
    requires
        handle.wf(),
        text.len() == handle.spec_usable_length() + 1,
        count <= spec_string_writes(handle, bytes).len(),
    ensures
        written_all(
            handle.spec_base(),
            (seed, text),
            spec_string_writes(handle, bytes).take(count as int),
        ) == (
            seed,
            image(bytes, handle.spec_usable_length() as nat).take(count as int) + text.skip(
                count as int,
            ),
        ),
    decreases count,
{
    let plan = spec_string_writes(handle, bytes);
    let laid = image(bytes, handle.spec_usable_length() as nat);
    lemma_bounded_len_ends(bytes, handle.spec_usable_length() as nat);
    if count == 0 {
        assert(laid.take(0) + text.skip(0) =~= text);
    } else {
        let before = (count - 1) as nat;
        lemma_prefix_of_string_writes_stores(handle, seed, text, bytes, before);
        assert(plan.take(count as int).drop_last() =~= plan.take(before as int));
        assert(plan.take(count as int).last() == plan[before as int]);
        assert((laid.take(before as int) + text.skip(before as int)).update(
            before as int,
            laid[before as int],
        ) =~= laid.take(count as int) + text.skip(count as int));
    }
}

/// Writes `bytes` to the device as a string: its bytes up to the first null
/// byte or to the usable length, then a null byte. The device's string is
/// terminated afterwards, whatever `bytes` held.
pub fn write_device(handle: &DeviceHandle, window: &mut RegisterWindow, bytes: &[u8])
    requires
        old(window).wf(),
        old(window).mapped_by(handle),
    ensures
        final(window).wf(),
        final(window).mapped_by(handle),
        final(window).seed() == old(window).seed(),
        final(window).text() == stored(
            old(window).text(),
            bytes@,
            handle.spec_usable_length() as nat,
        ),
{
    let plan = string_writes(handle, bytes);
    proof {
        lemma_string_writes_accepted(handle, window, bytes@);
        lemma_string_writes_store(handle, window.seed(), window.text(), bytes@);
    }
    window.apply_all(plan.as_slice());
}

/// A window takes every write of a string that is planned with its handle.
pub proof fn lemma_string_writes_accepted(
    handle: &DeviceHandle,
    window: &RegisterWindow,
    bytes: Seq<u8>,
)
    requires
        handle.wf(),
        window.mapped_by(handle),
    ensures
        window.accepts_all(spec_string_writes(handle, bytes)),
{
    let plan = spec_string_writes(handle, bytes);
    assert forall|i: int| 0 <= i < plan.len() implies window.accepts(#[trigger] plan[i]) by {
        lemma_string_writes_in_region(handle, bytes, i);
    }
}

/// Reading after a write gives the string of what was written, whatever the
/// region held before.
pub proof fn lemma_read_after_write(text: Seq<u8>, bytes: Seq<u8>, limit: nat)
    requires
        text.len() == limit + 1,
    ensures
        stored(text, bytes, limit).len() == text.len(),
        bounded_len(stored(text, bytes, limit), limit) == bounded_len(bytes, limit),
        bounded_string(stored(text, bytes, limit), limit) == bounded_string(bytes, limit),
{
    let string = bounded_string(bytes, limit);
    let after = stored(text, bytes, limit);
    lemma_bounded_len_ends(bytes, limit);
    assert forall|i: int| 0 <= i < string.len() implies after[i] != 0 by {
        assert(after[i] == bytes[i]);
    }
    assert(after[string.len() as int] == 0);
    lemma_bounded_len_unique(after, limit, string.len());
    assert(after.take(string.len() as int) =~= string);
}

/// A write leaves the device's string terminated: a null byte stands right
/// behind it, within the region.
pub proof fn lemma_write_terminates(text: Seq<u8>, bytes: Seq<u8>, limit: nat)
    requires
        text.len() == limit + 1,
    ensures
        bounded_len(stored(text, bytes, limit), limit) < text.len(),
        stored(text, bytes, limit)[bounded_len(stored(text, bytes, limit), limit) as int] == 0,
{
    lemma_read_after_write(text, bytes, limit);
    lemma_bounded_len_ends(bytes, limit);
    let n = bounded_len(bytes, limit);
    assert(stored(text, bytes, limit)[n as int] == image(bytes, limit)[n as int]);
}

/// A string without a null byte that fits the usable length comes back from
/// the device as it was written.
pub proof fn lemma_roundtrip_exact(text: Seq<u8>, bytes: Seq<u8>, limit: nat)
    requires
        text.len() == limit + 1,
        bytes.len() <= limit,
        null_free(bytes),
    ensures
        bounded_string(stored(text, bytes, limit), limit) == bytes,
{
    lemma_read_after_write(text, bytes, limit);
    lemma_bounded_len_unique(bytes, limit, bytes.len());
    assert(bytes.take(bytes.len() as int) =~= bytes);
}

/// A string without a null byte that is longer than the usable length is cut
/// to the usable length and terminated: the region then holds those bytes
/// and a null byte, and a read gives exactly those bytes.
pub proof fn lemma_roundtrip_truncates(text: Seq<u8>, bytes: Seq<u8>, limit: nat)
    requires
        text.len() == limit + 1,
        bytes.len() > limit,
        null_free(bytes),
    ensures
        stored(text, bytes, limit) == bytes.take(limit as int).push(0u8),
        bounded_string(stored(text, bytes, limit), limit) == bytes.take(limit as int),
        bounded_string(stored(text, bytes, limit), limit).len() == limit,
{
    lemma_read_after_write(text, bytes, limit);
    lemma_bounded_len_unique(bytes, limit, limit);
    assert(stored(text, bytes, limit) =~= bytes.take(limit as int).push(0u8));
}

/// A string whose first null byte stands at `k`, below the usable length,
/// comes back from the device as its first `k` bytes.
pub proof fn lemma_roundtrip_stops_at_null(text: Seq<u8>, bytes: Seq<u8>, limit: nat, k: nat)
    requires
        text.len() == limit + 1,
        k < limit,
        k < bytes.len(),
        bytes[k as int] == 0,
        forall|i: int| 0 <= i < k ==> bytes[i] != 0,
    ensures
        bounded_string(stored(text, bytes, limit), limit) == bytes.take(k as int),
        bounded_string(stored(text, bytes, limit), limit).len() == k,
{
    lemma_read_after_write(text, bytes, limit);
    lemma_bounded_len_unique(bytes, limit, k);
}

} // verus!
