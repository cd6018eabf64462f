//! The driver: the command dispatch and the file interface, over a device
//! handle that the driver owns.

use crate::codec::{
    bounded_len, bounded_string, lemma_bounded_len_ends, lemma_bounded_len_unique,
    lemma_read_after_write, lemma_string_writes_accepted, lemma_string_writes_store, read_device,
    spec_string_writes, stored, string_writes,
};
use crate::device::{initialize, teardown, DeviceHandle, DriverError, RegisterWrite, mappable};
use crate::ioctl::ioc;
use crate::user::UserBuffer;
use crate::window::{written_all, RegisterWindow};
use vstd::prelude::*;

verus! {

/// The type field of the driver's commands: the letter `q`.
pub const LKP_ENC_TYPE: u32 = 0x71;

/// Command: write the seed. Write-only, number 1; the argument is a 32-bit
/// seed, 4 bytes.
pub const LKP_ENC_WRITE_SEED: u32 = 0x40047101;

/// Command: write the string. Write-only, number 2; the argument is a string
/// reference, 16 bytes on a 64-bit machine.
pub const LKP_ENC_WRITE_STRING: u32 = 0x40107102;

/// Command: read the string. Read-only, number 3; the argument is a string
/// reference, 16 bytes on a 64-bit machine.
pub const LKP_ENC_READ_STRING: u32 = 0x80107103;

/// What `ioctl` returns when the command was carried out.
pub const IOCTL_DONE: i32 = 0;

/// What `ioctl` returns when the command was unknown or a copy faulted.
pub const IOCTL_FAILED: i32 = -1;

/// How many bytes the seed command copies in.
pub const SEED_BYTES: usize = 1;

/// The three command numbers are the packed fields that their names say.
pub proof fn lemma_command_numbers()
    ensures
        LKP_ENC_WRITE_SEED == ioc(1, LKP_ENC_TYPE, 1, 4),
        LKP_ENC_WRITE_STRING == ioc(1, LKP_ENC_TYPE, 2, 16),
        LKP_ENC_READ_STRING == ioc(2, LKP_ENC_TYPE, 3, 16),
{
    assert(0x40047101u32 == (1u32 << 30u32) | (0x71u32 << 8u32) | (1u32 << 0u32) | (4u32 << 16u32))
        by (bit_vector);
    assert(0x40107102u32 == (1u32 << 30u32) | (0x71u32 << 8u32) | (2u32 << 0u32) | (16u32
        << 16u32)) by (bit_vector);
    assert(0x80107103u32 == (2u32 << 30u32) | (0x71u32 << 8u32) | (3u32 << 0u32) | (16u32
        << 16u32)) by (bit_vector);
}

/// What a command identifier asks for.
#[derive(Clone, Copy, Debug, PartialEq, Eq, Structural)]
pub enum CommandKind {
    WriteSeed,
    WriteString,
    ReadString,
    Unknown,
}

/// The command that `command_id` names.
pub open spec fn spec_kind(command_id: u32) -> CommandKind {
    if command_id == LKP_ENC_WRITE_SEED {
        CommandKind::WriteSeed
    } else if command_id == LKP_ENC_WRITE_STRING {
        CommandKind::WriteString
    } else if command_id == LKP_ENC_READ_STRING {
        CommandKind::ReadString
    } else {
        CommandKind::Unknown
    }
}

/// One ioctl request: the command identifier and the pointer that came with
/// it.
#[derive(Clone, Copy, Debug, PartialEq, Eq, Structural)]
pub struct IoctlCommand {
    pub command_id: u32,
    pub argument: u64,
}

impl IoctlCommand {
    /// The request with this identifier and pointer.
    pub fn new(command_id: u32, argument: u64) -> (command: IoctlCommand)
        ensures
            command.command_id == command_id,
            command.argument == argument,
    {
        IoctlCommand { command_id, argument }
    }

    /// What the request asks for.
    pub fn kind(&self) -> (kind: CommandKind)
        ensures
            kind == spec_kind(self.command_id),
    {
        if self.command_id == LKP_ENC_WRITE_SEED {
            CommandKind::WriteSeed
        } else if self.command_id == LKP_ENC_WRITE_STRING {
            CommandKind::WriteString
        } else if self.command_id == LKP_ENC_READ_STRING {
            CommandKind::ReadString
        } else {
            CommandKind::Unknown
        }
    }
}

/// The seed that a copy from the caller gives: the first byte copied, and 0
/// when nothing was copied or the copy faulted.
pub open spec fn spec_seed_value(readable: bool, bytes: Seq<u8>) -> u32 {
    if readable && bytes.len() > 0 {
        bytes[0] as u32
    } else {
        0
    }
}

/// What is to be done next for an ioctl request. The entry point does it and,
/// after a copy in, asks again with what was copied.
pub enum IoctlStep {
    /// Copy at most `limit` bytes in from the caller's pointer.
    CopyIn { limit: usize },
    /// Perform these register writes; the command has then succeeded.
    Store { writes: Vec<RegisterWrite> },
    /// Read the device's string and copy it out to the caller's pointer; the
    /// command succeeds if the copy does and fails with `CopyFault` if not.
    ReadString,
    /// Do nothing; the command has failed.
    Fail { error: DriverError },
}

/// An `IoctlStep` as a value.
pub enum StepView {
    CopyIn { limit: usize },
    Store { writes: Seq<RegisterWrite> },
    ReadString,
    Fail { error: DriverError },
}

impl View for IoctlStep {
    type V = StepView;

    open spec fn view(&self) -> StepView {
        match self {
            IoctlStep::CopyIn { limit } => StepView::CopyIn { limit: *limit },
            IoctlStep::Store { writes } => StepView::Store { writes: writes@ },
            IoctlStep::ReadString => StepView::ReadString,
            IoctlStep::Fail { error } => StepView::Fail { error: *error },
        }
    }
}

/// The first step of a command: the seed command copies one byte in, the
/// write command up to the usable length; the read command reads the device;
/// any other command fails as unknown.
pub open spec fn spec_begin(handle: &DeviceHandle, kind: CommandKind) -> StepView {
    match kind {
        CommandKind::WriteSeed => StepView::CopyIn { limit: SEED_BYTES },
        CommandKind::WriteString => StepView::CopyIn { limit: handle.spec_usable_length() },
        CommandKind::ReadString => StepView::ReadString,
        CommandKind::Unknown => StepView::Fail { error: DriverError::UnknownCommand },
    }
}

/// The step after the copy in, where `readable` says whether the copy
/// succeeded and `bytes` is what it gave. The seed command writes the seed
/// register, with 0 after a fault. The write command writes the string, and
/// fails with `CopyFault` after a fault. A command that copies nothing in
/// stays at its first step.
pub open spec fn spec_copied_in(
    handle: &DeviceHandle,
    kind: CommandKind,
    readable: bool,
    bytes: Seq<u8>,
) -> StepView {
    match kind {
        CommandKind::WriteSeed => StepView::Store {
            writes: seq![
                RegisterWrite::Word {
                    address: handle.spec_base(),
                    value: spec_seed_value(readable, bytes),
                },
            ],
        },
        CommandKind::WriteString => if readable {
            StepView::Store { writes: spec_string_writes(handle, bytes) }
        } else {
            StepView::Fail { error: DriverError::CopyFault }
        },
        _ => spec_begin(handle, kind),
    }
}

/// What a copy handed over: its bytes, or none after a fault.
pub open spec fn copied_bytes(copied: Result<Vec<u8>, DriverError>) -> Seq<u8> {
    match copied {
        Ok(bytes) => bytes@,
        Err(_) => Seq::empty(),
    }
}

impl IoctlCommand {
    /// The first step of the request.
    pub fn begin(&self, handle: &DeviceHandle) -> (step: IoctlStep)
        ensures
            step@ == spec_begin(handle, spec_kind(self.command_id)),
    {
        match self.kind() {
            CommandKind::WriteSeed => IoctlStep::CopyIn { limit: SEED_BYTES },
            CommandKind::WriteString => IoctlStep::CopyIn { limit: handle.usable_length() },
            CommandKind::ReadString => IoctlStep::ReadString,
            CommandKind::Unknown => IoctlStep::Fail { error: DriverError::UnknownCommand },
        }
    }

    /// The step of the request after the copy in that its first step asked
    /// for.
    pub fn copied_in(&self, handle: &DeviceHandle, copied: Result<Vec<u8>, DriverError>) -> (step:
        IoctlStep)
        ensures
            step@ == spec_copied_in(
                handle,
                spec_kind(self.command_id),
                copied.is_ok(),
                copied_bytes(copied),
            ),
    {
        match self.kind() {
            CommandKind::WriteSeed => {
                let value: u32 = match copied {
                    Ok(bytes) => if bytes.len() > 0 {
                        bytes[0] as u32
                    } else {
                        0
                    },
                    Err(_) => 0,
                };
                let mut writes: Vec<RegisterWrite> = Vec::new();
                writes.push(RegisterWrite::Word { address: handle.seed_address(), value });
                assert(writes@ =~= seq![
                    RegisterWrite::Word { address: handle.spec_base(), value },
                ]);
                IoctlStep::Store { writes }
            },
            CommandKind::WriteString => match copied {
                Ok(bytes) => IoctlStep::Store { writes: string_writes(handle, bytes.as_slice()) },
                Err(_) => IoctlStep::Fail { error: DriverError::CopyFault },
            },
            _ => self.begin(handle),
        }
    }
}

/// What `ioctl` returns for the outcome of a command.
pub open spec fn spec_status(outcome: Result<(), DriverError>) -> i32 {
    if outcome.is_ok() {
        IOCTL_DONE
    } else {
        IOCTL_FAILED
    }
}

/// What `ioctl` returns for the outcome of a command: 0 when it was carried
/// out, -1 when it was unknown or a copy faulted.
pub fn status(outcome: Result<(), DriverError>) -> (code: i32)
    ensures
        code == spec_status(outcome),
{
    match outcome {
        Ok(_) => IOCTL_DONE,
        Err(_) => IOCTL_FAILED,
    }
}

/// `bytes` with a null byte behind it, unless its last byte is one already.
pub open spec fn spec_terminated(bytes: Seq<u8>) -> Seq<u8> {
    if bytes.len() > 0 && bytes.last() == 0 {
        bytes
    } else {
        bytes.push(0u8)
    }
}

/// Terminates what a caller wrote to the file: appends a null byte unless
/// the last byte is one already.
pub fn terminated(bytes: Vec<u8>) -> (text: Vec<u8>)
    ensures
        text@ == spec_terminated(bytes@),
        text@.len() >= 1,
{
    let mut text = bytes;
    let n = text.len();
    if n == 0 || text[n - 1] != 0 {
        text.push(0);
    }
    text
}

/// Terminating `bytes` does not change its string.
pub proof fn lemma_terminated_same_string(bytes: Seq<u8>, limit: nat)
    ensures
        bounded_string(spec_terminated(bytes), limit) == bounded_string(bytes, limit),
{
    let n = bounded_len(bytes, limit);
    lemma_bounded_len_ends(bytes, limit);
    lemma_bounded_len_unique(spec_terminated(bytes), limit, n);
    assert(spec_terminated(bytes).take(n as int) =~= bytes.take(n as int));
}

/// Cutting `bytes` off at the bound or behind it does not change its string.
pub proof fn lemma_cut_same_string(bytes: Seq<u8>, limit: nat, k: nat)
    requires
        k <= bytes.len(),
        k >= limit || k == bytes.len(),
    ensures
        bounded_string(bytes.take(k as int), limit) == bounded_string(bytes, limit),
{
    let n = bounded_len(bytes, limit);
    lemma_bounded_len_ends(bytes, limit);
    lemma_bounded_len_unique(bytes.take(k as int), limit, n);
    assert(bytes.take(k as int).take(n as int) =~= bytes.take(n as int));
}

/// What a write to the file leads to: the register writes to perform, and
/// the count to return to the caller.
pub struct FileWrite {
    pub writes: Vec<RegisterWrite>,
    pub count: usize,
}

/// What a write to the file leads to, given the copy of the caller's bytes.
/// The bytes are terminated and their string is written; the count is the
/// terminated length less one, so a caller of text without a terminator is
/// told that all of it was written. After a fault nothing is written and the
/// count is 0.
pub fn file_write(handle: &DeviceHandle, copied: Result<Vec<u8>, DriverError>) -> (plan: FileWrite)
    ensures
        copied.is_ok() ==> plan.writes@ == spec_string_writes(handle, copied_bytes(copied))
            && plan.count == spec_terminated(copied_bytes(copied)).len() - 1,
        copied.is_err() ==> plan.writes@ == Seq::<RegisterWrite>::empty() && plan.count == 0,
{
    match copied {
        Ok(bytes) => {
            proof {
                lemma_terminated_same_string(bytes@, handle.spec_usable_length() as nat);
            }
            let text = terminated(bytes);
            let writes = string_writes(handle, text.as_slice());
            assert(writes@ =~= spec_string_writes(handle, bytes@));
            FileWrite { writes, count: text.len() - 1 }
        },
        Err(_) => FileWrite { writes: Vec::new(), count: 0 },
    }
}

/// Whether a read at `offset` reads the device: only a read from the start
/// does, so that the string is read once.
pub fn reads_device(offset: u64) -> (reads: bool)
    ensures
        reads == (offset == 0),
{
    offset == 0
}

/// What a command leaves behind: its outcome, and what the seed register,
/// the string region and the caller's buffer hold after it.
pub struct Effect {
    pub outcome: Result<(), DriverError>,
    pub seed: u32,
    pub text: Seq<u8>,
    pub user: Seq<u8>,
}

/// The effect of a command of kind `kind` on a device whose seed register
/// holds `seed` and whose string region holds `text`, for a caller whose
/// buffer holds `user`.
///
/// - The seed command stores the first byte of the buffer, or 0 if the
///   buffer is empty or cannot be read, and succeeds in either case.
/// - The write command stores the buffer's string, or faults and changes
///   nothing if the buffer cannot be read.
/// - The read command copies the device's string to the start of the
///   buffer, or faults and changes nothing if the buffer cannot take it.
/// - Any other command is unknown and changes nothing.
pub open spec fn spec_dispatch(
    usable: nat,
    kind: CommandKind,
    seed: u32,
    text: Seq<u8>,
    accessible: bool,
    user: Seq<u8>,
) -> Effect {
    match kind {
        CommandKind::WriteSeed => Effect {
            outcome: Ok(()),
            seed: spec_seed_value(accessible, user),
            text,
            user,
        },
        CommandKind::WriteString => if accessible {
            Effect { outcome: Ok(()), seed, text: stored(text, user, usable), user }
        } else {
            Effect { outcome: Err(DriverError::CopyFault), seed, text, user }
        },
        CommandKind::ReadString => {
            let string = bounded_string(text, usable);
            if accessible && string.len() <= user.len() {
                Effect {
                    outcome: Ok(()),
                    seed,
                    text,
                    user: string + user.skip(string.len() as int),
                }
            } else {
                Effect { outcome: Err(DriverError::CopyFault), seed, text, user }
            }
        },
        CommandKind::Unknown => Effect {
            outcome: Err(DriverError::UnknownCommand),
            seed,
            text,
            user,
        },
    }
}

/// The driver instance. It owns the handle of the mapped window from a
/// successful `init` until `exit`.
pub struct LkpEnc {
    devmem: DeviceHandle,
}

impl LkpEnc {
    /// The handle that the driver owns.
    pub closed spec fn handle(&self) -> DeviceHandle {
        self.devmem
    }

    /// The longest string that the device holds.
    pub open spec fn usable(&self) -> nat {
        self.handle().spec_usable_length() as nat
    }

    /// Makes the driver from the address that mapping the window gave.
    /// Fails with `MappingError` exactly when `initialize` does.
    pub fn init(mapped_address: usize, window_size: usize) -> (driver: Result<LkpEnc, DriverError>)
        ensures
            mappable(mapped_address, window_size) ==> driver.is_ok()
                && driver.unwrap().handle().wf() && driver.unwrap().handle().spec_base()
                == mapped_address && driver.unwrap().handle().spec_window_size() == window_size,
            !mappable(mapped_address, window_size) ==> driver == Err::<LkpEnc, DriverError>(
                DriverError::MappingError,
            ),
    {
        match initialize(mapped_address, window_size) {
            Ok(devmem) => Ok(LkpEnc { devmem }),
            Err(_) => Err(DriverError::MappingError),
        }
    }

    /// Ends the driver and returns the address to unmap.
    pub fn exit(self) -> (address: usize)
        ensures
            address == self.handle().spec_base(),
            address != 0,
    {
        teardown(self.devmem)
    }

    /// The handle that the driver owns.
    pub fn devmem(&self) -> (handle: DeviceHandle)
        ensures
            handle == self.handle(),
            handle.wf(),
    {
        proof {
            use_type_invariant(&self.devmem);
        }
        self.devmem
    }

    /// Opens the device. There is no state per open file, so this always
    /// succeeds.
    pub fn open(&self) -> (opened: Result<(), DriverError>)
        ensures
            opened == Ok::<(), DriverError>(()),
    {
        Ok(())
    }

    /// Writes what the caller handed to the file: terminates it, stores its
    /// string on the device and returns the terminated length less one. If
    /// the caller's buffer cannot be read, nothing is stored and 0 is
    /// returned.
    pub fn write(&self, window: &mut RegisterWindow, user: &UserBuffer) -> (count: usize)
        requires
            old(window).wf(),
            old(window).mapped_by(&self.handle()),
        ensures
            final(window).wf(),
            final(window).mapped_by(&self.handle()),
            final(window).seed() == old(window).seed(),
            user.accessible() ==> count == spec_terminated(user.bytes()).len() - 1,
            user.accessible() ==> final(window).text() == stored(
                old(window).text(),
                user.bytes(),
                self.usable(),
            ),
            !user.accessible() ==> count == 0 && final(window).text() == old(window).text(),
    {
        let handle = self.devmem();
        let plan = file_write(&handle, user.read_all());
        proof {
            if user.accessible() {
                lemma_string_writes_accepted(&handle, window, user.bytes());
                lemma_string_writes_store(&handle, window.seed(), window.text(), user.bytes());
            }
        }
        window.apply_all(plan.writes.as_slice());
        plan.count
    }

    /// Reads the file. A read from the start reads the device's string,
    /// copies it to the caller and returns its length; the length is
    /// returned also when the caller's buffer could not take the copy. A
    /// read from any other offset returns 0 and touches nothing.
    pub fn read(&self, window: &RegisterWindow, user: &mut UserBuffer, offset: u64) -> (count:
        usize)
        requires
            window.wf(),
            window.mapped_by(&self.handle()),
        ensures
            final(user).accessible() == old(user).accessible(),
            offset != 0 ==> count == 0 && final(user).bytes() == old(user).bytes(),
            offset == 0 ==> count == bounded_string(window.text(), self.usable()).len(),
            offset == 0 && old(user).takes(count as nat) ==> final(user).bytes() == bounded_string(
                window.text(),
                self.usable(),
            ) + old(user).bytes().skip(count as int),
            offset == 0 && !old(user).takes(count as nat) ==> final(user).bytes()
                == old(user).bytes(),
    {
        if reads_device(offset) {
            let message = read_device(&self.devmem, window);
            let _ = user.copy_out(message.as_slice());
            message.len()
        } else {
            0
        }
    }

    /// Carries out one command on the device and says how it went.
    pub fn dispatch(
        &self,
        window: &mut RegisterWindow,
        command: &IoctlCommand,
        user: &mut UserBuffer,
    ) -> (outcome: Result<(), DriverError>)
        requires
            old(window).wf(),
            old(window).mapped_by(&self.handle()),
        ensures
            final(window).wf(),
            final(window).mapped_by(&self.handle()),
            final(user).accessible() == old(user).accessible(),
            (Effect {
                outcome,
                seed: final(window).seed(),
                text: final(window).text(),
                user: final(user).bytes(),
            }) == spec_dispatch(
                self.usable(),
                spec_kind(command.command_id),
                old(window).seed(),
                old(window).text(),
                old(user).accessible(),
                old(user).bytes(),
            ),
    {
        let handle = self.devmem();
        let first = command.begin(&handle);
        let step = match first {
            IoctlStep::CopyIn { limit } => {
                let copied = user.copy_in(limit);
                proof {
                    if user.accessible() && spec_kind(command.command_id)
                        == CommandKind::WriteString {
                        let held = user.bytes();
                        let k = if limit <= held.len() {
                            limit as nat
                        } else {
                            held.len()
                        };
                        lemma_cut_same_string(held, self.usable(), k);
                        assert(spec_string_writes(&handle, held.take(k as int))
                            =~= spec_string_writes(&handle, held));
                    }
                }
                command.copied_in(&handle, copied)
            },
            other => other,
        };
        match step {
            IoctlStep::Store { writes } => {
                proof {
                    if spec_kind(command.command_id) == CommandKind::WriteString {
                        lemma_string_writes_accepted(&handle, window, user.bytes());
                        lemma_string_writes_store(
                            &handle,
                            window.seed(),
                            window.text(),
                            user.bytes(),
                        );
                    } else {
                        let state = (window.seed(), window.text());
                        assert(spec_kind(command.command_id) == CommandKind::WriteSeed);
                        assert(writes@.len() == 1);
                        assert(writes@.drop_last() =~= Seq::<RegisterWrite>::empty());
                        assert(written_all(handle.spec_base(), state, writes@.drop_last())
                            == state);
                        assert(window.accepts_all(writes@));
                    }
                }
                window.apply_all(writes.as_slice());
                Ok(())
            },
            IoctlStep::ReadString => {
                let string = read_device(&handle, window);
                match user.copy_out(string.as_slice()) {
                    Ok(_) => Ok(()),
                    Err(_) => Err(DriverError::CopyFault),
                }
            },
            IoctlStep::Fail { error } => Err(error),
            IoctlStep::CopyIn { .. } => {
                assert(false);
                Err(DriverError::CopyFault)
            },
        }
    }

    /// The ioctl entry point: carries out one command and returns 0, or
    /// returns -1 when the command is unknown or a copy faulted.
    pub fn ioctl(
        &self,
        window: &mut RegisterWindow,
        command: &IoctlCommand,
        user: &mut UserBuffer,
    ) -> (code: i32)
        requires
            old(window).wf(),
            old(window).mapped_by(&self.handle()),
        ensures
            final(window).wf(),
            final(window).mapped_by(&self.handle()),
            final(user).accessible() == old(user).accessible(),
            code == spec_status(
                spec_dispatch(
                    self.usable(),
                    spec_kind(command.command_id),
                    old(window).seed(),
                    old(window).text(),
                    old(user).accessible(),
                    old(user).bytes(),
                ).outcome,
            ),
            (Effect {
                outcome: spec_dispatch(
                    self.usable(),
                    spec_kind(command.command_id),
                    old(window).seed(),
                    old(window).text(),
                    old(user).accessible(),
                    old(user).bytes(),
                ).outcome,
                seed: final(window).seed(),
                text: final(window).text(),
                user: final(user).bytes(),
            }) == spec_dispatch(
                self.usable(),
                spec_kind(command.command_id),
                old(window).seed(),
                old(window).text(),
                old(user).accessible(),
                old(user).bytes(),
            ),
    {
        let outcome = self.dispatch(window, command, user);
        status(outcome)
    }
}

/// The seed command from a buffer that cannot be read stores the seed 0 and
/// returns 0: the fault is not passed on.
pub proof fn lemma_seed_from_unreadable(usable: nat, seed: u32, text: Seq<u8>, user: Seq<u8>)
    ensures
        spec_dispatch(usable, CommandKind::WriteSeed, seed, text, false, user).seed == 0,
        spec_dispatch(usable, CommandKind::WriteSeed, seed, text, false, user).text == text,
        spec_status(spec_dispatch(usable, CommandKind::WriteSeed, seed, text, false, user).outcome)
            == 0,
{
}

/// A command identifier that is none of the driver's three returns -1 and
/// leaves the registers and the caller's buffer as they were.
pub proof fn lemma_unknown_command(
    command_id: u32,
    usable: nat,
    seed: u32,
    text: Seq<u8>,
    accessible: bool,
    user: Seq<u8>,
)
    requires
        command_id != LKP_ENC_WRITE_SEED,
        command_id != LKP_ENC_WRITE_STRING,
        command_id != LKP_ENC_READ_STRING,
    ensures
        spec_kind(command_id) == CommandKind::Unknown,
        spec_dispatch(usable, spec_kind(command_id), seed, text, accessible, user) == (Effect {
            outcome: Err(DriverError::UnknownCommand),
            seed,
            text,
            user,
        }),
        spec_status(
            spec_dispatch(usable, spec_kind(command_id), seed, text, accessible, user).outcome,
        ) == -1,
{
}

/// The read command after a write of `bytes` copies exactly the string of
/// `bytes` to the start of a buffer that can take it, and returns 0.
pub proof fn lemma_read_string_after_write(
    usable: nat,
    seed: u32,
    text: Seq<u8>,
    bytes: Seq<u8>,
    user: Seq<u8>,
)
    requires
        text.len() == usable + 1,
        bounded_string(bytes, usable).len() <= user.len(),
    ensures
        spec_dispatch(
            usable,
            CommandKind::ReadString,
            seed,
            stored(text, bytes, usable),
            true,
            user,
        ).user == bounded_string(bytes, usable) + user.skip(
            bounded_string(bytes, usable).len() as int,
        ),
        spec_status(
            spec_dispatch(
                usable,
                CommandKind::ReadString,
                seed,
                stored(text, bytes, usable),
                true,
                user,
            ).outcome,
        ) == 0,
{
    lemma_read_after_write(text, bytes, usable);
}

/// The write command and then the read command hand the caller's string
/// back: what the second buffer receives is the string of the first.
pub proof fn lemma_write_string_then_read_string(
    usable: nat,
    seed: u32,
    text: Seq<u8>,
    written: Seq<u8>,
    user: Seq<u8>,
)
    requires
        text.len() == usable + 1,
        bounded_string(written, usable).len() <= user.len(),
    ensures
        ({
            let first = spec_dispatch(usable, CommandKind::WriteString, seed, text, true, written);
            let second = spec_dispatch(
                usable,
                CommandKind::ReadString,
                first.seed,
                first.text,
                true,
                user,
            );
            &&& first.outcome.is_ok()
            &&& second.outcome.is_ok()
            &&& first.seed == seed
            &&& second.text == first.text
            &&& second.user == bounded_string(written, usable) + user.skip(
                bounded_string(written, usable).len() as int,
            )
        }),
{
    lemma_read_after_write(text, written, usable);
}

} // verus!
