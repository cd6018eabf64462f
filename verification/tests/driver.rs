use lkp_enc::codec::{read_device, write_device};
use lkp_enc::device::{initialize, DriverError, RegisterWrite};
use lkp_enc::driver::{
    file_write, reads_device, status, terminated, IoctlCommand, IoctlStep, LkpEnc, IOCTL_DONE,
    IOCTL_FAILED, LKP_ENC_READ_STRING, LKP_ENC_WRITE_SEED, LKP_ENC_WRITE_STRING, SEED_BYTES,
};
use lkp_enc::user::UserBuffer;
use lkp_enc::window::RegisterWindow;

fn loaded() -> (LkpEnc, RegisterWindow) {
    let driver = LkpEnc::init(0x1000, 4096).unwrap();
    let window = RegisterWindow::zeroed(&driver.devmem());
    (driver, window)
}

#[test]
fn seed_from_unreadable_pointer_is_zero() {
    let (driver, mut window) = loaded();
    window.store32(0x1000, 99);
    let mut user = UserBuffer::inaccessible();
    let code = driver.ioctl(&mut window, &IoctlCommand::new(LKP_ENC_WRITE_SEED, 0), &mut user);
    assert_eq!(code, 0);
    assert_eq!(window.load32(0x1000), 0);
}

#[test]
fn seed_is_the_first_byte_copied() {
    let (driver, mut window) = loaded();
    let mut user = UserBuffer::new(vec![42, 1, 2, 3]);
    let code = driver.ioctl(&mut window, &IoctlCommand::new(LKP_ENC_WRITE_SEED, 0), &mut user);
    assert_eq!(code, 0);
    assert_eq!(window.load32(0x1000), 42);
    assert_eq!(user.contents(), vec![42, 1, 2, 3]);
    assert_eq!(window.string_region(), vec![0u8; 4092]);
}

#[test]
fn seed_from_empty_buffer_is_zero() {
    let (driver, mut window) = loaded();
    window.store32(0x1000, 5);
    let mut user = UserBuffer::new(Vec::new());
    let code = driver.ioctl(&mut window, &IoctlCommand::new(LKP_ENC_WRITE_SEED, 0), &mut user);
    assert_eq!(code, 0);
    assert_eq!(window.load32(0x1000), 0);
}

#[test]
fn read_string_copies_exactly_the_string() {
    let (driver, mut window) = loaded();
    write_device(&driver.devmem(), &mut window, b"abc");
    let mut user = UserBuffer::new(vec![0xff; 8]);
    let code = driver.ioctl(&mut window, &IoctlCommand::new(LKP_ENC_READ_STRING, 0), &mut user);
    assert_eq!(code, 0);
    assert_eq!(user.contents(), vec![b'a', b'b', b'c', 0xff, 0xff, 0xff, 0xff, 0xff]);
    assert_eq!(read_device(&driver.devmem(), &window), b"abc".to_vec());
}

#[test]
fn read_string_into_unwritable_pointer_fails() {
    let (driver, mut window) = loaded();
    write_device(&driver.devmem(), &mut window, b"abc");
    let mut user = UserBuffer::inaccessible();
    let command = IoctlCommand::new(LKP_ENC_READ_STRING, 0);
    assert_eq!(driver.dispatch(&mut window, &command, &mut user), Err(DriverError::CopyFault));
    assert_eq!(driver.ioctl(&mut window, &command, &mut user), -1);
    assert_eq!(read_device(&driver.devmem(), &window), b"abc".to_vec());
}

#[test]
fn read_string_into_short_buffer_fails_and_copies_nothing() {
    let (driver, mut window) = loaded();
    write_device(&driver.devmem(), &mut window, b"abc");
    let mut user = UserBuffer::new(vec![1, 2]);
    let code = driver.ioctl(&mut window, &IoctlCommand::new(LKP_ENC_READ_STRING, 0), &mut user);
    assert_eq!(code, -1);
    assert_eq!(user.contents(), vec![1, 2]);
}

#[test]
fn write_string_stores_the_callers_string() {
    let (driver, mut window) = loaded();
    window.store32(0x1000, 7);
    let mut user = UserBuffer::new(b"secret\0junk".to_vec());
    let code = driver.ioctl(&mut window, &IoctlCommand::new(LKP_ENC_WRITE_STRING, 0), &mut user);
    assert_eq!(code, 0);
    assert_eq!(read_device(&driver.devmem(), &window), b"secret".to_vec());
    assert_eq!(window.load32(0x1000), 7);
    assert_eq!(user.contents(), b"secret\0junk".to_vec());
}

#[test]
fn write_string_without_null_is_terminated() {
    let (driver, mut window) = loaded();
    write_device(&driver.devmem(), &mut window, b"a longer string");
    let mut user = UserBuffer::new(b"short".to_vec());
    let code = driver.ioctl(&mut window, &IoctlCommand::new(LKP_ENC_WRITE_STRING, 0), &mut user);
    assert_eq!(code, 0);
    assert_eq!(read_device(&driver.devmem(), &window), b"short".to_vec());
}

#[test]
fn write_string_longer_than_usable_is_cut() {
    let (driver, mut window) = loaded();
    let mut user = UserBuffer::new(vec![b'x'; 6000]);
    let code = driver.ioctl(&mut window, &IoctlCommand::new(LKP_ENC_WRITE_STRING, 0), &mut user);
    assert_eq!(code, 0);
    assert_eq!(read_device(&driver.devmem(), &window), vec![b'x'; 4091]);
    assert_eq!(window.string_region()[4091], 0);
}

#[test]
fn write_string_from_unreadable_pointer_fails() {
    let (driver, mut window) = loaded();
    write_device(&driver.devmem(), &mut window, b"kept");
    let mut user = UserBuffer::inaccessible();
    let command = IoctlCommand::new(LKP_ENC_WRITE_STRING, 0);
    assert_eq!(driver.dispatch(&mut window, &command, &mut user), Err(DriverError::CopyFault));
    assert_eq!(driver.ioctl(&mut window, &command, &mut user), -1);
    assert_eq!(read_device(&driver.devmem(), &window), b"kept".to_vec());
}

#[test]
fn unknown_command_fails_and_touches_nothing() {
    let (driver, mut window) = loaded();
    window.store32(0x1000, 11);
    write_device(&driver.devmem(), &mut window, b"kept");
    let before = window.string_region();
    let mut user = UserBuffer::new(vec![9, 9, 9]);
    let command = IoctlCommand::new(0xDEADBEEF, 0);
    assert_eq!(driver.dispatch(&mut window, &command, &mut user), Err(DriverError::UnknownCommand));
    assert_eq!(driver.ioctl(&mut window, &command, &mut user), -1);
    assert_eq!(window.load32(0x1000), 11);
    assert_eq!(window.string_region(), before);
    assert_eq!(user.contents(), vec![9, 9, 9]);
}

#[test]
fn end_to_end() {
    let driver = LkpEnc::init(0x1000, 4096).unwrap();
    assert_eq!(driver.devmem().usable_length(), 4091);
    let mut window = RegisterWindow::zeroed(&driver.devmem());
    assert_eq!(driver.open(), Ok(()));

    assert_eq!(driver.write(&mut window, &UserBuffer::new(b"hello".to_vec())), 5);
    let mut reply = UserBuffer::new(vec![0; 16]);
    assert_eq!(driver.read(&window, &mut reply, 0), 5);
    assert_eq!(&reply.contents()[..5], b"hello");

    let mut seed = UserBuffer::new(vec![42]);
    assert_eq!(driver.ioctl(&mut window, &IoctlCommand::new(LKP_ENC_WRITE_SEED, 0), &mut seed), 0);
    assert_eq!(window.load32(driver.devmem().seed_address()), 42);
    assert_eq!(read_device(&driver.devmem(), &window), b"hello".to_vec());

    assert_eq!(driver.exit(), 0x1000);
}

#[test]
fn file_write_counts_the_callers_bytes() {
    let (driver, mut window) = loaded();
    assert_eq!(driver.write(&mut window, &UserBuffer::new(b"hello\n".to_vec())), 6);
    assert_eq!(read_device(&driver.devmem(), &window), b"hello\n".to_vec());
    assert_eq!(driver.write(&mut window, &UserBuffer::new(Vec::new())), 0);
    assert_eq!(read_device(&driver.devmem(), &window), Vec::<u8>::new());
}

#[test]
fn file_write_of_terminated_text_counts_without_the_terminator() {
    let (driver, mut window) = loaded();
    assert_eq!(driver.write(&mut window, &UserBuffer::new(b"hey\0".to_vec())), 3);
    assert_eq!(read_device(&driver.devmem(), &window), b"hey".to_vec());
}

#[test]
fn file_write_from_unreadable_buffer_returns_zero() {
    let (driver, mut window) = loaded();
    write_device(&driver.devmem(), &mut window, b"kept");
    assert_eq!(driver.write(&mut window, &UserBuffer::inaccessible()), 0);
    assert_eq!(read_device(&driver.devmem(), &window), b"kept".to_vec());
}

#[test]
fn file_write_longer_than_usable_counts_all_and_stores_the_cut() {
    let (driver, mut window) = loaded();
    assert_eq!(driver.write(&mut window, &UserBuffer::new(vec![b'y'; 5000])), 5000);
    assert_eq!(read_device(&driver.devmem(), &window), vec![b'y'; 4091]);
}

#[test]
fn file_read_past_the_start_is_end_of_stream() {
    let (driver, mut window) = loaded();
    write_device(&driver.devmem(), &mut window, b"hello");
    let mut reply = UserBuffer::new(vec![7; 8]);
    assert_eq!(driver.read(&window, &mut reply, 1), 0);
    assert_eq!(driver.read(&window, &mut reply, 5), 0);
    assert_eq!(driver.read(&window, &mut reply, u64::MAX), 0);
    assert_eq!(reply.contents(), vec![7; 8]);
}

#[test]
fn file_read_returns_the_length_even_when_the_copy_faults() {
    let (driver, mut window) = loaded();
    write_device(&driver.devmem(), &mut window, b"hello");
    let mut reply = UserBuffer::inaccessible();
    assert_eq!(driver.read(&window, &mut reply, 0), 5);
    let mut short = UserBuffer::new(vec![1, 2]);
    assert_eq!(driver.read(&window, &mut short, 0), 5);
    assert_eq!(short.contents(), vec![1, 2]);
}

fn store(step: IoctlStep) -> Vec<RegisterWrite> {
    match step {
        IoctlStep::Store { writes } => writes,
        _ => panic!("the step stores nothing"),
    }
}

#[test]
fn first_step_of_each_command() {
    let handle = initialize(0x1000, 4096).unwrap();
    assert_eq!(SEED_BYTES, 1);
    assert!(matches!(
        IoctlCommand::new(LKP_ENC_WRITE_SEED, 0).begin(&handle),
        IoctlStep::CopyIn { limit: 1 }
    ));
    assert!(matches!(
        IoctlCommand::new(LKP_ENC_WRITE_STRING, 0).begin(&handle),
        IoctlStep::CopyIn { limit: 4091 }
    ));
    assert!(matches!(
        IoctlCommand::new(LKP_ENC_READ_STRING, 0).begin(&handle),
        IoctlStep::ReadString
    ));
    assert!(matches!(
        IoctlCommand::new(0xDEADBEEF, 0).begin(&handle),
        IoctlStep::Fail { error: DriverError::UnknownCommand }
    ));
}

#[test]
fn step_after_the_copy_in() {
    let handle = initialize(0x1000, 4096).unwrap();
    let seed = IoctlCommand::new(LKP_ENC_WRITE_SEED, 0);
    assert_eq!(
        store(seed.copied_in(&handle, Ok(vec![200, 1]))),
        vec![RegisterWrite::Word { address: 0x1000, value: 200 }]
    );
    assert_eq!(
        store(seed.copied_in(&handle, Ok(Vec::new()))),
        vec![RegisterWrite::Word { address: 0x1000, value: 0 }]
    );
    assert_eq!(
        store(seed.copied_in(&handle, Err(DriverError::CopyFault))),
        vec![RegisterWrite::Word { address: 0x1000, value: 0 }]
    );
    let write = IoctlCommand::new(LKP_ENC_WRITE_STRING, 0);
    assert_eq!(
        store(write.copied_in(&handle, Ok(b"ab".to_vec()))),
        vec![
            RegisterWrite::Byte { address: 0x1004, value: b'a' },
            RegisterWrite::Byte { address: 0x1005, value: b'b' },
            RegisterWrite::Byte { address: 0x1006, value: 0 },
        ]
    );
    assert!(matches!(
        write.copied_in(&handle, Err(DriverError::CopyFault)),
        IoctlStep::Fail { error: DriverError::CopyFault }
    ));
    assert!(matches!(
        IoctlCommand::new(LKP_ENC_READ_STRING, 0).copied_in(&handle, Ok(vec![1])),
        IoctlStep::ReadString
    ));
    assert!(matches!(
        IoctlCommand::new(7, 0).copied_in(&handle, Ok(vec![1])),
        IoctlStep::Fail { error: DriverError::UnknownCommand }
    ));
}

#[test]
fn status_codes() {
    assert_eq!(IOCTL_DONE, 0);
    assert_eq!(IOCTL_FAILED, -1);
    assert_eq!(status(Ok(())), 0);
    assert_eq!(status(Err(DriverError::CopyFault)), -1);
    assert_eq!(status(Err(DriverError::UnknownCommand)), -1);
    assert_eq!(status(Err(DriverError::MappingError)), -1);
}

#[test]
fn terminated_appends_a_null_unless_one_ends_the_bytes() {
    assert_eq!(terminated(b"abc".to_vec()), b"abc\0".to_vec());
    assert_eq!(terminated(b"abc\0".to_vec()), b"abc\0".to_vec());
    assert_eq!(terminated(b"a\0c".to_vec()), b"a\0c\0".to_vec());
    assert_eq!(terminated(Vec::new()), vec![0]);
}

#[test]
fn file_write_plans_the_writes_and_the_count() {
    let handle = initialize(0x1000, 4096).unwrap();
    let plan = file_write(&handle, Ok(b"hi".to_vec()));
    assert_eq!(plan.count, 2);
    assert_eq!(
        plan.writes,
        vec![
            RegisterWrite::Byte { address: 0x1004, value: b'h' },
            RegisterWrite::Byte { address: 0x1005, value: b'i' },
            RegisterWrite::Byte { address: 0x1006, value: 0 },
        ]
    );
    let plan = file_write(&handle, Ok(b"hi\0".to_vec()));
    assert_eq!(plan.count, 2);
    assert_eq!(plan.writes.len(), 3);
    let plan = file_write(&handle, Err(DriverError::CopyFault));
    assert_eq!(plan.count, 0);
    assert_eq!(plan.writes, Vec::new());
}

#[test]
fn only_a_read_from_the_start_reads_the_device() {
    assert!(reads_device(0));
    assert!(!reads_device(1));
    assert!(!reads_device(u64::MAX));
}

#[test]
fn stepping_by_hand_agrees_with_ioctl() {
    let (driver, mut by_hand) = loaded();
    let (_, mut by_ioctl) = loaded();
    let handle = driver.devmem();
    let user = UserBuffer::new(b"stepwise\0tail".to_vec());
    let command = IoctlCommand::new(LKP_ENC_WRITE_STRING, 0);

    let mut step = command.begin(&handle);
    if let IoctlStep::CopyIn { limit } = step {
        step = command.copied_in(&handle, user.copy_in(limit));
    }
    let outcome = match step {
        IoctlStep::Store { writes } => {
            by_hand.apply_all(&writes);
            Ok(())
        }
        IoctlStep::Fail { error } => Err(error),
        _ => panic!("a write command neither stored nor failed"),
    };
    assert_eq!(status(outcome), 0);

    let mut same = UserBuffer::new(b"stepwise\0tail".to_vec());
    assert_eq!(driver.ioctl(&mut by_ioctl, &command, &mut same), 0);
    assert_eq!(by_hand.string_region(), by_ioctl.string_region());
    assert_eq!(&by_hand.string_region()[..9], b"stepwise\0");
}
