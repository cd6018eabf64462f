use lkp_enc::driver::{
    CommandKind, IoctlCommand, LKP_ENC_READ_STRING, LKP_ENC_TYPE, LKP_ENC_WRITE_SEED,
    LKP_ENC_WRITE_STRING,
};
use lkp_enc::ioctl::{_IO, _IOC, _IOC_DIR, _IOC_NR, _IOC_SIZE, _IOC_TYPE, _IOR, _IOW, _IOWR};

#[test]
fn ioc_packs_each_field_at_its_place() {
    assert_eq!(_IOC(0, 0, 1, 0), 1);
    assert_eq!(_IOC(0, 1, 0, 0), 1 << 8);
    assert_eq!(_IOC(0, 0, 0, 1), 1 << 16);
    assert_eq!(_IOC(1, 0, 0, 0), 1 << 30);
    assert_eq!(_IOC(3, 255, 255, 16383), 0xffff_ffff);
    assert_eq!(_IOC(2, 0x71, 3, 16), 0x8010_7103);
}

#[test]
fn io_has_no_direction_and_no_size() {
    assert_eq!(_IO(0x71, 7), 0x0000_7107);
    assert_eq!(_IOC_DIR(_IO(0x71, 7)), 0);
    assert_eq!(_IOC_SIZE(_IO(0x71, 7)), 0);
}

#[test]
fn ior_iow_iowr_carry_direction_and_argument_size() {
    assert_eq!(_IOR::<u32>(0x71, 1), 0x8004_7101);
    assert_eq!(_IOW::<u32>(0x71, 1), 0x4004_7101);
    assert_eq!(_IOWR::<u32>(0x71, 1), 0xc004_7101);
    assert_eq!(_IOW::<u8>(0, 0), 0x4001_0000);
    assert_eq!(_IOR::<u64>(255, 255), 0x8008_ffff);
}

#[test]
fn fields_unpack_from_a_packed_number() {
    let cmd = _IOC(2, 0x71, 3, 16);
    assert_eq!(_IOC_DIR(cmd), 2);
    assert_eq!(_IOC_TYPE(cmd), 0x71);
    assert_eq!(_IOC_NR(cmd), 3);
    assert_eq!(_IOC_SIZE(cmd), 16);
}

#[test]
fn fields_unpack_from_any_number() {
    assert_eq!(_IOC_DIR(0xdead_beef), 3);
    assert_eq!(_IOC_SIZE(0xdead_beef), 0x1ead);
    assert_eq!(_IOC_TYPE(0xdead_beef), 0xbe);
    assert_eq!(_IOC_NR(0xdead_beef), 0xef);
    assert_eq!(_IOC(3, 0xbe, 0xef, 0x1ead), 0xdead_beef);
}

#[test]
fn driver_commands_are_the_packed_fields() {
    assert_eq!(LKP_ENC_TYPE, 'q' as u32);
    assert_eq!(LKP_ENC_WRITE_SEED, _IOW::<u32>('q' as u32, 1));
    assert_eq!(LKP_ENC_WRITE_STRING, _IOC(1, 'q' as u32, 2, 16));
    assert_eq!(LKP_ENC_READ_STRING, _IOC(2, 'q' as u32, 3, 16));
    assert_eq!(_IOC_DIR(LKP_ENC_WRITE_SEED), 1);
    assert_eq!(_IOC_DIR(LKP_ENC_WRITE_STRING), 1);
    assert_eq!(_IOC_DIR(LKP_ENC_READ_STRING), 2);
    assert_eq!(_IOC_NR(LKP_ENC_WRITE_SEED), 1);
    assert_eq!(_IOC_NR(LKP_ENC_WRITE_STRING), 2);
    assert_eq!(_IOC_NR(LKP_ENC_READ_STRING), 3);
}

#[test]
fn command_kinds() {
    assert_eq!(IoctlCommand::new(LKP_ENC_WRITE_SEED, 0).kind(), CommandKind::WriteSeed);
    assert_eq!(IoctlCommand::new(LKP_ENC_WRITE_STRING, 0).kind(), CommandKind::WriteString);
    assert_eq!(IoctlCommand::new(LKP_ENC_READ_STRING, 0).kind(), CommandKind::ReadString);
    assert_eq!(IoctlCommand::new(0xdead_beef, 0).kind(), CommandKind::Unknown);
    assert_eq!(IoctlCommand::new(0, 0).kind(), CommandKind::Unknown);
    assert_eq!(IoctlCommand::new(LKP_ENC_WRITE_SEED + 1, 0).kind(), CommandKind::Unknown);
    let command = IoctlCommand::new(LKP_ENC_READ_STRING, 0x7fff_0000);
    assert_eq!(command.command_id, LKP_ENC_READ_STRING);
    assert_eq!(command.argument, 0x7fff_0000);
}
