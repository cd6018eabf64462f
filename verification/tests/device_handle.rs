use lkp_enc::device::{
    initialize, teardown, DriverError, DEVICE_BASE_PHYS_ADDR, RESERVED, SEED_OFFSET, SIZE,
    STRING_OFFSET,
};
use lkp_enc::driver::LkpEnc;

#[test]
fn configuration_constants() {
    assert_eq!(DEVICE_BASE_PHYS_ADDR, 0xfebd1000);
    assert_eq!(SIZE, 4096);
    assert_eq!(SEED_OFFSET, 0);
    assert_eq!(STRING_OFFSET, 4);
    assert_eq!(RESERVED, 5);
}

#[test]
fn initialize_keeps_address_and_size() {
    let handle = initialize(0x10_0000, 4096).unwrap();
    assert_eq!(handle.base(), 0x10_0000);
    assert_eq!(handle.window_size(), 4096);
    assert_eq!(handle.usable_length(), 4091);
}

#[test]
fn initialize_fails_on_null_address() {
    assert_eq!(initialize(0, 4096).err(), Some(DriverError::MappingError));
}

#[test]
fn initialize_fails_on_window_without_room() {
    assert_eq!(initialize(0x1000, 0).err(), Some(DriverError::MappingError));
    assert_eq!(initialize(0x1000, 4).err(), Some(DriverError::MappingError));
    assert!(initialize(0x1000, 5).is_ok());
    assert_eq!(initialize(0x1000, 5).unwrap().usable_length(), 0);
}

#[test]
fn initialize_fails_on_window_past_the_address_space() {
    assert_eq!(initialize(usize::MAX - 10, 4096).err(), Some(DriverError::MappingError));
    assert_eq!(initialize(usize::MAX - 4095, 4096).err(), Some(DriverError::MappingError));
    assert!(initialize(usize::MAX - 4096, 4096).is_ok());
}

#[test]
fn register_addresses() {
    let handle = initialize(0x2000, 4096).unwrap();
    assert_eq!(handle.seed_address(), 0x2000);
    assert_eq!(handle.string_address(0), Some(0x2004));
    assert_eq!(handle.string_address(1), Some(0x2005));
    assert_eq!(handle.string_address(4090), Some(0x2004 + 4090));
    assert_eq!(handle.string_address(4091), Some(0x2fff));
    assert_eq!(handle.string_address(4092), None);
    assert_eq!(handle.string_address(usize::MAX), None);
}

#[test]
fn teardown_returns_the_mapped_address() {
    let handle = initialize(0x3000, 4096).unwrap();
    assert_eq!(teardown(handle), 0x3000);
}

#[test]
fn driver_init_and_exit() {
    let driver = LkpEnc::init(0x4000, 4096).unwrap();
    assert_eq!(driver.devmem().base(), 0x4000);
    assert_eq!(driver.devmem().usable_length(), 4091);
    assert_eq!(driver.open(), Ok(()));
    assert_eq!(driver.exit(), 0x4000);
    assert_eq!(LkpEnc::init(0, 4096).err(), Some(DriverError::MappingError));
    assert_eq!(LkpEnc::init(0x4000, 3).err(), Some(DriverError::MappingError));
}
