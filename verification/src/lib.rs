//! Core of a character-device driver for a small memory-mapped "encryption"
//! device: command numbers, register addressing, the bounded string transfer
//! between the register window and byte buffers, and the command dispatch.

#![allow(non_snake_case)]

pub mod codec;
pub mod device;
pub mod driver;
pub mod ioctl;
pub mod user;
pub mod window;
