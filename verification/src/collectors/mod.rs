//! Parsers for the text of procfs files and system tools. Each turns the
//! raw output into the values a checkup records; the I/O that produces the
//! text lives with the caller.

pub mod cpu;
pub mod disk;
pub mod flatpak;
pub mod logs;
pub mod memory;
pub mod network;
pub mod packages;
pub mod ports;
pub mod process;
pub mod security;
pub mod services;
pub mod sizes;
pub mod smart;
pub mod snap;
