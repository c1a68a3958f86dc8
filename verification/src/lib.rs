//! A terminal dashboard for ports, processes, services, files and network interfaces: the
//! parsing of command output, the list and selection logic, the key handling and the texts
//! shown, each with its contract.

pub mod text;
pub mod records;
pub mod parse;
pub mod units;
pub mod platform;
pub mod paths;
pub mod state;
pub mod lists;
pub mod traffic;
pub mod events;
pub mod display;
