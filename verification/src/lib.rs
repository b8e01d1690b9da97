//! Enumeration of connected USB devices and observation of connect and
//! disconnect events over time.
//!
//! A snapshot of the attached hardware is a list of [`UsbDevice`] values.
//! [`enumerate`] turns the raw property records of an OS device query into
//! the filtered, de-duplicated device list. [`diff::diff`] computes the
//! change between two snapshots, and [`worker::Worker`] is the
//! poll-diff-emit step machine that a background thread drives to produce a
//! stream of [`Event`] values for a subscriber.

pub mod device;
pub mod diff;
pub mod events;
pub mod observer;
pub mod parse;
pub mod record;
pub mod wide;
pub mod worker;

pub use device::DeviceBaseClass;
pub use device::ParseError;
pub use device::UsbDevice;
pub use diff::DeviceDiff;
pub use events::Event;
pub use observer::Observer;
pub use parse::get_pid_or_vid;
pub use record::enumerate;
pub use record::DeviceRecord;
pub use wide::extract_vid_pid;
pub use worker::WaitCounter;
pub use worker::Worker;
