//! Real-time audio transport between a hardware callback domain and an
//! asynchronous network domain.
//!
//! Audio samples are 32-bit floats; inside this library a sample is carried as
//! the bit pattern of that float (`f32::to_bits`), so the all-zero pattern is
//! silence. A packet is a `Vec` of at most `PACKAGE_SIZE` such samples.
pub mod broadcast;
pub mod capture;
pub mod devices;
pub mod ingest;
pub mod playback;
pub mod relay;

pub use broadcast::{relay_step, Broadcaster};
pub use capture::{capture, chunk_samples};
pub use devices::{describe, list_devices, select_device, Device, DeviceEntry, SetDeviceError};
pub use ingest::{ingest, IngestOutcome};
pub use playback::fill_output;
pub use relay::RelayQueue;

use vstd::prelude::*;

verus! {

/// Largest number of samples carried by one packet.
pub const PACKAGE_SIZE: usize = 1000;

/// Number of packets a relay queue holds before it drops new ones.
pub const QUEUE_CAPACITY: usize = 128;

/// Number of packets each subscriber's queue holds before it drops its oldest.
pub const BROADCAST_CAPACITY: usize = 128;

/// Milliseconds the broadcaster waits after finding the capture queue empty.
pub const POLL_INTERVAL_MS: u64 = 10;

} // verus!
