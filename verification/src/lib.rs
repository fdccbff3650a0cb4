//! Panic-free, checked arithmetic wrappers around the standard time types.
//!
//! Each wrapper holds either a value of the underlying primitive kind or
//! nothing at all; arithmetic that would overflow, underflow or divide by
//! zero yields the absent value instead of panicking, and absence propagates
//! through every further operation.

pub mod duration;
pub mod instant;
pub mod round;
pub mod system_time;
pub mod utils;
pub mod error;
pub mod from_secs;
pub mod std_time;

pub use duration::DurRepr;
pub use duration::Duration;
pub use error::TryFromTimeError;
pub use instant::Instant;
pub use system_time::SystemTime;
