//! Configuration values read by the pipeline at tick time.
//!
//! The host application loads its configuration file and hands the pipeline
//! these plain values.  Scale factors arrive as [`Ratio`]s, which carry the
//! decimal resolution the file format offers without any floating point.

use vstd::prelude::*;

use crate::scale::Ratio;

verus! {

/// Settings of the monitoring loop.
#[derive(Debug, Clone)]
pub struct MonitoringConfig {
    /// Tick interval in milliseconds, clamped by [`clamp_interval`].
    pub interval: u64,
    /// Enlargement applied to each detected region before it is published.
    pub mosaic_scale: Ratio,
    /// Name of the mask style the overlay renders.
    pub mosaic_style: String,
    /// Optional downscale applied to captures before detection.
    pub capture_scale: Option<Ratio>,
}

/// System-wide settings.
#[derive(Debug, Clone)]
pub struct SystemConfig {
    pub log_level: Option<String>,
}

/// The configuration tables the pipeline reads.
#[derive(Debug, Clone)]
pub struct Config {
    pub monitoring: Option<MonitoringConfig>,
    pub system: Option<SystemConfig>,
}

/// Shortest allowed tick interval: a zero or near-zero configured interval
/// must not starve the thread or flood downstream consumers.
pub const MIN_INTERVAL_MS: u64 = 8;

/// Longest allowed tick interval.
pub const MAX_INTERVAL_MS: u64 = 1000;

/// Clamp the configured tick interval into its allowed range.
pub fn clamp_interval(configured: u64) -> (r: u64)
    ensures
        r == if configured < MIN_INTERVAL_MS {
            MIN_INTERVAL_MS
        } else if configured > MAX_INTERVAL_MS {
            MAX_INTERVAL_MS
        } else {
            configured
        },
        MIN_INTERVAL_MS <= r <= MAX_INTERVAL_MS,
{
    if configured < MIN_INTERVAL_MS {
        MIN_INTERVAL_MS
    } else if configured > MAX_INTERVAL_MS {
        MAX_INTERVAL_MS
    } else {
        configured
    }
}

} // verus!
