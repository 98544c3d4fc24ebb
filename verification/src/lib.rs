//! Adaptive screen-capture pipeline core.
//!
//! The crate models the logic of a capture/detect/render loop: rectangle
//! algebra for detected regions, frame buffers with their BGRA layout
//! invariant, a content validator that rejects blank frames, the per-display
//! adaptive selection of capture methods, coordinate mapping between a
//! downscaled detection buffer and the native display, and the bookkeeping of
//! a single-slot frame prefetcher.  The operating-system calls that produce
//! frames, run the detector and publish the mask live in the host
//! application; everything here is ordinary computation on plain values and
//! is verified.

pub mod config;
pub mod device_pool;
pub mod frame;
pub mod mask;
pub mod monitor;
pub mod pipeline;
pub mod rect;
pub mod scale;
pub mod scripting;
pub mod selector;
pub mod validate;
