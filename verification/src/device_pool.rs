//! Bookkeeping of the pooled GPU resources.
//!
//! The pool owns a device, its context and a staging surface that are
//! created once and reused across captures.  The handles themselves are
//! opaque operating-system resources owned by the host application; what is
//! modelled here is the decision logic: the device is created only once, the
//! staging surface is recreated only when the requested dimensions change,
//! and the reused output buffer only ever grows.

use vstd::prelude::*;

verus! {

/// What the pool knows about its resources.
pub struct ResourcePoolState {
    initialized: bool,
    has_staging: bool,
    last_width: i32,
    last_height: i32,
    buffer_len: usize,
}

impl ResourcePoolState {
    pub closed spec fn spec_initialized(self) -> bool {
        self.initialized
    }

    pub closed spec fn spec_has_staging(self) -> bool {
        self.has_staging
    }

    pub closed spec fn spec_staging_extent(self) -> (int, int) {
        (self.last_width as int, self.last_height as int)
    }

    pub closed spec fn spec_buffer_len(self) -> int {
        self.buffer_len as int
    }

    pub fn new() -> (r: ResourcePoolState)
        ensures
            !r.spec_initialized(),
            !r.spec_has_staging(),
            r.spec_buffer_len() == 0,
    {
        ResourcePoolState {
            initialized: false,
            has_staging: false,
            last_width: 0,
            last_height: 0,
            buffer_len: 0,
        }
    }

    /// Whether the device and context still have to be created: they are
    /// created once and reused for the rest of the process lifetime.
    pub fn needs_device(&self) -> (r: bool)
        ensures
            r == !self.spec_initialized(),
    {
        !self.initialized
    }

    /// Record that the device and context were created.
    pub fn note_device_created(&mut self)
        ensures
            final(self).spec_initialized(),
            final(self).spec_has_staging() == old(self).spec_has_staging(),
            final(self).spec_staging_extent() == old(self).spec_staging_extent(),
            final(self).spec_buffer_len() == old(self).spec_buffer_len(),
    {
        self.initialized = true;
    }

    /// Whether a staging surface for a `width x height` capture has to be
    /// created: only when none exists yet or the requested dimensions differ
    /// from the surface that is being reused.
    pub fn needs_new_staging(&self, width: i32, height: i32) -> (r: bool)
        ensures
            r == !(self.spec_has_staging() && self.spec_staging_extent() == (
                width as int,
                height as int,
            )),
    {
        !(self.has_staging && self.last_width == width && self.last_height == height)
    }

    /// Record that a staging surface with the given extent was created.
    pub fn note_staging_created(&mut self, width: i32, height: i32)
        ensures
            final(self).spec_has_staging(),
            final(self).spec_staging_extent() == (width as int, height as int),
            final(self).spec_initialized() == old(self).spec_initialized(),
            final(self).spec_buffer_len() == old(self).spec_buffer_len(),
    {
        self.has_staging = true;
        self.last_width = width;
        self.last_height = height;
    }

    /// The length the reused output buffer must grow to for a capture of
    /// `required` bytes: the buffer only ever grows, so a later smaller
    /// capture reuses it without reallocation.
    pub fn grow_buffer(&mut self, required: usize) -> (r: usize)
        ensures
            r == final(self).spec_buffer_len(),
            final(self).spec_buffer_len() == if old(self).spec_buffer_len() < required as int {
                required as int
            } else {
                old(self).spec_buffer_len()
            },
            final(self).spec_buffer_len() >= required as int,
            final(self).spec_initialized() == old(self).spec_initialized(),
            final(self).spec_has_staging() == old(self).spec_has_staging(),
            final(self).spec_staging_extent() == old(self).spec_staging_extent(),
    {
        if self.buffer_len < required {
            self.buffer_len = required;
        }
        self.buffer_len
    }
}

} // verus!
