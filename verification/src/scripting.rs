//! Status shims for the embedded scripting runtime that hosts the detector.
//!
//! The detector runs inside a scripting runtime that the host application
//! provisions at startup.  These functions are the runtime-independent part
//! of that surface: a guide for users whose machine lacks the runtime, and a
//! compatibility entry point for callers of the older initialization
//! interface.

use vstd::prelude::*;

verus! {

/// Shown to users when the scripting runtime that hosts the detector is
/// missing from their machine.
pub const INSTALLATION_GUIDE_TEXT: &'static str = "Runtime installation guide:\n\n1. Install Python 3.7 or newer.\n2. Install the required packages:\n   pip install opencv-python numpy\n3. If permissions get in the way, retry with:\n   pip install --user opencv-python numpy\n4. Restart the application.\n\nIf the problem persists, contact support.\n";

/// The guide for installing the scripting runtime, as an owned string.
pub fn get_installation_guide() -> (r: String)
    ensures
        r@ == INSTALLATION_GUIDE_TEXT@,
{
    INSTALLATION_GUIDE_TEXT.to_owned()
}

/// Kept for callers of the older initialization interface.  Provisioning the
/// runtime is driven by the host application, so there is nothing to do here
/// and the call always succeeds.
pub fn initialize_python_environment() -> (r: Result<(), String>)
    ensures
        r == Ok::<(), String>(()),
{
    Ok(())
}

} // verus!
