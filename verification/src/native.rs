//! The first-generation joystick back ends, one per platform.  Each keeps
//! what the platform reported of its devices; the calls into the platform
//! are made by the caller, which hands the replies in.

pub mod linux;
pub mod macos;
pub mod windows;
