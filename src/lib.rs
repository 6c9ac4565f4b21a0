//! Execution governance for background browser tabs.
//!
//! The library decides how much script execution each tab may have, from the
//! tab's lifecycle state, recent user input and the system's memory pressure,
//! and drives an engine adapter only when a decision changes. It also turns
//! kernel memory figures into a smoothed pressure signal, and keeps the
//! browser's tab tree.

pub mod util;
pub mod tabs;
pub mod clock;
pub mod text;
pub mod policy;
pub mod feedback;
pub mod diagnostics;
pub mod governor;
pub mod procfs;
pub mod pressure;
pub mod sources;
pub mod memory;
pub mod storage;
pub mod browser_state;
