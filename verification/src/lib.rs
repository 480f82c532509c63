//! Two modules of a desktop bar, without their widgets: the system
//! information labels and the workspace buttons.
//!
//! Each module decides what is shown and when. It is handed plain values
//! (metric readings, rendered text, refresh ticks) and answers with the next
//! thing to do; the surrounding application talks to the system and to the
//! widget toolkit.

pub mod binary64;
pub mod sysinfo;
pub mod workspaces;
