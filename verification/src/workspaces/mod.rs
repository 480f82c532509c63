//! Buttons that show and focus workspaces.

pub mod button;
pub mod open_state;
pub mod view;
