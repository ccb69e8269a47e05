//! The decisions behind a photo editor's window, as plain functions on
//! plain values: the window's thread hands over what it knows and takes
//! back what to show, say and do next.

pub mod naming;
pub mod outline;
pub mod panel;
pub mod paths;
pub mod text;
