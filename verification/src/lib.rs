//! Reactive state-synchronization core for a set of desktop-shell services.
//!
//! Each service owns a snapshot of one external resource, re-reads that
//! resource when an external watch fires, writes the fresh values through an
//! equality-suppressing mutator, and broadcasts a notification on a per-field
//! channel only when the observed value actually changed.

pub mod applications;
pub mod audio;
pub mod battery;
pub mod bluetooth;
pub mod brightness;
pub mod bus;
pub mod cliphist;
pub mod hyprland;
pub mod notifications;
pub mod numfmt;
pub mod store;
mod text;
pub mod utils;

pub use text::str_contains;
pub use text::str_eq;
pub use text::str_le;
