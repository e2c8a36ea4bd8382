//! Configuration core for USB-triggered monitor input switching.
//!
//! The crate resolves, for a given monitor, which video-input source it
//! should be switched to when a watched USB device is connected or
//! disconnected.  A layered configuration (one global default plus up to six
//! per-monitor overrides) is compiled into typed values once, then queried
//! per hotplug event.

pub mod configuration;
pub mod errors;
pub mod input_source;
pub mod text;
