//! A structured-log routing and rotation engine.
//!
//! Given a set of named output sinks ("appenders"), a routing table that maps
//! an event's target string and severity to sinks, and a small `{field}`
//! template language, this library decides which sinks receive each event and
//! how each sink renders it, and manages the bookkeeping of size-triggered
//! file rotation and of recovery when a backing file moves out from under an
//! open handle.

pub mod appenders;
pub mod chars;
pub mod config;
pub mod level;
pub mod paths;
pub mod rolling;
pub mod router;
pub mod template;
pub mod timestamp;
