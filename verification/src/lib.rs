//! The core of a firmware HID input driver and of the telemetry it emits.
//!
//! The driver binds HID keyboards and pointers into a platform's input
//! services, and records diagnostic events with the platform's status code
//! service. This crate holds what the driver decides. It performs no I/O:
//! where the firmware has to be asked or told something, a function here
//! says what, and the host does it and reports back. Every function is
//! verified against its contract, and the laws that hold between functions
//! are stated as proof functions beside them.
//!
//! Leaves first:
//!
//! - [`le`] and [`guid`]: little-endian integers and 128-bit identifiers as
//!   bytes on the wire.
//! - [`extended_data`]: the record that carries a typed payload behind a
//!   fixed 20-byte header.
//! - [`status_code`]: diagnostic events and their 48-byte payload.
//! - [`status_code_runtime`]: what the status code service is called with,
//!   and what its answer means.
//! - [`telemetry`]: the telemetry service, which remembers the located
//!   status code service for the boot session and prepares reports.
//! - [`receiver`]: the keyboard and pointer handlers that take raw reports.
//! - [`binding_model`] and [`driver_binding`]: the driver-binding lifecycle
//!   as a state machine, and the coordinator that runs it.

pub mod binding_model;
pub mod driver_binding;
pub mod error;
pub mod extended_data;
pub mod guid;
pub mod handles;
pub mod le;
pub mod receiver;
pub mod status_code;
pub mod status_code_runtime;
pub mod telemetry;
