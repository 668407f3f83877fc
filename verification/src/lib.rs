//! Boot-time host-provisioning agent for virtualized cloud instances.
//!
//! The library discovers instance configuration (admin username, SSH public
//! keys, hostname, password policy) from a hypervisor metadata service or an
//! attached configuration medium, decides how to apply it to the host through
//! ordered fallback chains of provisioning backends, and prepares the
//! goal-state handshake that reports completion back to the hypervisor.
//!
//! All decision logic is verified. The unverified surroundings (network
//! transport, block-device mounting, subprocess execution) perform the actions
//! this library plans and hand the outcomes back as events.

pub mod agent;
pub mod backend;
pub mod error;
pub mod goalstate;
pub mod hostname;
pub mod imds;
pub mod media;
pub mod password;
pub mod provision;
pub mod scan;
pub mod ssh;
pub mod user;

pub use error::Error;
pub use error::ExitKind;
