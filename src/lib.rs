//! A single-node service supervisor: the verified core of its registry, port
//! allocator, log ring, supervisor state machine and lifecycle rules.
//!
//! - `state`: the lifecycle states of a service and the edges between them.
//! - `supervisor`: one supervisor session as a machine from events to actions.
//! - `manager`: which services are registered and which supervisors run.
//! - `registry`, `ports`: the persisted definitions and port allocations.
//! - `log_buffer`: the bounded ring of a service's latest output lines.
//! - `service`: the runtime record of a service and its environment.
//! - `lifecycle`: creating, deleting, booting and upgrading services.
//! - `node`: configuration defaults and the node identity.
//! - `requests`, `text`: request bodies and text helpers.
//!
//! Processes, files, the network and time are driven by the daemon around
//! this library, which feeds the results back as plain values.

pub mod lifecycle;
pub mod log_buffer;
pub mod manager;
pub mod node;
pub mod ports;
pub mod registry;
pub mod requests;
pub mod service;
pub mod state;
pub mod supervisor;
pub mod text;
