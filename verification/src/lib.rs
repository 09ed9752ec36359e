//! The Ankaios SDK, verified: workloads, workload states, manifests, the
//! complete state, requests and responses, and the decisions of the
//! connections to the agent and to the server.

pub mod ank_base;
pub mod ankaios;
pub mod command_interface;
pub mod complete_state;
pub mod config;
pub mod control_interface;
pub mod errors;
pub mod extensions;
pub mod file;
pub mod keyed;
pub mod laws;
pub mod log_entry;
pub mod log_types;
pub mod manifest;
pub mod request;
pub mod reading_laws;
pub mod response;
pub mod strings;
pub mod texts;
pub mod workload;
pub mod workload_builder;
pub mod workload_dict;
pub mod workload_laws;
pub mod workload_state;
pub mod yaml;

pub use complete_state::CompleteState;
pub use control_interface::ControlInterfaceState;
pub use errors::AnkaiosError;
pub use manifest::Manifest;
pub use workload::Workload;
pub use workload_builder::WorkloadBuilder;
pub use workload_state::{WorkloadStateCollection, WorkloadStateEnum};
