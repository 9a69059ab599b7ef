//! The native-contract layer of a blockchain virtual machine: a registry that
//! binds reserved addresses to host-implemented contracts, the capability
//! every such contract offers, and the errors it can report.

pub mod address;
pub mod contract;
pub mod error;
pub mod factory;
pub mod laws;

pub use address::Address;
pub use contract::{derived_from, Contract, ContractClone};
pub use error::NativeError;
pub use factory::{registered, registered_onto, resolves_to, Factory};
