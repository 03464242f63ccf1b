//! Reconciliation of declarative network-interface configuration against the
//! state of a connection manager, together with a registry that maps logical
//! interface names (`eth0`, `eth1`, ...) to physical device identifiers.
//!
//! The connection manager itself is an external collaborator; this crate
//! models its observable state (connections and their per-IP-version settings
//! blocks) as plain data, and verifies the decision logic that reads and
//! mutates that state.

use vstd::prelude::*;

pub mod model;
pub mod names;
pub mod networkcfg;
pub mod nmmgr;

verus! {

/// Failure kinds surfaced by the registry and the reconciler.
///
/// `TransportFailure` and `MalformedAddress` originate at the boundary to the
/// live connection manager (a manager call fails, or an address string read
/// from it does not parse); the callers that talk to the live manager map
/// such failures to these variants.
#[derive(Clone, Copy, Debug, PartialEq, Eq, Structural)]
pub enum ConfigError {
    /// The requested logical name is not a key of the registry's mapping.
    UnmappedInterface,
    /// A connection was created but could not be retrieved afterwards.
    ConnectionCreationFailed,
    /// An underlying manager call failed.
    TransportFailure,
    /// An address string from the manager does not parse as an IP address.
    MalformedAddress,
}

} // verus!
