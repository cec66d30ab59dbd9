//! The membership change message a sidecar sends to its peers before it
//! leaves, or to introduce a new member.

use vstd::prelude::*;

verus! {

/// The change operation
#[derive(Debug, Clone, PartialEq, Eq)]
pub enum ChangeOP {
    /// Remove this member
    Remove,
    /// Add this member with an address
    Add(String),
}

/// The membership change request sent by other sidecar operators when they
/// are shutting down
#[derive(Debug, Clone)]
pub struct MembershipChange {
    /// The name of the sidecar operator
    pub name: String,
    /// The operation of this membership change request
    pub op: ChangeOP,
}

} // verus!
