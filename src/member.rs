//! The members of a cluster as this node sees them.
use vstd::prelude::*;

use crate::addr::SocketAddr;

verus! {

/// The liveness of a member.
#[derive(Clone, Copy, Debug, PartialEq, Eq, Structural)]
pub enum MemberState {
    Alive,
    Suspect,
    Dead,
}

/// A participant of the cluster.
#[derive(Clone, Debug)]
pub struct Member {
    pub name: String,
    pub addr: SocketAddr,
    pub state: MemberState,
    /// Last known incarnation number.
    pub inc: u32,
}

} // verus!
