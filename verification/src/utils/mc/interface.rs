use vstd::prelude::*;

verus! {

/// The status of a Minecraft server, as a server interface reports it.
pub struct ServerStatus;

} // verus!
