use vstd::prelude::*;

use crate::utils::error::ConnectionError;
use crate::utils::mc::taurus::{Taurus, TaurusView};

verus! {

/// What a bridge is: the channel it serves and the server manager it talks to.
pub struct BridgeView {
    pub channel: u64,
    pub interface: TaurusView,
}

/// A link between one Discord channel and a Minecraft server, through the
/// server's manager. Taurus is the one manager that a bridge is made with.
pub struct Bridge {
    interface: Taurus,
    pub channel: u64,
}

impl View for Bridge {
    type V = BridgeView;

    closed spec fn view(&self) -> BridgeView {
        BridgeView { channel: self.channel, interface: self.interface@ }
    }
}

impl Bridge {
    /// A bridge from `channel` to the local Taurus.
    pub fn taurus(channel: u64) -> (res: Result<Bridge, ConnectionError>)
        ensures
            match res {
                Ok(b) => b@.channel == channel && b@.interface.password == Seq::<char>::empty()
                    && b@.interface.address == crate::utils::mc::taurus::taurus_address(),
                Err(_) => false,
            },
    {
        match Taurus::new() {
            Ok(interface) => Ok(Bridge { interface, channel }),
            Err(e) => Err(e),
        }
    }

    /// The server manager that the bridge talks to.
    pub fn interface(&self) -> (t: &Taurus)
        ensures
            t@ == self@.interface,
    {
        &self.interface
    }

    /// The channel that the bridge serves.
    pub fn channel(&self) -> (c: u64)
        ensures
            c == self@.channel,
    {
        self.channel
    }

    /// Whether `other` is the channel of this bridge.
    pub fn is_channel(&self, other: u64) -> (b: bool)
        ensures
            b == (other == self@.channel),
    {
        other == self.channel
    }
}

} // verus!
