use vstd::prelude::*;

verus! {

/// Error raised while connecting to a Minecraft server interface.
#[derive(Debug)]
pub struct ConnectionError {
    reason: String,
}

impl View for ConnectionError {
    type V = Seq<char>;

    /// The reason that the error carries.
    closed spec fn view(&self) -> Seq<char> {
        self.reason@
    }
}

impl ConnectionError {
    /// A new error that carries `reason`.
    pub fn from(reason: &str) -> (e: ConnectionError)
        ensures
            e@ == reason@,
    {
        ConnectionError { reason: reason.to_owned() }
    }
}

} // verus!
