//! The commands that the application gives the network task.
use vstd::prelude::*;

use crate::messages::{Message, NetworkTopic};
use crate::PublicAddress;

verus! {

/// A command to send a message either to a specific peer ([SendCommand::SendTo]), or to all
/// subscribers of a network topic ([SendCommand::Broadcast]).
pub enum SendCommand {
    /// expects a peer with specific PublicAddress would be interested in
    SendTo(PublicAddress, Message),
    /// does not care which peer would be interested in
    Broadcast(NetworkTopic, Message),
}

} // verus!
