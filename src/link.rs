//! Addresses of messages and the errors of the channel protocol.
use vstd::prelude::*;

verus! {

/// The address of one published message: the channel it belongs to and its
/// position in the ledger.
#[derive(Clone, Copy, Debug, PartialEq, Eq, Structural)]
pub struct Link {
    pub channel: u64,
    pub msg: usize,
}

impl Link {
    pub fn new(channel: u64, msg: usize) -> (r: Link)
        ensures
            r.channel == channel,
            r.msg == msg,
    {
        Link { channel, msg }
    }
}

/// What can go wrong in a step of the protocol.
#[derive(Clone, Copy, Debug, PartialEq, Eq, Structural)]
pub enum ChannelError {
    /// No message is stored at the link.
    NotFound,
    /// The announcement the subscriber was given is not in the ledger.
    AnnouncementNotFound,
    /// The message at the announcement link is no announcement of this channel.
    MalformedAnnouncement,
    /// The channel was announced already.
    AlreadyAnnounced,
    /// The channel has not been announced yet.
    NotAnnounced,
    /// The message at a subscription link is no subscription to this channel.
    InvalidSubscription,
    /// The message at a link is not of the kind asked for.
    MalformedEnvelope,
    /// A payload half is not a well-formed encoding.
    DecodeError,
    /// The subscriber has not connected to the channel.
    NotConnected,
    /// No keyload has been sent, so nothing can be masked.
    NoKeyloadYet,
    /// A signed packet does not carry a valid signature of the channel author.
    SignatureInvalid,
}

} // verus!
