//! The channels messages travel on, and message counters.
use vstd::prelude::*;

verus! {

/// The channel a message is sent on.
#[derive(Debug, Clone, Copy, PartialEq, Eq, Structural)]
pub enum NetworkChannel {
    /// Unreliable and unordered, for frequent updates such as positions.
    Unreliable,
    /// Reliable and ordered, for important game events.
    Reliable,
    /// Reliable, ordered and urgent, for connection management.
    System,
}

/// The channel's number on the wire.
pub open spec fn channel_id(c: NetworkChannel) -> u8 {
    match c {
        NetworkChannel::Unreliable => 0,
        NetworkChannel::Reliable => 1,
        NetworkChannel::System => 2,
    }
}

impl From<NetworkChannel> for u8 {
    fn from(channel: NetworkChannel) -> (r: u8) {
        match channel {
            NetworkChannel::Unreliable => 0,
            NetworkChannel::Reliable => 1,
            NetworkChannel::System => 2,
        }
    }
}

impl vstd::std_specs::convert::FromSpecImpl<NetworkChannel> for u8 {
    open spec fn obeys_from_spec() -> bool {
        true
    }

    open spec fn from_spec(channel: NetworkChannel) -> u8 {
        channel_id(channel)
    }
}

/// Distinct channels have distinct numbers.
pub proof fn lemma_channel_ids_distinct(a: NetworkChannel, b: NetworkChannel)
    ensures
        channel_id(a) == channel_id(b) <==> a == b,
{
}

/// Counts of messages and bytes that went each way, and packets lost.
#[derive(Debug, Clone)]
pub struct MessageStats {
    pub messages_sent: u64,
    pub messages_received: u64,
    pub bytes_sent: u64,
    pub bytes_received: u64,
    pub packets_lost: u64,
}

impl Default for MessageStats {
    fn default() -> (r: Self)
        ensures
            r.messages_sent == 0,
            r.messages_received == 0,
            r.bytes_sent == 0,
            r.bytes_received == 0,
            r.packets_lost == 0,
    {
        MessageStats { messages_sent: 0, messages_received: 0, bytes_sent: 0, bytes_received: 0, packets_lost: 0 }
    }
}

} // verus!
