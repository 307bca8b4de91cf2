//! Transport settings shared by client and server.
use vstd::prelude::*;

verus! {

/// Settings that client and server must agree on. The heartbeat interval
/// and the timeout are held in whole seconds.
#[derive(Debug, Clone)]
pub struct TransportConfig {
    /// Protocol identifier; client and server must use the same.
    pub protocol_id: u64,
    /// Largest packet, in bytes.
    pub max_packet_size: usize,
    /// Packets sent per second.
    pub send_rate: u32,
    /// Packets received per second.
    pub receive_rate: u32,
    /// Seconds between heartbeats.
    pub heartbeat_interval_secs: u64,
    /// Seconds of silence after which a peer counts as disconnected.
    pub timeout_secs: u64,
}

impl Default for TransportConfig {
    fn default() -> (r: Self)
        ensures
            r.protocol_id == 0x4553_4F4E_414E_4345u64,
            r.max_packet_size == 8192,
            r.send_rate == 60,
            r.receive_rate == 60,
            r.heartbeat_interval_secs == 1,
            r.timeout_secs == 10,
    {
        TransportConfig {
            protocol_id: 0x4553_4F4E_414E_4345,
            max_packet_size: 8192,
            send_rate: 60,
            receive_rate: 60,
            heartbeat_interval_secs: 1,
            timeout_secs: 10,
        }
    }
}

} // verus!
