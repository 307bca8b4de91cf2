pub mod framing;
pub mod protocol;
pub mod transport;
